//! The type tree: a Rust type read as a tree of paths, with the generic
//! wrapper and the kind of value that each node stands for.
use vstd::prelude::*;

use crate::diagnostics::Diagnostics;
use crate::config::Config;
use crate::attrs::{param_view, params_view, GenericParam, ParamV};
use crate::text::str_eq;
use vstd::string::StringExecFns;
use crate::rust_type::{
    clone_path, first_trait_bound, lemma_types_view, lemma_segments_view, lemma_generic_args_view,
    GenericArgV, ArgsV, PathArguments, TypeArgument, TypeSegment, RustType, SegmentV, TypePath, TypeV,
    path_view, type_view, segments_view, segment_view, arguments_view, generic_args_view,
    generic_arg_view, types_view,
};

verus! {

/// The kind of value that a type tree node stands for.
#[derive(PartialEq, Eq, Structural, Clone, Copy, Debug)]
pub enum ValueType {
    Primitive,
    Object,
    Tuple,
    Value,
}

/// The generic wrapper types that the macros know.
#[derive(PartialEq, Eq, Structural, Clone, Copy, Debug)]
pub enum GenericType {
    Vec,
    LinkedList,
    SetLike,
    MapLike,
    Option,
    Cow,
    Box,
    RefCell,
}

/// A node of a type tree.
pub struct TypeTree {
    pub path: Option<TypePath>,
    pub value_type: ValueType,
    pub generic_type: Option<GenericType>,
    pub children: Option<Vec<TypeTree>>,
}

/// The view of a [`TypeTree`].
pub struct TypeTreeV {
    pub path: Option<Seq<SegmentV>>,
    pub value_type: ValueType,
    pub generic_type: Option<GenericType>,
    pub children: Option<Seq<TypeTreeV>>,
}

/// The view of a type tree.
pub open spec fn tree_view(t: TypeTree) -> TypeTreeV
    decreases t,
{
    TypeTreeV {
        path: match t.path {
            Some(p) => Some(path_view(p)),
            None => None,
        },
        value_type: t.value_type,
        generic_type: t.generic_type,
        children: match t.children {
            Some(c) => Some(trees_view(c@)),
            None => None,
        },
    }
}

/// The views of a sequence of type trees.
pub open spec fn trees_view(s: Seq<TypeTree>) -> Seq<TypeTreeV>
    decreases s,
{
    if s.len() == 0 {
        Seq::empty()
    } else {
        trees_view(s.drop_last()).push(tree_view(s.last()))
    }
}

/// The outcome of reading a type: a value, an error message, or an abort of
/// the macro (an internal expectation that does not hold).
pub enum Outcome<T> {
    Done(T),
    Fail(Seq<char>),
    Abort,
}

/// The Rust primitive type names.
pub open spec fn is_primitive_name(name: Seq<char>) -> bool {
    ||| name == "String"@
    ||| name == "str"@
    ||| name == "char"@
    ||| name == "bool"@
    ||| name == "usize"@
    ||| name == "u8"@
    ||| name == "u16"@
    ||| name == "u32"@
    ||| name == "u64"@
    ||| name == "u128"@
    ||| name == "isize"@
    ||| name == "i8"@
    ||| name == "i16"@
    ||| name == "i32"@
    ||| name == "i64"@
    ||| name == "i128"@
    ||| name == "f32"@
    ||| name == "f64"@
}

/// Whether the arguments of a segment are empty (`None`, or `<>`).
pub open spec fn args_empty(a: ArgsV) -> bool {
    match a {
        ArgsV::Empty => true,
        ArgsV::AngleBracketed(args) => args.len() == 0,
        ArgsV::Parenthesized => false,
    }
}

/// The generic wrapper that a segment names, when it has arguments.
pub open spec fn generic_type_of(seg: SegmentV) -> Option<GenericType> {
    let name = seg.ident;
    if args_empty(seg.arguments) {
        None
    } else if name == "HashMap"@ || name == "Map"@ || name == "BTreeMap"@ {
        Some(GenericType::MapLike)
    } else if name == "Vec"@ {
        Some(GenericType::Vec)
    } else if name == "BTreeSet"@ || name == "HashSet"@ {
        Some(GenericType::SetLike)
    } else if name == "LinkedList"@ {
        Some(GenericType::LinkedList)
    } else if name == "Option"@ {
        Some(GenericType::Option)
    } else if name == "Cow"@ {
        Some(GenericType::Cow)
    } else if name == "Box"@ {
        Some(GenericType::Box)
    } else if name == "RefCell"@ {
        Some(GenericType::RefCell)
    } else {
        None
    }
}

/// The characters of the names of the generic wrappers.
proof fn lemma_wrapper_name_chars()
    ensures
        "HashMap"@.len() == 7,
        "HashMap"@[0] == 'H',
        "HashMap"@[1] == 'a',
        "HashMap"@[2] == 's',
        "HashMap"@[3] == 'h',
        "HashMap"@[4] == 'M',
        "HashMap"@[5] == 'a',
        "HashMap"@[6] == 'p',
        "Map"@.len() == 3,
        "Map"@[0] == 'M',
        "Map"@[1] == 'a',
        "Map"@[2] == 'p',
        "BTreeMap"@.len() == 8,
        "BTreeMap"@[0] == 'B',
        "BTreeMap"@[1] == 'T',
        "BTreeMap"@[2] == 'r',
        "BTreeMap"@[3] == 'e',
        "BTreeMap"@[4] == 'e',
        "BTreeMap"@[5] == 'M',
        "BTreeMap"@[6] == 'a',
        "BTreeMap"@[7] == 'p',
        "Vec"@.len() == 3,
        "Vec"@[0] == 'V',
        "Vec"@[1] == 'e',
        "Vec"@[2] == 'c',
        "BTreeSet"@.len() == 8,
        "BTreeSet"@[0] == 'B',
        "BTreeSet"@[1] == 'T',
        "BTreeSet"@[2] == 'r',
        "BTreeSet"@[3] == 'e',
        "BTreeSet"@[4] == 'e',
        "BTreeSet"@[5] == 'S',
        "BTreeSet"@[6] == 'e',
        "BTreeSet"@[7] == 't',
        "HashSet"@.len() == 7,
        "HashSet"@[0] == 'H',
        "HashSet"@[1] == 'a',
        "HashSet"@[2] == 's',
        "HashSet"@[3] == 'h',
        "HashSet"@[4] == 'S',
        "HashSet"@[5] == 'e',
        "HashSet"@[6] == 't',
        "LinkedList"@.len() == 10,
        "LinkedList"@[0] == 'L',
        "LinkedList"@[1] == 'i',
        "LinkedList"@[2] == 'n',
        "LinkedList"@[3] == 'k',
        "LinkedList"@[4] == 'e',
        "LinkedList"@[5] == 'd',
        "LinkedList"@[6] == 'L',
        "LinkedList"@[7] == 'i',
        "LinkedList"@[8] == 's',
        "LinkedList"@[9] == 't',
        "Option"@.len() == 6,
        "Option"@[0] == 'O',
        "Option"@[1] == 'p',
        "Option"@[2] == 't',
        "Option"@[3] == 'i',
        "Option"@[4] == 'o',
        "Option"@[5] == 'n',
        "Cow"@.len() == 3,
        "Cow"@[0] == 'C',
        "Cow"@[1] == 'o',
        "Cow"@[2] == 'w',
        "Box"@.len() == 3,
        "Box"@[0] == 'B',
        "Box"@[1] == 'o',
        "Box"@[2] == 'x',
        "RefCell"@.len() == 7,
        "RefCell"@[0] == 'R',
        "RefCell"@[1] == 'e',
        "RefCell"@[2] == 'f',
        "RefCell"@[3] == 'C',
        "RefCell"@[4] == 'e',
        "RefCell"@[5] == 'l',
        "RefCell"@[6] == 'l',
{
    reveal_strlit("HashMap");
    reveal_strlit("Map");
    reveal_strlit("BTreeMap");
    reveal_strlit("Vec");
    reveal_strlit("BTreeSet");
    reveal_strlit("HashSet");
    reveal_strlit("LinkedList");
    reveal_strlit("Option");
    reveal_strlit("Cow");
    reveal_strlit("Box");
    reveal_strlit("RefCell");
}

/// A segment names a generic wrapper only where it has arguments, and then
/// by its identifier: maps are `HashMap`, `Map` and `BTreeMap`; sets are
/// `BTreeSet` and `HashSet`; `Vec`, `LinkedList`, `Option`, `Cow`, `Box`
/// and `RefCell` are each their own wrapper.
pub proof fn law_wrappers_are_named(seg: SegmentV)
    ensures
        args_empty(seg.arguments) ==> generic_type_of(seg) is None,
        !args_empty(seg.arguments) ==> {
            &&& (generic_type_of(seg) == Some(GenericType::MapLike) <==> (seg.ident == "HashMap"@
                || seg.ident == "Map"@ || seg.ident == "BTreeMap"@))
            &&& (generic_type_of(seg) == Some(GenericType::SetLike) <==> (seg.ident == "BTreeSet"@
                || seg.ident == "HashSet"@))
            &&& (generic_type_of(seg) == Some(GenericType::Vec) <==> seg.ident == "Vec"@)
            &&& (generic_type_of(seg) == Some(GenericType::LinkedList) <==> seg.ident == "LinkedList"@)
            &&& (generic_type_of(seg) == Some(GenericType::Option) <==> seg.ident == "Option"@)
            &&& (generic_type_of(seg) == Some(GenericType::Cow) <==> seg.ident == "Cow"@)
            &&& (generic_type_of(seg) == Some(GenericType::Box) <==> seg.ident == "Box"@)
            &&& (generic_type_of(seg) == Some(GenericType::RefCell) <==> seg.ident == "RefCell"@)
        },
{
    lemma_wrapper_name_chars();
    if seg.ident == "HashMap"@ {
        assert(generic_type_of(seg) == generic_type_of(SegmentV { ident: "HashMap"@, ..seg }));
    }
    if seg.ident == "Map"@ {
        assert(generic_type_of(seg) == generic_type_of(SegmentV { ident: "Map"@, ..seg }));
    }
    if seg.ident == "BTreeMap"@ {
        assert(generic_type_of(seg) == generic_type_of(SegmentV { ident: "BTreeMap"@, ..seg }));
    }
    if seg.ident == "Vec"@ {
        assert(generic_type_of(seg) == generic_type_of(SegmentV { ident: "Vec"@, ..seg }));
    }
    if seg.ident == "BTreeSet"@ {
        assert(generic_type_of(seg) == generic_type_of(SegmentV { ident: "BTreeSet"@, ..seg }));
    }
    if seg.ident == "HashSet"@ {
        assert(generic_type_of(seg) == generic_type_of(SegmentV { ident: "HashSet"@, ..seg }));
    }
    if seg.ident == "LinkedList"@ {
        assert(generic_type_of(seg) == generic_type_of(SegmentV { ident: "LinkedList"@, ..seg }));
    }
    if seg.ident == "Option"@ {
        assert(generic_type_of(seg) == generic_type_of(SegmentV { ident: "Option"@, ..seg }));
    }
    if seg.ident == "Cow"@ {
        assert(generic_type_of(seg) == generic_type_of(SegmentV { ident: "Cow"@, ..seg }));
    }
    if seg.ident == "Box"@ {
        assert(generic_type_of(seg) == generic_type_of(SegmentV { ident: "Box"@, ..seg }));
    }
    if seg.ident == "RefCell"@ {
        assert(generic_type_of(seg) == generic_type_of(SegmentV { ident: "RefCell"@, ..seg }));
    }
}

/// The node for a path, by its last segment, without children.
pub open spec fn convert_path(path: Seq<SegmentV>, last: SegmentV) -> TypeTreeV {
    TypeTreeV {
        path: Some(path),
        value_type: if is_primitive_name(last.ident) {
            ValueType::Primitive
        } else if last.ident == "Value"@ {
            ValueType::Value
        } else {
            ValueType::Object
        },
        generic_type: generic_type_of(last),
        children: None,
    }
}

/// The path `Array` that stands for slices and arrays.
pub open spec fn array_path() -> Seq<SegmentV> {
    seq![SegmentV { ident: "Array"@, arguments: ArgsV::Empty }]
}

/// The node of the unit type `()`.
pub open spec fn unit_tree() -> TypeTreeV {
    TypeTreeV { path: None, value_type: ValueType::Tuple, generic_type: None, children: None }
}

/// The node of a tuple with the given element nodes.
pub open spec fn tuple_tree(children: Seq<TypeTreeV>) -> TypeTreeV {
    TypeTreeV {
        path: None,
        value_type: ValueType::Tuple,
        generic_type: None,
        children: Some(children),
    }
}

/// The node of a slice or array with the given element nodes.
pub open spec fn array_tree(children: Seq<TypeTreeV>) -> TypeTreeV {
    TypeTreeV {
        path: Some(array_path()),
        value_type: ValueType::Object,
        generic_type: Some(GenericType::Vec),
        children: Some(children),
    }
}

/// The message for a type that is none of those read.
pub open spec fn unexpected_type_message() -> Seq<char> {
    "unexpected type in component part get type path, expected one of: Path, Tuple, Reference, Group, Array, Slice, TraitObject"@
}

/// The message for a generic argument that is no type, lifetime or constant.
pub open spec fn unexpected_generic_message() -> Seq<char> {
    "expected generic argument type or generic argument lifetime"@
}

/// The message for arguments in parentheses.
pub open spec fn unexpected_path_args_message() -> Seq<char> {
    "unexpected path argument, expected angle bracketed path argument"@
}

/// Checks that a type holds only kinds of types that are read: the error of
/// the first one that is not.
pub open spec fn type_check(t: TypeV) -> Option<Seq<char>>
    decreases t,
{
    match t {
        TypeV::Path(_) => None,
        TypeV::Reference(b) => type_check(*b),
        TypeV::Tuple(es) => types_check(es),
        TypeV::Group(b) => type_check(*b),
        TypeV::Slice(b) => type_check(*b),
        TypeV::Array(b) => type_check(*b),
        TypeV::TraitObject(_) => None,
        TypeV::Other => Some(unexpected_type_message()),
    }
}

/// `type_check` of each type in order: the first error.
pub open spec fn types_check(es: Seq<TypeV>) -> Option<Seq<char>>
    decreases es,
{
    if es.len() == 0 {
        None
    } else {
        match types_check(es.drop_last()) {
            Some(e) => Some(e),
            None => type_check(es.last()),
        }
    }
}

/// Whether a generic argument is a lifetime or a constant.
pub open spec fn is_lifetime_or_const(g: GenericArgV) -> bool {
    match g {
        GenericArgV::Lifetime(_) => true,
        GenericArgV::Const => true,
        _ => false,
    }
}

/// Whether a generic argument is something other than a type, a lifetime or
/// a constant.
pub open spec fn is_unexpected_arg(g: GenericArgV) -> bool {
    match g {
        GenericArgV::Other => true,
        _ => false,
    }
}

/// The nodes that a type converts to (at most one).
pub open spec fn convert_type(t: TypeV) -> Outcome<Seq<TypeTreeV>>
    decreases t, 0nat,
{
    match t {
        TypeV::Path(p) => match convert_segments(p) {
            Outcome::Done(tree) => Outcome::Done(seq![tree]),
            Outcome::Fail(e) => Outcome::Fail(e),
            Outcome::Abort => Outcome::Abort,
        },
        TypeV::Reference(b) => convert_type(*b),
        TypeV::Group(b) => convert_type(*b),
        TypeV::Tuple(es) => if es.len() == 0 {
            Outcome::Done(seq![unit_tree()])
        } else {
            match convert_types(es) {
                Outcome::Done(cs) => Outcome::Done(seq![tuple_tree(cs)]),
                Outcome::Fail(e) => Outcome::Fail(e),
                Outcome::Abort => Outcome::Abort,
            }
        },
        TypeV::Slice(b) => match convert_type(*b) {
            Outcome::Done(cs) => Outcome::Done(seq![array_tree(cs)]),
            Outcome::Fail(e) => Outcome::Fail(e),
            Outcome::Abort => Outcome::Abort,
        },
        TypeV::Array(b) => match convert_type(*b) {
            Outcome::Done(cs) => Outcome::Done(seq![array_tree(cs)]),
            Outcome::Fail(e) => Outcome::Fail(e),
            Outcome::Abort => Outcome::Abort,
        },
        TypeV::TraitObject(o) => match o {
            Some(p) => match convert_segments(p) {
                Outcome::Done(tree) => Outcome::Done(seq![tree]),
                Outcome::Fail(e) => Outcome::Fail(e),
                Outcome::Abort => Outcome::Abort,
            },
            None => Outcome::Done(Seq::empty()),
        },
        TypeV::Other => Outcome::Fail(unexpected_type_message()),
    }
}

/// The nodes of each type in order, joined; the first failure stops.
pub open spec fn convert_types(es: Seq<TypeV>) -> Outcome<Seq<TypeTreeV>>
    decreases es, 0nat,
{
    if es.len() == 0 {
        Outcome::Done(Seq::empty())
    } else {
        match convert_types(es.drop_last()) {
            Outcome::Done(front) => match convert_type(es.last()) {
                Outcome::Done(back) => Outcome::Done(front + back),
                Outcome::Fail(e) => Outcome::Fail(e),
                Outcome::Abort => Outcome::Abort,
            },
            Outcome::Fail(e) => Outcome::Fail(e),
            Outcome::Abort => Outcome::Abort,
        }
    }
}

/// The node of a path: an empty path aborts; a last segment with arguments
/// gets the trees of its type arguments as children.
pub open spec fn convert_segments(p: Seq<SegmentV>) -> Outcome<TypeTreeV>
    decreases p, 0nat,
{
    if p.len() == 0 {
        Outcome::Abort
    } else {
        let last = p.last();
        let base = convert_path(p, last);
        if args_empty(last.arguments) {
            Outcome::Done(base)
        } else {
            match last.arguments {
                ArgsV::AngleBracketed(args) => if forall|i: int|
                    0 <= i < args.len() ==> is_lifetime_or_const(#[trigger] args[i]) {
                    Outcome::Done(base)
                } else if exists|i: int| 0 <= i < args.len() && is_unexpected_arg(#[trigger] args[i]) {
                    Outcome::Fail(unexpected_generic_message())
                } else {
                    match convert_generic_args(args) {
                        Outcome::Done(cs) => Outcome::Done(TypeTreeV { children: Some(cs), ..base }),
                        Outcome::Fail(e) => Outcome::Fail(e),
                        Outcome::Abort => Outcome::Abort,
                    }
                },
                _ => Outcome::Fail(unexpected_path_args_message()),
            }
        }
    }
}

/// The trees of the type arguments in order, lifetimes and constants left
/// out; the first failure stops.
pub open spec fn convert_generic_args(args: Seq<GenericArgV>) -> Outcome<Seq<TypeTreeV>>
    decreases args, 0nat,
{
    if args.len() == 0 {
        Outcome::Done(Seq::empty())
    } else {
        match convert_generic_args(args.drop_last()) {
            Outcome::Done(front) => match args.last() {
                GenericArgV::Type(t) => match spec_from_type(t) {
                    Outcome::Done(tree) => Outcome::Done(front.push(tree)),
                    Outcome::Fail(e) => Outcome::Fail(e),
                    Outcome::Abort => Outcome::Abort,
                },
                GenericArgV::Other => Outcome::Fail(unexpected_generic_message()),
                _ => Outcome::Done(front),
            },
            Outcome::Fail(e) => Outcome::Fail(e),
            Outcome::Abort => Outcome::Abort,
        }
    }
}

/// The type tree of a type: the first unread kind of type is an error; a
/// type that converts to no node aborts.
pub open spec fn spec_from_type(t: TypeV) -> Outcome<TypeTreeV>
    decreases t, 1nat,
{
    match type_check(t) {
        Some(e) => Outcome::Fail(e),
        None => match convert_type(t) {
            Outcome::Done(cs) => if cs.len() == 0 {
                Outcome::Abort
            } else {
                Outcome::Done(cs[0])
            },
            Outcome::Fail(e) => Outcome::Fail(e),
            Outcome::Abort => Outcome::Abort,
        },
    }
}

/// The views of a sequence of trees, tree by tree.
pub proof fn lemma_trees_view(s: Seq<TypeTree>)
    ensures
        trees_view(s).len() == s.len(),
        forall|i: int| 0 <= i < s.len() ==> #[trigger] trees_view(s)[i] == tree_view(s[i]),
    decreases s.len(),
{
    if s.len() > 0 {
        lemma_trees_view(s.drop_last());
    }
}

/// Whether the diagnostics hold exactly one error with the message and no
/// suggestion.
pub open spec fn is_error(d: Diagnostics, message: Seq<char>) -> bool {
    d@ == seq![(message, Seq::<(bool, Seq<char>)>::empty())]
}

/// The executable result matches the outcome (which is no abort).
pub open spec fn matches_trees(res: Result<Vec<TypeTree>, Diagnostics>, o: Outcome<Seq<TypeTreeV>>) -> bool {
    match res {
        Ok(v) => o == Outcome::Done(trees_view(v@)),
        Err(d) => o is Fail && is_error(d, o->Fail_0),
    }
}

/// The executable result matches the outcome (which is no abort).
pub open spec fn matches_tree(res: Result<TypeTree, Diagnostics>, o: Outcome<TypeTreeV>) -> bool {
    match res {
        Ok(t) => o == Outcome::Done(tree_view(t)),
        Err(d) => o is Fail && is_error(d, o->Fail_0),
    }
}

proof fn lemma_convert_types_prefix(es: Seq<TypeV>, k: int, n: int)
    requires
        0 <= k <= n <= es.len(),
        !(convert_types(es.take(k)) is Done),
    ensures
        convert_types(es.take(n)) == convert_types(es.take(k)),
    decreases n - k,
{
    if k < n {
        lemma_convert_types_prefix(es, k, n - 1);
        assert(es.take(n).drop_last() =~= es.take(n - 1));
    }
}

proof fn lemma_convert_args_prefix(args: Seq<GenericArgV>, k: int, n: int)
    requires
        0 <= k <= n <= args.len(),
        !(convert_generic_args(args.take(k)) is Done),
    ensures
        convert_generic_args(args.take(n)) == convert_generic_args(args.take(k)),
    decreases n - k,
{
    if k < n {
        lemma_convert_args_prefix(args, k, n - 1);
        assert(args.take(n).drop_last() =~= args.take(n - 1));
    }
}

/// Whether the name is a Rust primitive type.
pub fn is_primitive(name: &str) -> (res: bool)
    ensures
        res == is_primitive_name(name@),
{
    str_eq(name, "String") || str_eq(name, "str") || str_eq(name, "char") || str_eq(name, "bool")
        || str_eq(name, "usize") || str_eq(name, "u8") || str_eq(name, "u16") || str_eq(
        name,
        "u32",
    ) || str_eq(name, "u64") || str_eq(name, "u128") || str_eq(name, "isize") || str_eq(
        name,
        "i8",
    ) || str_eq(name, "i16") || str_eq(name, "i32") || str_eq(name, "i64") || str_eq(
        name,
        "i128",
    ) || str_eq(name, "f32") || str_eq(name, "f64")
}

/// Whether a segment's arguments are empty.
fn arguments_are_empty(a: &PathArguments) -> (res: bool)
    ensures
        res == args_empty(arguments_view(*a)),
{
    match a {
        PathArguments::Empty => true,
        PathArguments::AngleBracketed(v) => {
            proof {
                lemma_generic_args_view(v@);
            }
            v.len() == 0
        },
        PathArguments::Parenthesized => false,
    }
}

/// The generic wrapper that a segment names, when it has arguments.
pub fn get_generic_type(segment: &TypeSegment) -> (res: Option<GenericType>)
    ensures
        res == generic_type_of(segment_view(*segment)),
{
    if arguments_are_empty(&segment.arguments) {
        return None;
    }
    let name = segment.ident.as_str();
    if str_eq(name, "HashMap") || str_eq(name, "Map") || str_eq(name, "BTreeMap") {
        Some(GenericType::MapLike)
    } else if str_eq(name, "Vec") {
        Some(GenericType::Vec)
    } else if str_eq(name, "BTreeSet") || str_eq(name, "HashSet") {
        Some(GenericType::SetLike)
    } else if str_eq(name, "LinkedList") {
        Some(GenericType::LinkedList)
    } else if str_eq(name, "Option") {
        Some(GenericType::Option)
    } else if str_eq(name, "Cow") {
        Some(GenericType::Cow)
    } else if str_eq(name, "Box") {
        Some(GenericType::Box)
    } else if str_eq(name, "RefCell") {
        Some(GenericType::RefCell)
    } else {
        None
    }
}

/// The node for a path by its last segment, without children.
fn convert(path: &TypePath, last: &TypeSegment) -> (res: TypeTree)
    ensures
        tree_view(res) == convert_path(path_view(*path), segment_view(*last)),
{
    let generic_type = get_generic_type(last);
    let name = last.ident.as_str();
    let value_type = if is_primitive(name) {
        ValueType::Primitive
    } else if str_eq(name, "Value") {
        ValueType::Value
    } else {
        ValueType::Object
    };
    TypeTree { path: Some(clone_path(path)), value_type, generic_type, children: None }
}

fn error(message: &str) -> (res: Diagnostics)
    ensures
        is_error(res, message@),
{
    Diagnostics::new(String::from_str(message))
}

/// Checks that the type holds only kinds of types that are read.
pub fn check_type(ty: &RustType) -> (res: Option<Diagnostics>)
    ensures
        match res {
            Some(d) => type_check(type_view(*ty)) is Some && is_error(
                d,
                type_check(type_view(*ty))->Some_0,
            ),
            None => type_check(type_view(*ty)) is None,
        },
    decreases *ty,
{
    match ty {
        RustType::Path(_) => None,
        RustType::Reference(b) => check_type(b),
        RustType::Tuple(v) => {
            proof {
                lemma_types_view(v@);
            }
            let n = v.len();
            for i in 0..n
                invariant
                    n == v@.len(),
                    *ty == RustType::Tuple(*v),
                    types_view(v@).len() == n,
                    forall|j: int| 0 <= j < n ==> #[trigger] types_view(v@)[j] == type_view(v@[j]),
                    types_check(types_view(v@).take(i as int)) is None,
            {
                proof {
                    assert(decreases_to!(*ty => ty->Tuple_0));
                    assert(decreases_to!(*v => v@));
                    assert(decreases_to!(v@ => v@[i as int]));
                }
                let r = check_type(&v[i]);
                proof {
                    assert(types_view(v@).take(i + 1).drop_last() =~= types_view(v@).take(i as int));
                }
                if r.is_some() {
                    proof {
                        lemma_types_check_prefix(types_view(v@), i + 1, n as int);
                        assert(types_view(v@).take(n as int) =~= types_view(v@));
                    }
                    return r;
                }
            }
            proof {
                assert(types_view(v@).take(n as int) =~= types_view(v@));
            }
            None
        },
        RustType::Group(b) => check_type(b),
        RustType::Slice(b) => check_type(b),
        RustType::Array(b) => check_type(b),
        RustType::TraitObject(_) => None,
        RustType::Other => Some(error("unexpected type in component part get type path, expected one of: Path, Tuple, Reference, Group, Array, Slice, TraitObject")),
    }
}

proof fn lemma_types_check_prefix(es: Seq<TypeV>, k: int, n: int)
    requires
        0 <= k <= n <= es.len(),
        types_check(es.take(k)) is Some,
    ensures
        types_check(es.take(n)) == types_check(es.take(k)),
    decreases n - k,
{
    if k < n {
        lemma_types_check_prefix(es, k, n - 1);
        assert(es.take(n).drop_last() =~= es.take(n - 1));
    }
}

fn single(t: TypeTree) -> (res: Vec<TypeTree>)
    ensures
        trees_view(res@) == seq![tree_view(t)],
{
    let mut v: Vec<TypeTree> = Vec::new();
    v.push(t);
    proof {
        lemma_trees_view(v@);
        assert(trees_view(v@) =~= seq![tree_view(t)]);
    }
    v
}

fn wrap_tuple(children: Vec<TypeTree>) -> (res: TypeTree)
    ensures
        tree_view(res) == tuple_tree(trees_view(children@)),
{
    TypeTree { path: None, value_type: ValueType::Tuple, generic_type: None, children: Some(children) }
}

fn wrap_array(children: Vec<TypeTree>) -> (res: TypeTree)
    ensures
        tree_view(res) == array_tree(trees_view(children@)),
{
    let mut segments: Vec<TypeSegment> = Vec::new();
    segments.push(TypeSegment { ident: String::from_str("Array"), arguments: PathArguments::Empty });
    proof {
        lemma_segments_view(segments@);
        assert(segments_view(segments@) =~= array_path());
    }
    TypeTree {
        path: Some(TypePath { segments }),
        value_type: ValueType::Object,
        generic_type: Some(GenericType::Vec),
        children: Some(children),
    }
}

/// The nodes that a type converts to.
fn convert_type_exec(ty: &RustType) -> (res: Result<Vec<TypeTree>, Diagnostics>)
    requires
        !(convert_type(type_view(*ty)) is Abort),
    ensures
        matches_trees(res, convert_type(type_view(*ty))),
    decreases *ty, 0nat,
{
    match ty {
        RustType::Path(p) => match convert_segments_exec(p) {
            Ok(t) => Ok(single(t)),
            Err(d) => Err(d),
        },
        RustType::Reference(b) => convert_type_exec(b),
        RustType::Group(b) => convert_type_exec(b),
        RustType::Tuple(v) => {
            if v.len() == 0 {
                proof {
                    lemma_types_view(v@);
                }
                Ok(single(TypeTree { path: None, value_type: ValueType::Tuple, generic_type: None, children: None }))
            } else {
                proof {
                    lemma_types_view(v@);
                }
                match convert_types_exec(v) {
                    Ok(cs) => Ok(single(wrap_tuple(cs))),
                    Err(d) => Err(d),
                }
            }
        },
        RustType::Slice(b) => match convert_type_exec(b) {
            Ok(cs) => Ok(single(wrap_array(cs))),
            Err(d) => Err(d),
        },
        RustType::Array(b) => match convert_type_exec(b) {
            Ok(cs) => Ok(single(wrap_array(cs))),
            Err(d) => Err(d),
        },
        RustType::TraitObject(bs) => match first_trait_bound(bs) {
            Some(k) => match &bs[k] {
                Some(p) => {
                    proof {
                        assert(decreases_to!(*ty => bs@[k as int]));
                    }
                    match convert_segments_exec(p) {
                        Ok(t) => Ok(single(t)),
                        Err(d) => Err(d),
                    }
                },
                None => vstd::pervasive::unreached(),
            },
            None => {
                let v: Vec<TypeTree> = Vec::new();
                proof {
                    assert(trees_view(v@) =~= Seq::<TypeTreeV>::empty());
                }
                Ok(v)
            },
        },
        RustType::Other => Err(error("unexpected type in component part get type path, expected one of: Path, Tuple, Reference, Group, Array, Slice, TraitObject")),
    }
}

/// The nodes of each type in order, joined.
fn convert_types_exec(v: &Vec<RustType>) -> (res: Result<Vec<TypeTree>, Diagnostics>)
    requires
        !(convert_types(types_view(v@)) is Abort),
    ensures
        matches_trees(res, convert_types(types_view(v@))),
    decreases *v, 0nat,
{
    proof {
        lemma_types_view(v@);
    }
    let ghost tv = types_view(v@);
    let mut acc: Vec<TypeTree> = Vec::new();
    let n = v.len();
    proof {
        assert(tv.take(0) =~= Seq::<TypeV>::empty());
        assert(trees_view(acc@) =~= Seq::<TypeTreeV>::empty());
    }
    for i in 0..n
        invariant
            n == v@.len(),
            tv == types_view(v@),
            tv.len() == n,
            forall|j: int| 0 <= j < n ==> #[trigger] tv[j] == type_view(v@[j]),
            !(convert_types(tv) is Abort),
            convert_types(tv.take(i as int)) == Outcome::Done(trees_view(acc@)),
    {
        proof {
            assert(decreases_to!(*v => v@));
            assert(decreases_to!(v@ => v@[i as int]));
            assert(tv.take(i + 1).drop_last() =~= tv.take(i as int));
            assert(tv.take(i + 1).last() == type_view(v@[i as int]));
            if convert_type(type_view(v@[i as int])) is Abort {
                lemma_convert_types_prefix(tv, i + 1, n as int);
                assert(tv.take(n as int) =~= tv);
            }
        }
        match convert_type_exec(&v[i]) {
            Ok(mut back) => {
                let ghost front = acc@;
                let ghost back0 = back@;
                proof {
                    lemma_trees_view(front);
                    lemma_trees_view(back0);
                }
                acc.append(&mut back);
                proof {
                    lemma_trees_view(acc@);
                    assert(acc@ =~= front + back0);
                    assert(trees_view(acc@) =~= trees_view(front) + trees_view(back0));
                }
            },
            Err(d) => {
                proof {
                    lemma_convert_types_prefix(tv, i + 1, n as int);
                    assert(tv.take(n as int) =~= tv);
                }
                return Err(d);
            },
        }
    }
    proof {
        assert(tv.take(n as int) =~= tv);
    }
    Ok(acc)
}

fn all_lifetime_or_const(args: &Vec<TypeArgument>) -> (res: bool)
    ensures
        res == forall|i: int|
            0 <= i < args@.len() ==> is_lifetime_or_const(#[trigger] generic_args_view(args@)[i]),
{
    proof {
        lemma_generic_args_view(args@);
    }
    let n = args.len();
    for i in 0..n
        invariant
            n == args@.len(),
            generic_args_view(args@).len() == n,
            forall|j: int|
                0 <= j < n ==> #[trigger] generic_args_view(args@)[j] == generic_arg_view(args@[j]),
            forall|j: int| 0 <= j < i ==> is_lifetime_or_const(#[trigger] generic_args_view(args@)[j]),
    {
        match &args[i] {
            TypeArgument::Lifetime(_) => {},
            TypeArgument::Const => {},
            _ => {
                assert(!is_lifetime_or_const(generic_args_view(args@)[i as int]));
                return false;
            },
        }
    }
    true
}

fn any_unexpected(args: &Vec<TypeArgument>) -> (res: bool)
    ensures
        res == exists|i: int|
            0 <= i < args@.len() && is_unexpected_arg(#[trigger] generic_args_view(args@)[i]),
{
    proof {
        lemma_generic_args_view(args@);
    }
    let n = args.len();
    for i in 0..n
        invariant
            n == args@.len(),
            generic_args_view(args@).len() == n,
            forall|j: int|
                0 <= j < n ==> #[trigger] generic_args_view(args@)[j] == generic_arg_view(args@[j]),
            forall|j: int| 0 <= j < i ==> !is_unexpected_arg(#[trigger] generic_args_view(args@)[j]),
    {
        match &args[i] {
            TypeArgument::Other => {
                assert(is_unexpected_arg(generic_args_view(args@)[i as int]));
                return true;
            },
            _ => {},
        }
    }
    false
}

/// The node of a path, with the trees of its last segment's type arguments
/// as children.
fn convert_segments_exec(p: &TypePath) -> (res: Result<TypeTree, Diagnostics>)
    requires
        !(convert_segments(path_view(*p)) is Abort),
    ensures
        matches_tree(res, convert_segments(path_view(*p))),
    decreases *p, 0nat,
{
    proof {
        lemma_segments_view(p.segments@);
    }
    let n = p.segments.len();
    let last = &p.segments[n - 1];
    proof {
        assert(path_view(*p).len() == n);
        assert(path_view(*p).last() == segment_view(*last));
    }
    let mut base = convert(p, last);
    if arguments_are_empty(&last.arguments) {
        return Ok(base);
    }
    match &last.arguments {
        PathArguments::AngleBracketed(args) => {
            let ghost gv = generic_args_view(args@);
            proof {
                lemma_generic_args_view(args@);
                assert(segment_view(*last).arguments == ArgsV::AngleBracketed(gv));
                assert(!args_empty(ArgsV::AngleBracketed(gv)));
            }
            if all_lifetime_or_const(args) {
                Ok(base)
            } else if any_unexpected(args) {
                Err(error("expected generic argument type or generic argument lifetime"))
            } else {
                proof {
                    let pv = path_view(*p);
                    assert(pv.len() > 0);
                    assert(pv.last().arguments == ArgsV::AngleBracketed(gv));
                    assert(!(forall|i: int| 0 <= i < gv.len() ==> is_lifetime_or_const(#[trigger] gv[i])));
                    assert(!(exists|i: int| 0 <= i < gv.len() && is_unexpected_arg(#[trigger] gv[i])));
                    assert(convert_segments(pv) == match convert_generic_args(gv) {
                        Outcome::Done(cs) => Outcome::Done(TypeTreeV { children: Some(cs), ..convert_path(pv, pv.last()) }),
                        Outcome::Fail(e) => Outcome::Fail(e),
                        Outcome::Abort => Outcome::Abort,
                    });
                    assert(decreases_to!(*p => p.segments));
                    assert(decreases_to!(p.segments => p.segments@));
                    assert(decreases_to!(p.segments@ => p.segments@[n - 1]));
                    assert(decreases_to!(p.segments@[n - 1] => p.segments@[n - 1].arguments));
                    assert(decreases_to!(last.arguments => last.arguments->AngleBracketed_0));
                }
                match convert_generic_args_exec(args) {
                    Ok(cs) => {
                        base.children = Some(cs);
                        Ok(base)
                    },
                    Err(d) => Err(d),
                }
            }
        },
        _ => Err(error("unexpected path argument, expected angle bracketed path argument")),
    }
}

/// The trees of the type arguments in order, lifetimes and constants left
/// out.
fn convert_generic_args_exec(args: &Vec<TypeArgument>) -> (res: Result<Vec<TypeTree>, Diagnostics>)
    requires
        !(convert_generic_args(generic_args_view(args@)) is Abort),
    ensures
        matches_trees(res, convert_generic_args(generic_args_view(args@))),
    decreases *args, 0nat,
{
    proof {
        lemma_generic_args_view(args@);
    }
    let ghost gv = generic_args_view(args@);
    let mut acc: Vec<TypeTree> = Vec::new();
    let n = args.len();
    proof {
        assert(gv.take(0) =~= Seq::<GenericArgV>::empty());
        assert(trees_view(acc@) =~= Seq::<TypeTreeV>::empty());
    }
    for i in 0..n
        invariant
            n == args@.len(),
            gv == generic_args_view(args@),
            gv.len() == n,
            forall|j: int| 0 <= j < n ==> #[trigger] gv[j] == generic_arg_view(args@[j]),
            !(convert_generic_args(gv) is Abort),
            convert_generic_args(gv.take(i as int)) == Outcome::Done(trees_view(acc@)),
    {
        proof {
            assert(gv.take(i + 1).drop_last() =~= gv.take(i as int));
            assert(gv.take(i + 1).last() == generic_arg_view(args@[i as int]));
        }
        match &args[i] {
            TypeArgument::Type(t) => {
                proof {
                    assert(decreases_to!(*args => args@));
                    assert(decreases_to!(args@ => args@[i as int]));
                    assert(decreases_to!(args@[i as int] => args@[i as int]->Type_0));
                    if spec_from_type(type_view(*t)) is Abort {
                        lemma_convert_args_prefix(gv, i + 1, n as int);
                        assert(gv.take(n as int) =~= gv);
                    }
                }
                match from_type(t) {
                    Ok(tree) => {
                        let ghost front = acc@;
                        acc.push(tree);
                        proof {
                            assert(acc@.drop_last() =~= front);
                        }
                    },
                    Err(d) => {
                        proof {
                            lemma_convert_args_prefix(gv, i + 1, n as int);
                            assert(gv.take(n as int) =~= gv);
                        }
                        return Err(d);
                    },
                }
            },
            TypeArgument::Other => {
                proof {
                    lemma_convert_args_prefix(gv, i + 1, n as int);
                    assert(gv.take(n as int) =~= gv);
                }
                return Err(error("expected generic argument type or generic argument lifetime"));
            },
            _ => {},
        }
    }
    proof {
        assert(gv.take(n as int) =~= gv);
    }
    Ok(acc)
}

/// Reads a Rust type as a type tree.
pub fn from_type(ty: &RustType) -> (res: Result<TypeTree, Diagnostics>)
    requires
        !(spec_from_type(type_view(*ty)) is Abort),
    ensures
        matches_tree(res, spec_from_type(type_view(*ty))),
    decreases *ty, 1nat,
{
    if let Some(d) = check_type(ty) {
        return Err(d);
    }
    match convert_type_exec(ty) {
        Ok(mut cs) => {
            proof {
                lemma_trees_view(cs@);
            }
            let first = cs.remove(0);
            Ok(first)
        },
        Err(d) => Err(d),
    }
}

/// Whether every node of the tree that has a path has a segment in it.
pub open spec fn tree_paths_ok(t: TypeTreeV) -> bool
    decreases t, 1nat,
{
    &&& match t.path {
        Some(p) => p.len() > 0,
        None => true,
    }
    &&& match t.children {
        Some(c) => trees_paths_ok(c),
        None => true,
    }
}

/// `tree_paths_ok` of each tree.
pub open spec fn trees_paths_ok(cs: Seq<TypeTreeV>) -> bool
    decreases cs, 0nat,
{
    if cs.len() == 0 {
        true
    } else {
        trees_paths_ok(cs.drop_last()) && tree_paths_ok(cs.last())
    }
}

/// Whether the last segment of the node's path, or of some descendant's, is
/// the name.
pub open spec fn tree_is(t: TypeTreeV, s: Seq<char>) -> bool
    decreases t, 1nat,
{
    (match t.path {
        Some(p) => p.len() > 0 && p.last().ident == s,
        None => false,
    }) || match t.children {
        Some(c) => trees_any_is(c, s),
        None => false,
    }
}

/// Whether `tree_is` holds of some tree.
pub open spec fn trees_any_is(cs: Seq<TypeTreeV>, s: Seq<char>) -> bool
    decreases cs, 0nat,
{
    if cs.len() == 0 {
        false
    } else {
        trees_any_is(cs.drop_last(), s) || tree_is(cs.last(), s)
    }
}

/// Whether every node of the trees has a path with a segment in it.
pub open spec fn tree_named(t: TypeTreeV) -> bool
    decreases t, 1nat,
{
    &&& match t.path {
        Some(p) => p.len() > 0,
        None => false,
    }
    &&& match t.children {
        Some(c) => trees_named(c),
        None => true,
    }
}

/// `tree_named` of each tree.
pub open spec fn trees_named(cs: Seq<TypeTreeV>) -> bool
    decreases cs, 0nat,
{
    if cs.len() == 0 {
        true
    } else {
        trees_named(cs.drop_last()) && tree_named(cs.last())
    }
}

/// The name of a generic argument in a composed schema name: the last
/// segment, then `_` and the composed names of its own arguments.
pub open spec fn node_name(t: TypeTreeV) -> Seq<char>
    decreases t, 1nat,
{
    let own = match t.path {
        Some(p) => if p.len() > 0 {
            p.last().ident
        } else {
            Seq::empty()
        },
        None => Seq::empty(),
    };
    match t.children {
        Some(c) => own + seq!['_'] + composed_name(c),
        None => own,
    }
}

/// The names of the trees joined with `_`.
pub open spec fn composed_name(cs: Seq<TypeTreeV>) -> Seq<char>
    decreases cs, 0nat,
{
    if cs.len() == 0 {
        Seq::empty()
    } else if cs.len() == 1 {
        node_name(cs[0])
    } else {
        composed_name(cs.drop_last()) + seq!['_'] + node_name(cs.last())
    }
}

/// The views of a prefix of trees grow tree by tree.
pub proof fn lemma_trees_take_view(s: Seq<TypeTree>, i: int)
    requires
        0 <= i < s.len(),
    ensures
        trees_view(s.take(i + 1)) == trees_view(s.take(i)).push(tree_view(s[i])),
        trees_view(s.take(i + 1)).drop_last() == trees_view(s.take(i)),
        trees_view(s.take(i + 1)).last() == tree_view(s[i]),
{
    assert(s.take(i + 1).drop_last() =~= s.take(i));
}

/// The properties that hold of all the trees hold of each tree and of each
/// prefix.
pub proof fn lemma_trees_prop_take(cs: Seq<TypeTreeV>, i: int)
    requires
        0 <= i <= cs.len(),
        trees_paths_ok(cs) || trees_named(cs),
    ensures
        trees_paths_ok(cs) ==> trees_paths_ok(cs.take(i)) && (i < cs.len() ==> tree_paths_ok(cs[i])),
        trees_named(cs) ==> trees_named(cs.take(i)) && (i < cs.len() ==> tree_named(cs[i])),
    decreases cs.len(),
{
    if cs.len() > 0 {
        if i == cs.len() {
            assert(cs.take(i) =~= cs);
        } else {
            assert(cs.drop_last().take(i) =~= cs.take(i));
            if i < cs.len() - 1 {
                assert(cs.drop_last()[i] == cs[i]);
            }
            lemma_trees_prop_take(cs.drop_last(), i);
        }
    }
}

fn tree_is_exec(t: &TypeTree, s: &str) -> (res: bool)
    requires
        tree_paths_ok(tree_view(*t)),
    ensures
        res == tree_is(tree_view(*t), s@),
    decreases *t,
{
    let own = match &t.path {
        Some(p) => {
            proof {
                lemma_segments_view(p.segments@);
            }
            let n = p.segments.len();
            n > 0 && str_eq(p.segments[n - 1].ident.as_str(), s)
        },
        None => false,
    };
    if own {
        return true;
    }
    match &t.children {
        Some(c) => {
            assert(decreases_to!(*t => *c));
            trees_any_is_exec(c, s)
        },
        None => false,
    }
}

fn trees_any_is_exec(v: &Vec<TypeTree>, s: &str) -> (res: bool)
    requires
        trees_paths_ok(trees_view(v@)),
    ensures
        res == trees_any_is(trees_view(v@), s@),
    decreases *v,
{
    let n = v.len();
    let mut acc = false;
    proof {
        lemma_trees_view(v@);
        assert(v@.take(0) =~= Seq::<TypeTree>::empty());
    }
    for i in 0..n
        invariant
            n == v@.len(),
            trees_paths_ok(trees_view(v@)),
            trees_view(v@).len() == v@.len(),
            forall|j: int| 0 <= j < v@.len() ==> #[trigger] trees_view(v@)[j] == tree_view(v@[j]),
            acc == trees_any_is(trees_view(v@.take(i as int)), s@),
    {
        assert(decreases_to!(*v => v@[i as int]));
        proof {
            lemma_trees_prop_take(trees_view(v@), i as int);
            lemma_trees_take_view(v@, i as int);
        }
        let here = tree_is_exec(&v[i], s);
        acc = acc || here;
    }
    proof {
        assert(v@.take(n as int) =~= v@);
    }
    acc
}

fn node_name_exec(t: &TypeTree) -> (res: Vec<char>)
    requires
        tree_named(tree_view(*t)),
    ensures
        res@ == node_name(tree_view(*t)),
    decreases *t,
{
    let mut name: Vec<char> = match &t.path {
        Some(p) => {
            proof {
                lemma_segments_view(p.segments@);
            }
            let n = p.segments.len();
            crate::text::chars_of(p.segments[n - 1].ident.as_str())
        },
        None => Vec::new(),
    };
    match &t.children {
        Some(c) => {
            assert(decreases_to!(*t => *c));
            let rest = composed_name_exec(c);
            name.push('_');
            crate::text::extend_chars(&mut name, &rest);
            name
        },
        None => name,
    }
}

fn composed_name_exec(v: &Vec<TypeTree>) -> (res: Vec<char>)
    requires
        trees_named(trees_view(v@)),
    ensures
        res@ == composed_name(trees_view(v@)),
    decreases *v,
{
    let n = v.len();
    let mut acc: Vec<char> = Vec::new();
    proof {
        lemma_trees_view(v@);
        assert(v@.take(0) =~= Seq::<TypeTree>::empty());
    }
    for i in 0..n
        invariant
            n == v@.len(),
            trees_named(trees_view(v@)),
            trees_view(v@).len() == v@.len(),
            forall|j: int| 0 <= j < v@.len() ==> #[trigger] trees_view(v@)[j] == tree_view(v@[j]),
            acc@ == composed_name(trees_view(v@.take(i as int))),
    {
        assert(decreases_to!(*v => v@[i as int]));
        proof {
            lemma_trees_prop_take(trees_view(v@), i as int);
            lemma_trees_take_view(v@, i as int);
            if i == 0 {
                assert(v@.take(1) =~= seq![v@[0]]);
                assert(trees_view(v@.take(1)) =~= seq![tree_view(v@[0])]);
            }
        }
        let name = node_name_exec(&v[i]);
        if i > 0 {
            acc.push('_');
        }
        crate::text::extend_chars(&mut acc, &name);
    }
    proof {
        assert(v@.take(n as int) =~= v@);
    }
    acc
}

/// The generic parameters that a type argument stands for: the last
/// segment of a path type, as a type parameter; what the referenced type
/// stands for; nothing for any other type. `None` where a path has no
/// segment.
pub open spec fn type_generic_params(t: TypeV) -> Option<Seq<ParamV>>
    decreases t,
{
    match t {
        TypeV::Path(p) => if p.len() == 0 {
            None
        } else {
            Some(seq![ParamV::Type(p.last().ident)])
        },
        TypeV::Reference(b) => type_generic_params(*b),
        _ => Some(Seq::empty()),
    }
}

/// The generic parameters of generic arguments in order: those of each type
/// argument, and each lifetime; other arguments are passed over.
pub open spec fn args_generic_params(args: Seq<GenericArgV>) -> Option<Seq<ParamV>>
    decreases args.len(),
{
    if args.len() == 0 {
        Some(Seq::empty())
    } else {
        match args_generic_params(args.drop_last()) {
            None => None,
            Some(front) => match args.last() {
                GenericArgV::Type(t) => match type_generic_params(t) {
                    Some(back) => Some(front + back),
                    None => None,
                },
                GenericArgV::Lifetime(l) => Some(front.push(ParamV::Lifetime(l))),
                _ => Some(front),
            },
        }
    }
}

/// The message for a tree without a path.
pub open spec fn no_path_message() -> Seq<char> {
    "cannot get TypeTree::path, did you call this on `tuple` or `unit` type type tree?"@
}

/// The generics of the tree's path: those of the angle brackets of its last
/// segment, or none where it has no angle brackets. A tree without a path
/// is an error.
pub open spec fn spec_path_generics(t: TypeTreeV) -> Outcome<Option<Seq<ParamV>>> {
    match t.path {
        None => Outcome::Fail(no_path_message()),
        Some(p) => if p.len() == 0 {
            Outcome::Abort
        } else {
            match p.last().arguments {
                ArgsV::AngleBracketed(args) => match args_generic_params(args) {
                    Some(ps) => Outcome::Done(Some(ps)),
                    None => Outcome::Abort,
                },
                _ => Outcome::Done(None),
            }
        },
    }
}

/// The view of optional generic parameters.
pub open spec fn opt_params_view(g: Option<Vec<GenericParam>>) -> Option<Seq<ParamV>> {
    match g {
        Some(v) => Some(params_view(v@)),
        None => None,
    }
}

/// The generic parameters that a type argument stands for.
fn type_to_generic_params(ty: &RustType) -> (res: Vec<GenericParam>)
    requires
        type_generic_params(type_view(*ty)) is Some,
    ensures
        params_view(res@) == type_generic_params(type_view(*ty))->Some_0,
    decreases *ty,
{
    match ty {
        RustType::Path(p) => {
            proof {
                lemma_segments_view(p.segments@);
            }
            let n = p.segments.len();
            let mut res: Vec<GenericParam> = Vec::new();
            res.push(GenericParam::Type(p.segments[n - 1].ident.clone()));
            proof {
                assert(path_view(*p).last() == segment_view(p.segments@[n - 1]));
                assert(params_view(res@) =~= seq![ParamV::Type(path_view(*p).last().ident)]);
            }
            res
        },
        RustType::Reference(b) => type_to_generic_params(b),
        _ => {
            let res: Vec<GenericParam> = Vec::new();
            assert(params_view(res@) =~= Seq::<ParamV>::empty());
            res
        },
    }
}

proof fn lemma_args_generic_params_step(args: Seq<GenericArgV>, i: int)
    requires
        0 <= i < args.len(),
    ensures
        args_generic_params(args.take(i + 1)) == match args_generic_params(args.take(i)) {
            None => None,
            Some(front) => match args[i] {
                GenericArgV::Type(t) => match type_generic_params(t) {
                    Some(back) => Some(front + back),
                    None => None,
                },
                GenericArgV::Lifetime(l) => Some(front.push(ParamV::Lifetime(l))),
                _ => Some(front),
            },
        },
{
    assert(args.take(i + 1).drop_last() =~= args.take(i));
    assert(args.take(i + 1).last() == args[i]);
}

proof fn lemma_args_generic_params_prefix(args: Seq<GenericArgV>, k: int, n: int)
    requires
        0 <= k <= n <= args.len(),
        args_generic_params(args.take(k)) is None,
    ensures
        args_generic_params(args.take(n)) is None,
    decreases n - k,
{
    if k < n {
        lemma_args_generic_params_prefix(args, k, n - 1);
        lemma_args_generic_params_step(args, n - 1);
    }
}

/// The generic parameters of the generic arguments.
fn angle_bracket_args_to_params(args: &Vec<TypeArgument>) -> (res: Vec<GenericParam>)
    requires
        args_generic_params(generic_args_view(args@)) is Some,
    ensures
        params_view(res@) == args_generic_params(generic_args_view(args@))->Some_0,
{
    proof {
        lemma_generic_args_view(args@);
    }
    let ghost gv = generic_args_view(args@);
    let n = args.len();
    let mut acc: Vec<GenericParam> = Vec::new();
    proof {
        assert(gv.take(0) =~= Seq::<GenericArgV>::empty());
        assert(params_view(acc@) =~= Seq::<ParamV>::empty());
    }
    for i in 0..n
        invariant
            n == args@.len(),
            gv == generic_args_view(args@),
            gv.len() == n,
            forall|j: int| 0 <= j < n ==> #[trigger] gv[j] == generic_arg_view(args@[j]),
            args_generic_params(gv) is Some,
            args_generic_params(gv.take(i as int)) == Some(params_view(acc@)),
    {
        proof {
            lemma_args_generic_params_step(gv, i as int);
        }
        match &args[i] {
            TypeArgument::Type(t) => {
                proof {
                    if type_generic_params(type_view(*t)) is None {
                        lemma_args_generic_params_prefix(gv, i + 1, n as int);
                        assert(gv.take(n as int) =~= gv);
                    }
                }
                let part = type_to_generic_params(t);
                let ghost front = acc@;
                let mut k: usize = 0;
                let m = part.len();
                while k < m
                    invariant
                        0 <= k <= m,
                        m == part@.len(),
                        params_view(acc@) == params_view(front) + params_view(part@.take(k as int)),
                    decreases m - k,
                {
                    let param = match &part[k] {
                        GenericParam::Type(x) => GenericParam::Type(x.clone()),
                        GenericParam::Lifetime(x) => GenericParam::Lifetime(x.clone()),
                        GenericParam::Const(x) => GenericParam::Const(x.clone()),
                    };
                    acc.push(param);
                    proof {
                        assert(params_view(part@.take(k + 1)) =~= params_view(part@.take(k as int)).push(
                            param_view(part@[k as int]),
                        ));
                        assert(params_view(acc@) =~= (params_view(front) + params_view(
                            part@.take(k as int),
                        )).push(param_view(part@[k as int])));
                    }
                    k = k + 1;
                }
                proof {
                    assert(part@.take(m as int) =~= part@);
                }
            },
            TypeArgument::Lifetime(l) => {
                let ghost front = acc@;
                acc.push(GenericParam::Lifetime(l.clone()));
                proof {
                    assert(params_view(acc@) =~= params_view(front).push(ParamV::Lifetime(l@)));
                }
            },
            _ => {},
        }
    }
    proof {
        assert(gv.take(n as int) =~= gv);
    }
    acc
}

/// The alias that the configuration defines for the last segment of the
/// tree's path, if it has one.
pub open spec fn spec_alias_type(t: TypeTreeV, aliases: Map<Seq<char>, Seq<char>>) -> Option<Seq<char>> {
    match t.path {
        Some(p) => if p.len() > 0 && aliases.contains_key(p.last().ident) {
            Some(aliases[p.last().ident])
        } else {
            None
        },
        None => None,
    }
}

/// Whether two type trees are the same: the same paths, kinds of value,
/// generic wrappers and children.
pub fn tree_eq(a: &TypeTree, b: &TypeTree) -> (res: bool)
    ensures
        res == (tree_view(*a) == tree_view(*b)),
    decreases *a,
{
    let same_path = match (&a.path, &b.path) {
        (Some(p), Some(q)) => crate::rust_type::path_eq(p, q),
        (None, None) => true,
        _ => false,
    };
    if !same_path || a.value_type != b.value_type {
        return false;
    }
    let same_generic = match (a.generic_type, b.generic_type) {
        (Some(x), Some(y)) => x == y,
        (None, None) => true,
        _ => false,
    };
    if !same_generic {
        return false;
    }
    match (&a.children, &b.children) {
        (Some(x), Some(y)) => {
            assert(decreases_to!(*a => a.children));
            trees_eq(x, y)
        },
        (None, None) => true,
        _ => false,
    }
}

/// Whether two sequences of type trees are the same.
pub fn trees_eq(a: &Vec<TypeTree>, b: &Vec<TypeTree>) -> (res: bool)
    ensures
        res == (trees_view(a@) == trees_view(b@)),
    decreases *a,
{
    proof {
        lemma_trees_view(a@);
        lemma_trees_view(b@);
    }
    if a.len() != b.len() {
        return false;
    }
    let n = a.len();
    for i in 0..n
        invariant
            n == a@.len(),
            n == b@.len(),
            trees_view(a@).len() == n,
            trees_view(b@).len() == n,
            forall|j: int| 0 <= j < n ==> #[trigger] trees_view(a@)[j] == tree_view(a@[j]),
            forall|j: int| 0 <= j < n ==> #[trigger] trees_view(b@)[j] == tree_view(b@[j]),
            forall|j: int| 0 <= j < i ==> tree_view(#[trigger] a@[j]) == tree_view(b@[j]),
    {
        assert(decreases_to!(*a => a@[i as int]));
        if !tree_eq(&a[i], &b[i]) {
            assert(trees_view(a@)[i as int] != trees_view(b@)[i as int]);
            return false;
        }
    }
    assert(trees_view(a@) =~= trees_view(b@));
    true
}

/// The kind of schema that a type tree gets.
#[derive(PartialEq, Eq, Structural, Clone, Copy, Debug)]
pub enum SchemaShape {
    /// A map: an object with additional properties.
    MapObject,
    /// A `Vec`, `LinkedList` or set: an array.
    Array,
    /// A type that no generic wrapper holds.
    NonGeneric,
}

/// The node whose schema a tree gets, with the `nullable` feature it gets
/// and the kind of its schema: `Option`, `Cow`, `Box` and `RefCell` give
/// the schema of their first child, `Option` adding `nullable` where no
/// `nullable` is given. `None` where such a wrapper has no child.
pub open spec fn schema_target(t: TypeTreeV, nullable: Option<bool>) -> Option<(TypeTreeV, Option<bool>, SchemaShape)>
    decreases t,
{
    match t.generic_type {
        Some(GenericType::MapLike) => Some((t, nullable, SchemaShape::MapObject)),
        Some(GenericType::Vec) | Some(GenericType::LinkedList) | Some(GenericType::SetLike) => Some(
            (t, nullable, SchemaShape::Array),
        ),
        Some(GenericType::Option) => match t.children {
            Some(c) => if c.len() > 0 {
                schema_target(
                    c[0],
                    match nullable {
                        Some(n) => Some(n),
                        None => Some(true),
                    },
                )
            } else {
                None
            },
            None => None,
        },
        Some(_) => match t.children {
            Some(c) => if c.len() > 0 {
                schema_target(c[0], nullable)
            } else {
                None
            },
            None => None,
        },
        None => Some((t, nullable, SchemaShape::NonGeneric)),
    }
}

/// Finds the node whose schema the tree gets, given the `nullable` feature
/// (its value, where there is one): the first node below the `Option`,
/// `Cow`, `Box` and `RefCell` wrappers, with `nullable` set by an `Option`
/// where none was given, and the kind of its schema.
pub fn component_schema_target(tree: &TypeTree, nullable: Option<bool>) -> (res: (&TypeTree, Option<bool>, SchemaShape))
    requires
        schema_target(tree_view(*tree), nullable) is Some,
    ensures
        schema_target(tree_view(*tree), nullable) == Some((tree_view(*res.0), res.1, res.2)),
    decreases *tree,
{
    match tree.generic_type {
        Some(GenericType::MapLike) => (tree, nullable, SchemaShape::MapObject),
        Some(GenericType::Vec) | Some(GenericType::LinkedList) | Some(GenericType::SetLike) => (
            tree,
            nullable,
            SchemaShape::Array,
        ),
        Some(g) => {
            let children = match &tree.children {
                Some(c) => c,
                None => {
                    return vstd::pervasive::unreached();
                },
            };
            proof {
                lemma_trees_view(children@);
                assert(decreases_to!(*tree => tree.children));
                assert(decreases_to!(tree.children => tree.children->Some_0));
                assert(decreases_to!(*children => children@));
                assert(decreases_to!(children@ => children@[0]));
            }
            let n = if g == GenericType::Option {
                match nullable {
                    Some(v) => Some(v),
                    None => Some(true),
                }
            } else {
                nullable
            };
            component_schema_target(&children[0], n)
        },
        None => (tree, nullable, SchemaShape::NonGeneric),
    }
}

/// `Box`, `Cow` and `RefCell` give a tree the schema of their first child
/// with the same features; `Option` gives it the schema of its first child
/// made nullable, unless a `nullable` feature is given, which is kept.
pub proof fn law_wrappers_pass_schema_to_first_child(t: TypeTreeV, nullable: Option<bool>)
    requires
        t.generic_type == Some(GenericType::Box) || t.generic_type == Some(GenericType::Cow)
            || t.generic_type == Some(GenericType::RefCell) || t.generic_type == Some(
            GenericType::Option,
        ),
        t.children is Some,
        t.children->Some_0.len() > 0,
    ensures
        t.generic_type != Some(GenericType::Option) ==> schema_target(t, nullable)
            == schema_target(t.children->Some_0[0], nullable),
        t.generic_type == Some(GenericType::Option) ==> schema_target(t, nullable)
            == schema_target(
            t.children->Some_0[0],
            match nullable {
                Some(n) => Some(n),
                None => Some(true),
            },
        ),
{
}

/// The paths of the schemas that the trees refer to, depth first: a node
/// with children refers to what its children refer to; a node without
/// children refers to its own path where it is an object.
pub open spec fn child_refs(cs: Seq<TypeTreeV>) -> Seq<Seq<SegmentV>>
    decreases cs, 0nat,
{
    if cs.len() == 0 {
        Seq::empty()
    } else {
        child_refs(cs.drop_last()) + node_refs(cs.last())
    }
}

/// The paths of the schemas that one tree refers to.
pub open spec fn node_refs(t: TypeTreeV) -> Seq<Seq<SegmentV>>
    decreases t, 1nat,
{
    match t.children {
        Some(c) => child_refs(c),
        None => if t.value_type == ValueType::Object {
            match t.path {
                Some(p) => seq![p],
                None => Seq::empty(),
            }
        } else {
            Seq::empty()
        },
    }
}

/// Whether every object node without children that the trees hold has a
/// path.
pub open spec fn child_refs_ok(cs: Seq<TypeTreeV>) -> bool
    decreases cs, 0nat,
{
    if cs.len() == 0 {
        true
    } else {
        child_refs_ok(cs.drop_last()) && node_refs_ok(cs.last())
    }
}

/// Whether an object node without children in the tree has a path.
pub open spec fn node_refs_ok(t: TypeTreeV) -> bool
    decreases t, 1nat,
{
    match t.children {
        Some(c) => child_refs_ok(c),
        None => t.value_type == ValueType::Object ==> t.path is Some,
    }
}

fn node_refs_exec(t: &TypeTree) -> (res: Vec<TypePath>)
    requires
        node_refs_ok(tree_view(*t)),
    ensures
        res@.map_values(|p: TypePath| path_view(p)) == node_refs(tree_view(*t)),
    decreases *t,
{
    match &t.children {
        Some(c) => {
            assert(decreases_to!(*t => *c));
            child_refs_exec(c)
        },
        None => {
            let mut res: Vec<TypePath> = Vec::new();
            if t.value_type == ValueType::Object {
                match &t.path {
                    Some(p) => {
                        res.push(clone_path(p));
                    },
                    None => {},
                }
            }
            assert(res@.map_values(|p: TypePath| path_view(p)) =~= node_refs(tree_view(*t)));
            res
        },
    }
}

fn child_refs_exec(v: &Vec<TypeTree>) -> (res: Vec<TypePath>)
    requires
        child_refs_ok(trees_view(v@)),
    ensures
        res@.map_values(|p: TypePath| path_view(p)) == child_refs(trees_view(v@)),
    decreases *v,
{
    let n = v.len();
    let mut acc: Vec<TypePath> = Vec::new();
    proof {
        lemma_trees_view(v@);
        assert(v@.take(0) =~= Seq::<TypeTree>::empty());
        assert(acc@.map_values(|p: TypePath| path_view(p)) =~= Seq::<Seq<SegmentV>>::empty());
        assert(trees_view(v@).take(n as int) =~= trees_view(v@));
    }
    for i in 0..n
        invariant
            n == v@.len(),
            child_refs_ok(trees_view(v@)),
            trees_view(v@).len() == v@.len(),
            forall|j: int| 0 <= j < v@.len() ==> #[trigger] trees_view(v@)[j] == tree_view(v@[j]),
            acc@.map_values(|p: TypePath| path_view(p)) == child_refs(trees_view(v@.take(i as int))),
    {
        assert(decreases_to!(*v => v@[i as int]));
        proof {
            lemma_trees_take_view(v@, i as int);
            assert(trees_view(v@).take(n as int) =~= trees_view(v@));
            lemma_child_refs_ok_prefix(trees_view(v@), i + 1, n as int);
        }
        let part = node_refs_exec(&v[i]);
        let ghost front = acc@.map_values(|p: TypePath| path_view(p));
        let m = part.len();
        for k in 0..m
            invariant
                m == part@.len(),
                acc@.map_values(|p: TypePath| path_view(p)) == front + part@.take(k as int).map_values(
                    |p: TypePath| path_view(p),
                ),
        {
            acc.push(clone_path(&part[k]));
            proof {
                assert(part@.take(k + 1).map_values(|p: TypePath| path_view(p)) =~= part@.take(
                    k as int,
                ).map_values(|p: TypePath| path_view(p)).push(path_view(part@[k as int])));
                assert(acc@.map_values(|p: TypePath| path_view(p)) =~= (front + part@.take(
                    k as int,
                ).map_values(|p: TypePath| path_view(p))).push(path_view(part@[k as int])));
            }
        }
        proof {
            assert(part@.take(m as int) =~= part@);
        }
    }
    proof {
        assert(v@.take(n as int) =~= v@);
    }
    acc
}

proof fn lemma_child_refs_ok_prefix(cs: Seq<TypeTreeV>, k: int, n: int)
    requires
        0 <= k <= n <= cs.len(),
        child_refs_ok(cs.take(n)),
    ensures
        child_refs_ok(cs.take(k)),
        k > 0 ==> node_refs_ok(cs[k - 1]),
    decreases n - k,
{
    if k < n {
        assert(cs.take(n).drop_last() =~= cs.take(n - 1));
        lemma_child_refs_ok_prefix(cs, k, n - 1);
    } else if k > 0 {
        assert(cs.take(k).drop_last() =~= cs.take(k - 1));
        assert(cs.take(k).last() == cs[k - 1]);
    }
}

/// The paths of the schemas that the generic arguments of a type refer to,
/// depth first: an argument with arguments of its own refers to what they
/// refer to; one without refers to its own path where it is an object.
pub fn compose_child_references(children: &Vec<TypeTree>) -> (res: Vec<TypePath>)
    requires
        child_refs_ok(trees_view(children@)),
    ensures
        res@.map_values(|p: TypePath| path_view(p)) == child_refs(trees_view(children@)),
{
    child_refs_exec(children)
}

impl TypeTree {
    /// The type that the configuration gives as alias for the tree's type
    /// (by the last segment of its path), as written in the configuration.
    pub fn get_alias_type(&self, config: &Config) -> (res: Option<String>)
        ensures
            match res {
                Some(v) => spec_alias_type(tree_view(*self), config.aliases_view()) == Some(v@),
                None => spec_alias_type(tree_view(*self), config.aliases_view()) is None,
            },
    {
        match &self.path {
            Some(path) => {
                proof {
                    lemma_segments_view(path.segments@);
                }
                let n = path.segments.len();
                if n == 0 {
                    return None;
                }
                proof {
                    assert(path_view(*path).last() == segment_view(path.segments@[n - 1]));
                }
                config.get_alias(path.segments[n - 1].ident.as_str())
            },
            None => None,
        }
    }

    /// The generics of the tree's path: the parameters that the angle
    /// brackets of its last segment stand for, or `None` where it has no
    /// angle brackets. A tree without a path (a tuple or the unit type) is
    /// an error.
    pub fn get_path_generics(&self) -> (res: Result<Option<Vec<GenericParam>>, String>)
        requires
            !(spec_path_generics(tree_view(*self)) is Abort),
        ensures
            match res {
                Ok(g) => spec_path_generics(tree_view(*self)) == Outcome::Done(opt_params_view(g)),
                Err(e) => spec_path_generics(tree_view(*self)) == Outcome::<Option<Seq<ParamV>>>::Fail(e@),
            },
    {
        let path = match &self.path {
            Some(p) => p,
            None => {
                return Err(String::from_str(
                    "cannot get TypeTree::path, did you call this on `tuple` or `unit` type type tree?",
                ));
            },
        };
        proof {
            lemma_segments_view(path.segments@);
        }
        let n = path.segments.len();
        let segment = &path.segments[n - 1];
        proof {
            assert(tree_view(*self).path == Some(path_view(*path)));
            assert(path_view(*path).last() == segment_view(*segment));
        }
        match &segment.arguments {
            PathArguments::AngleBracketed(args) => Ok(Some(angle_bracket_args_to_params(args))),
            _ => Ok(None),
        }
    }

    /// Whether the last segment of the tree's path, or of some descendant's
    /// path, is the name.
    pub fn is(&self, s: &str) -> (res: bool)
        requires
            tree_paths_ok(tree_view(*self)),
        ensures
            res == tree_is(tree_view(*self), s@),
    {
        tree_is_exec(self, s)
    }

    /// Whether the tree is, or holds, the virtual type `Object`.
    pub fn is_object(&self) -> (res: bool)
        requires
            tree_paths_ok(tree_view(*self)),
        ensures
            res == tree_is(tree_view(*self), "Object"@),
    {
        self.is("Object")
    }

    /// Whether the tree is, or holds, the virtual type `Value`.
    pub fn is_value(&self) -> (res: bool)
        requires
            tree_paths_ok(tree_view(*self)),
        ensures
            res == tree_is(tree_view(*self), "Value"@),
    {
        self.is("Value")
    }

    /// Whether the tree's generic wrapper is `Option`.
    pub fn is_option(&self) -> (res: bool)
        ensures
            res == (self.generic_type == Some(GenericType::Option)),
    {
        match self.generic_type {
            Some(GenericType::Option) => true,
            _ => false,
        }
    }

    /// Whether the tree's generic wrapper is a map.
    pub fn is_map(&self) -> (res: bool)
        ensures
            res == (self.generic_type == Some(GenericType::MapLike)),
    {
        match self.generic_type {
            Some(GenericType::MapLike) => true,
            _ => false,
        }
    }

    /// The name of a schema composed of generic arguments: the names of the
    /// trees joined with `_`, each the last segment of its path followed by
    /// `_` and the composed name of its own arguments.
    pub fn compose_name(children: &Vec<TypeTree>) -> (res: String)
        requires
            trees_named(trees_view(children@)),
        ensures
            res@ == composed_name(trees_view(children@)),
    {
        let v = composed_name_exec(children);
        crate::text::string_from_chars(&v)
    }
}

/// A sequence of one item or none.
pub enum TypeTreeValueIter<T> {
    Once(Option<T>),
    Empty,
}

impl<T> TypeTreeValueIter<T> {
    /// The sequence of the one item.
    pub fn once(item: T) -> (res: Self)
        ensures
            res == TypeTreeValueIter::Once(Some(item)),
    {
        TypeTreeValueIter::Once(Some(item))
    }

    /// The empty sequence.
    pub fn empty() -> (res: Self)
        ensures
            res == TypeTreeValueIter::<T>::Empty,
    {
        TypeTreeValueIter::Empty
    }

    /// The next item: the one item the first time, then none.
    pub fn next(&mut self) -> (res: Option<T>)
        ensures
            match *old(self) {
                TypeTreeValueIter::Once(o) => res == o && *final(self) == TypeTreeValueIter::<T>::Once(
                    None,
                ),
                TypeTreeValueIter::Empty => res is None && *final(self) == TypeTreeValueIter::<
                    T,
                >::Empty,
            },
    {
        match self {
            TypeTreeValueIter::Once(o) => o.take(),
            TypeTreeValueIter::Empty => None,
        }
    }

    /// Bounds on how many items are left: exactly one before the one item
    /// of a single sequence is taken, none after it; none and no upper
    /// bound for the empty sequence.
    pub fn size_hint(&self) -> (res: (usize, Option<usize>))
        ensures
            res == match self {
                TypeTreeValueIter::Once(Some(_)) => (1usize, Some(1usize)),
                TypeTreeValueIter::Once(None) => (0usize, Some(0usize)),
                TypeTreeValueIter::Empty => (0usize, None::<usize>),
            },
    {
        match self {
            TypeTreeValueIter::Once(Some(_)) => (1, Some(1)),
            TypeTreeValueIter::Once(None) => (0, Some(0)),
            TypeTreeValueIter::Empty => (0, None),
        }
    }
}

proof fn lemma_trees_paths_ok_concat(a: Seq<TypeTreeV>, b: Seq<TypeTreeV>)
    requires
        trees_paths_ok(a),
        trees_paths_ok(b),
    ensures
        trees_paths_ok(a + b),
    decreases b.len(),
{
    if b.len() == 0 {
        assert(a + b =~= a);
    } else {
        lemma_trees_paths_ok_concat(a, b.drop_last());
        assert((a + b).drop_last() =~= a + b.drop_last());
        assert((a + b).last() == b.last());
    }
}

proof fn lemma_single_paths_ok(t: TypeTreeV)
    requires
        tree_paths_ok(t),
    ensures
        trees_paths_ok(seq![t]),
{
    assert(seq![t].drop_last() =~= Seq::<TypeTreeV>::empty());
    assert(trees_paths_ok(Seq::<TypeTreeV>::empty()));
    assert(seq![t].last() == t);
}

proof fn lemma_convert_type_paths_ok(t: TypeV)
    ensures
        convert_type(t) matches Outcome::Done(cs) ==> trees_paths_ok(cs),
    decreases t, 0nat,
{
    match t {
        TypeV::Path(p) => {
            lemma_convert_segments_paths_ok(p);
            if let Outcome::Done(tree) = convert_segments(p) {
                lemma_single_paths_ok(tree);
            }
        },
        TypeV::Reference(b) => lemma_convert_type_paths_ok(*b),
        TypeV::Group(b) => lemma_convert_type_paths_ok(*b),
        TypeV::Tuple(es) => {
            if es.len() == 0 {
                lemma_single_paths_ok(unit_tree());
            } else {
                lemma_convert_types_paths_ok(es);
                if let Outcome::Done(cs) = convert_types(es) {
                    lemma_single_paths_ok(tuple_tree(cs));
                }
            }
        },
        TypeV::Slice(b) => {
            lemma_convert_type_paths_ok(*b);
            if let Outcome::Done(cs) = convert_type(*b) {
                lemma_single_paths_ok(array_tree(cs));
            }
        },
        TypeV::Array(b) => {
            lemma_convert_type_paths_ok(*b);
            if let Outcome::Done(cs) = convert_type(*b) {
                lemma_single_paths_ok(array_tree(cs));
            }
        },
        TypeV::TraitObject(o) => {
            if let Some(p) = o {
                lemma_convert_segments_paths_ok(p);
                if let Outcome::Done(tree) = convert_segments(p) {
                    lemma_single_paths_ok(tree);
                }
            }
        },
        TypeV::Other => {},
    }
}

proof fn lemma_convert_types_paths_ok(es: Seq<TypeV>)
    ensures
        convert_types(es) matches Outcome::Done(cs) ==> trees_paths_ok(cs),
    decreases es, 0nat,
{
    if es.len() > 0 {
        lemma_convert_types_paths_ok(es.drop_last());
        lemma_convert_type_paths_ok(es.last());
        if let Outcome::Done(front) = convert_types(es.drop_last()) {
            if let Outcome::Done(back) = convert_type(es.last()) {
                lemma_trees_paths_ok_concat(front, back);
            }
        }
    }
}

proof fn lemma_convert_segments_paths_ok(p: Seq<SegmentV>)
    ensures
        convert_segments(p) matches Outcome::Done(tree) ==> tree_paths_ok(tree),
    decreases p, 0nat,
{
    if p.len() > 0 {
        let last = p.last();
        if !args_empty(last.arguments) {
            if let ArgsV::AngleBracketed(args) = last.arguments {
                assert(decreases_to!(p => args));
                lemma_convert_generic_args_paths_ok(args);
            }
        }
    }
}

proof fn lemma_convert_generic_args_paths_ok(args: Seq<GenericArgV>)
    ensures
        convert_generic_args(args) matches Outcome::Done(cs) ==> trees_paths_ok(cs),
    decreases args, 0nat,
{
    if args.len() > 0 {
        lemma_convert_generic_args_paths_ok(args.drop_last());
        if let Outcome::Done(front) = convert_generic_args(args.drop_last()) {
            if let GenericArgV::Type(t) = args.last() {
                lemma_from_type_paths_ok(t);
                if let Outcome::Done(tree) = spec_from_type(t) {
                    assert(front.push(tree).drop_last() =~= front);
                }
            }
        }
    }
}

/// Every type tree that a type reads as has a segment in each of its paths,
/// so that the questions asked of a tree by the names in its paths can be
/// asked of it.
pub proof fn lemma_from_type_paths_ok(t: TypeV)
    ensures
        spec_from_type(t) matches Outcome::Done(tree) ==> tree_paths_ok(tree),
    decreases t, 1nat,
{
    lemma_convert_type_paths_ok(t);
    if let Outcome::Done(cs) = convert_type(t) {
        if cs.len() > 0 {
            lemma_trees_first_paths_ok(cs);
        }
    }
}

proof fn lemma_trees_first_paths_ok(cs: Seq<TypeTreeV>)
    requires
        cs.len() > 0,
        trees_paths_ok(cs),
    ensures
        tree_paths_ok(cs[0]),
    decreases cs.len(),
{
    if cs.len() > 1 {
        lemma_trees_first_paths_ok(cs.drop_last());
    }
}

} // verus!
