//! The type tree of handler arguments in the core crate: every path type in
//! a type becomes a node; several make a tuple node.
use vstd::prelude::*;

use crate::component_type::{is_schema_primitive, SchemaType, TypeFeatures};
use crate::rust_type::{
    clone_path, generic_arg_view, generic_args_view, lemma_generic_args_view, lemma_segments_view,
    lemma_types_view, path_view, segment_view, type_view, types_view, ArgsV, GenericArgV,
    TypeArgument, PathArguments, TypeSegment, RustType, SegmentV, TypePath, TypeV,
};
use crate::text::str_eq;
use vstd::string::StringExecFns;

verus! {

/// The kind of value that a node stands for.
#[derive(PartialEq, Eq, Structural, Clone, Copy, Debug)]
pub enum ValueType {
    Primitive,
    Object,
    Tuple,
}

/// The generic wrapper types that are known.
#[derive(PartialEq, Eq, Structural, Clone, Copy, Debug)]
pub enum GenericType {
    Vec,
    MapLike,
    Option,
    Cow,
    Box,
    RefCell,
}

/// A node of the type tree.
pub struct TypeTree {
    pub path: Option<TypePath>,
    pub value_type: ValueType,
    pub generic_type: Option<GenericType>,
    pub children: Option<Vec<TypeTree>>,
}

/// The view of a [`TypeTree`].
pub struct TypeTreeV {
    pub path: Option<Seq<SegmentV>>,
    pub value_type: ValueType,
    pub generic_type: Option<GenericType>,
    pub children: Option<Seq<TypeTreeV>>,
}

/// The view of a type tree.
pub open spec fn tree_view(t: TypeTree) -> TypeTreeV
    decreases t,
{
    TypeTreeV {
        path: match t.path {
            Some(p) => Some(path_view(p)),
            None => None,
        },
        value_type: t.value_type,
        generic_type: t.generic_type,
        children: match t.children {
            Some(c) => Some(trees_view(c@)),
            None => None,
        },
    }
}

/// The views of a sequence of trees.
pub open spec fn trees_view(s: Seq<TypeTree>) -> Seq<TypeTreeV>
    decreases s,
{
    if s.len() == 0 {
        Seq::empty()
    } else {
        trees_view(s.drop_last()).push(tree_view(s.last()))
    }
}

/// The views of a sequence of trees, tree by tree.
pub proof fn lemma_trees_view(s: Seq<TypeTree>)
    ensures
        trees_view(s).len() == s.len(),
        forall|i: int| 0 <= i < s.len() ==> #[trigger] trees_view(s)[i] == tree_view(s[i]),
    decreases s.len(),
{
    if s.len() > 0 {
        lemma_trees_view(s.drop_last());
    }
}

/// The generic wrapper that a segment names.
pub open spec fn generic_type_of(name: Seq<char>) -> Option<GenericType> {
    if name == "HashMap"@ || name == "Map"@ || name == "BTreeMap"@ {
        Some(GenericType::MapLike)
    } else if name == "Vec"@ {
        Some(GenericType::Vec)
    } else if name == "Option"@ {
        Some(GenericType::Option)
    } else if name == "Cow"@ {
        Some(GenericType::Cow)
    } else if name == "Box"@ {
        Some(GenericType::Box)
    } else if name == "RefCell"@ {
        Some(GenericType::RefCell)
    } else {
        None
    }
}

/// The node of a path without its children: the wrapper its last segment
/// names, and a primitive value where that segment names a primitive.
pub open spec fn path_node(p: Seq<SegmentV>, f: TypeFeatures) -> TypeTreeV {
    TypeTreeV {
        path: Some(p),
        value_type: if is_schema_primitive(p.last().ident, f) {
            ValueType::Primitive
        } else {
            ValueType::Object
        },
        generic_type: generic_type_of(p.last().ident),
        children: None,
    }
}

/// The nodes of every path type in the type, in order: references, groups
/// and arrays are read through, tuples give the nodes of their elements.
/// `None` where a type of another kind, a path without segments or an
/// unexpected generic argument is met.
pub open spec fn convert_all(t: TypeV, f: TypeFeatures) -> Option<Seq<TypeTreeV>>
    decreases t, 2nat,
{
    match t {
        TypeV::Path(p) => match convert_path(p, f) {
            Some(n) => Some(seq![n]),
            None => None,
        },
        TypeV::Reference(b) => convert_all(*b, f),
        TypeV::Group(b) => convert_all(*b, f),
        TypeV::Array(b) => convert_all(*b, f),
        TypeV::Tuple(es) => convert_elems(es, f),
        _ => None,
    }
}

/// The nodes of the element types in order, joined.
pub open spec fn convert_elems(es: Seq<TypeV>, f: TypeFeatures) -> Option<Seq<TypeTreeV>>
    decreases es, 1nat,
{
    if es.len() == 0 {
        Some(Seq::empty())
    } else {
        match convert_elems(es.drop_last(), f) {
            Some(front) => match convert_all(es.last(), f) {
                Some(back) => Some(front + back),
                None => None,
            },
            None => None,
        }
    }
}

/// The node of a path: where its last segment has angle brackets with
/// something other than lifetimes, the trees of those type arguments are
/// its children.
pub open spec fn convert_path(p: Seq<SegmentV>, f: TypeFeatures) -> Option<TypeTreeV>
    decreases p, 1nat,
{
    if p.len() == 0 {
        None
    } else {
        let base = path_node(p, f);
        match p.last().arguments {
            ArgsV::Empty => Some(base),
            ArgsV::Parenthesized => None,
            ArgsV::AngleBracketed(args) => if args.len() == 0 {
                Some(base)
            } else if forall|i: int| 0 <= i < args.len() ==> #[trigger] args[i] is Lifetime {
                Some(base)
            } else {
                match convert_args(args, f) {
                    Some(cs) => Some(TypeTreeV { children: Some(cs), ..base }),
                    None => None,
                }
            },
        }
    }
}

/// The trees of the type arguments in order, lifetimes left out; any other
/// argument is unexpected.
pub open spec fn convert_args(args: Seq<GenericArgV>, f: TypeFeatures) -> Option<Seq<TypeTreeV>>
    decreases args, 0nat,
{
    if args.len() == 0 {
        Some(Seq::empty())
    } else {
        match convert_args(args.drop_last(), f) {
            Some(front) => match args.last() {
                GenericArgV::Type(t) => match spec_from_type(t, f) {
                    Some(tree) => Some(front.push(tree)),
                    None => None,
                },
                GenericArgV::Lifetime(_) => Some(front),
                _ => None,
            },
            None => None,
        }
    }
}

/// The type tree of a type: the node of its one path type, or a tuple node
/// of the nodes of its several path types. `None` where it has none.
pub open spec fn spec_from_type(t: TypeV, f: TypeFeatures) -> Option<TypeTreeV>
    decreases t, 3nat,
{
    match convert_all(t, f) {
        Some(ns) => if ns.len() > 1 {
            Some(
                TypeTreeV {
                    path: None,
                    value_type: ValueType::Tuple,
                    generic_type: None,
                    children: Some(ns),
                },
            )
        } else if ns.len() == 1 {
            Some(ns[0])
        } else {
            None
        },
        None => None,
    }
}

/// Whether the tree's path, or that of any node below, ends in a segment
/// named `s`.
pub open spec fn tree_is(t: TypeTreeV, s: Seq<char>) -> bool
    decreases t, 1nat,
{
    (match t.path {
        Some(p) => p.len() > 0 && p.last().ident == s,
        None => false,
    }) || match t.children {
        Some(cs) => trees_any_is(cs, s),
        None => false,
    }
}

/// `tree_is` of some tree.
pub open spec fn trees_any_is(cs: Seq<TypeTreeV>, s: Seq<char>) -> bool
    decreases cs, 0nat,
{
    if cs.len() == 0 {
        false
    } else {
        trees_any_is(cs.drop_last(), s) || tree_is(cs.last(), s)
    }
}

/// Whether every path in the tree has a segment.
pub open spec fn paths_ok(t: TypeTreeV) -> bool
    decreases t, 1nat,
{
    (match t.path {
        Some(p) => p.len() > 0,
        None => true,
    }) && match t.children {
        Some(cs) => all_paths_ok(cs),
        None => true,
    }
}

/// `paths_ok` of every tree.
pub open spec fn all_paths_ok(cs: Seq<TypeTreeV>) -> bool
    decreases cs, 0nat,
{
    if cs.len() == 0 {
        true
    } else {
        all_paths_ok(cs.drop_last()) && paths_ok(cs.last())
    }
}

proof fn lemma_elems_prefix(es: Seq<TypeV>, f: TypeFeatures, k: int, n: int)
    requires
        0 <= k <= n <= es.len(),
        convert_elems(es.take(k), f) is None,
    ensures
        convert_elems(es.take(n), f) is None,
    decreases n - k,
{
    if k < n {
        lemma_elems_prefix(es, f, k, n - 1);
        assert(es.take(n).drop_last() =~= es.take(n - 1));
    }
}

proof fn lemma_args_prefix(args: Seq<GenericArgV>, f: TypeFeatures, k: int, n: int)
    requires
        0 <= k <= n <= args.len(),
        convert_args(args.take(k), f) is None,
    ensures
        convert_args(args.take(n), f) is None,
    decreases n - k,
{
    if k < n {
        lemma_args_prefix(args, f, k, n - 1);
        assert(args.take(n).drop_last() =~= args.take(n - 1));
    }
}

/// The wrapper that the name gives.
fn generic_type_by_name(name: &str) -> (res: Option<GenericType>)
    ensures
        res == generic_type_of(name@),
{
    if str_eq(name, "HashMap") || str_eq(name, "Map") || str_eq(name, "BTreeMap") {
        Some(GenericType::MapLike)
    } else if str_eq(name, "Vec") {
        Some(GenericType::Vec)
    } else if str_eq(name, "Option") {
        Some(GenericType::Option)
    } else if str_eq(name, "Cow") {
        Some(GenericType::Cow)
    } else if str_eq(name, "Box") {
        Some(GenericType::Box)
    } else if str_eq(name, "RefCell") {
        Some(GenericType::RefCell)
    } else {
        None
    }
}

/// Appends the trees to `acc`.
fn append_trees(acc: &mut Vec<TypeTree>, mut more: Vec<TypeTree>)
    ensures
        trees_view(final(acc)@) == trees_view(old(acc)@) + trees_view(more@),
{
    proof {
        lemma_trees_view(old(acc)@);
        lemma_trees_view(more@);
    }
    let ghost front = trees_view(acc@);
    let ghost back = trees_view(more@);
    acc.append(&mut more);
    proof {
        lemma_trees_view(acc@);
        assert(trees_view(acc@) =~= front + back);
    }
}

impl TypeTree {
    /// Reads a type as a type tree, with the given integrations: the node
    /// of its one path type, or a tuple node of the nodes of its several
    /// path types.
    pub fn from_type(ty: &RustType, features: TypeFeatures) -> (res: TypeTree)
        requires
            spec_from_type(type_view(*ty), features) is Some,
        ensures
            tree_view(res) == spec_from_type(type_view(*ty), features)->Some_0,
        decreases *ty, 3nat,
    {
        let mut ns = Self::convert_all(ty, features);
        proof {
            lemma_trees_view(ns@);
        }
        if ns.len() > 1 {
            TypeTree { path: None, value_type: ValueType::Tuple, generic_type: None, children: Some(ns) }
        } else {
            ns.remove(0)
        }
    }

    fn convert_all(ty: &RustType, features: TypeFeatures) -> (res: Vec<TypeTree>)
        requires
            convert_all(type_view(*ty), features) is Some,
        ensures
            trees_view(res@) == convert_all(type_view(*ty), features)->Some_0,
        decreases *ty, 2nat,
    {
        match ty {
            RustType::Path(p) => {
                let n = Self::convert_path(p, features);
                let mut v: Vec<TypeTree> = Vec::new();
                v.push(n);
                proof {
                    lemma_trees_view(v@);
                    assert(trees_view(v@) =~= seq![tree_view(n)]);
                }
                v
            },
            RustType::Reference(b) => Self::convert_all(b, features),
            RustType::Group(b) => Self::convert_all(b, features),
            RustType::Array(b) => Self::convert_all(b, features),
            RustType::Tuple(es) => Self::convert_elems(es, features),
            _ => vstd::pervasive::unreached(),
        }
    }

    fn convert_elems(es: &Vec<RustType>, features: TypeFeatures) -> (res: Vec<TypeTree>)
        requires
            convert_elems(types_view(es@), features) is Some,
        ensures
            trees_view(res@) == convert_elems(types_view(es@), features)->Some_0,
        decreases *es, 1nat,
    {
        proof {
            lemma_types_view(es@);
        }
        let ghost tv = types_view(es@);
        let n = es.len();
        let mut acc: Vec<TypeTree> = Vec::new();
        proof {
            assert(tv.take(0) =~= Seq::<TypeV>::empty());
            assert(trees_view(acc@) =~= Seq::<TypeTreeV>::empty());
        }
        for i in 0..n
            invariant
                n == es@.len(),
                tv == types_view(es@),
                tv.len() == n,
                forall|j: int| 0 <= j < n ==> #[trigger] tv[j] == type_view(es@[j]),
                convert_elems(tv, features) is Some,
                convert_elems(tv.take(i as int), features) == Some(trees_view(acc@)),
        {
            proof {
                assert(tv.take(i + 1).drop_last() =~= tv.take(i as int));
                assert(tv.take(i + 1).last() == tv[i as int]);
                assert(decreases_to!(*es => es@));
                assert(decreases_to!(es@ => es@[i as int]));
                if convert_all(tv[i as int], features) is None {
                    lemma_elems_prefix(tv, features, i + 1, n as int);
                    assert(tv.take(n as int) =~= tv);
                }
            }
            let part = Self::convert_all(&es[i], features);
            append_trees(&mut acc, part);
        }
        proof {
            assert(tv.take(n as int) =~= tv);
        }
        acc
    }

    fn convert_path(p: &TypePath, features: TypeFeatures) -> (res: TypeTree)
        requires
            convert_path(path_view(*p), features) is Some,
        ensures
            tree_view(res) == convert_path(path_view(*p), features)->Some_0,
        decreases *p, 1nat,
    {
        proof {
            lemma_segments_view(p.segments@);
        }
        let ghost pv = path_view(*p);
        let n = p.segments.len();
        let last = &p.segments[n - 1];
        proof {
            assert(pv.last() == segment_view(*last));
        }
        let is_primitive = SchemaType(p).is_primitive(features);
        proof {
            assert(crate::component_type::last_name(*p) == Some(pv.last().ident));
        }
        let generic_type = generic_type_by_name(last.ident.as_str());
        let mut base = TypeTree {
            path: Some(clone_path(p)),
            value_type: if is_primitive {
                ValueType::Primitive
            } else {
                ValueType::Object
            },
            generic_type,
            children: None,
        };
        proof {
            lemma_trees_view(Seq::<TypeTree>::empty());
            assert(tree_view(base) == path_node(pv, features));
        }
        match &last.arguments {
            PathArguments::AngleBracketed(args) => {
                let ghost gv = generic_args_view(args@);
                proof {
                    lemma_generic_args_view(args@);
                    assert(pv.last().arguments == ArgsV::AngleBracketed(gv));
                }
                if args.len() == 0 || all_lifetimes(args) {
                    base
                } else {
                    proof {
                        assert(decreases_to!(*p => p.segments));
                        assert(decreases_to!(p.segments => p.segments@));
                        assert(decreases_to!(p.segments@ => p.segments@[n - 1]));
                        assert(decreases_to!(p.segments@[n - 1] => p.segments@[n - 1].arguments));
                        assert(decreases_to!(last.arguments => last.arguments->AngleBracketed_0));
                    }
                    let cs = Self::convert_args(args, features);
                    base.children = Some(cs);
                    base
                }
            },
            PathArguments::Empty => base,
            PathArguments::Parenthesized => vstd::pervasive::unreached(),
        }
    }

    fn convert_args(args: &Vec<TypeArgument>, features: TypeFeatures) -> (res: Vec<TypeTree>)
        requires
            convert_args(generic_args_view(args@), features) is Some,
        ensures
            trees_view(res@) == convert_args(generic_args_view(args@), features)->Some_0,
        decreases *args, 0nat,
    {
        proof {
            lemma_generic_args_view(args@);
        }
        let ghost gv = generic_args_view(args@);
        let n = args.len();
        let mut acc: Vec<TypeTree> = Vec::new();
        proof {
            assert(gv.take(0) =~= Seq::<GenericArgV>::empty());
            lemma_trees_view(acc@);
            assert(trees_view(acc@) =~= Seq::<TypeTreeV>::empty());
        }
        for i in 0..n
            invariant
                n == args@.len(),
                gv == generic_args_view(args@),
                gv.len() == n,
                forall|j: int| 0 <= j < n ==> #[trigger] gv[j] == generic_arg_view(args@[j]),
                convert_args(gv, features) is Some,
                convert_args(gv.take(i as int), features) == Some(trees_view(acc@)),
        {
            proof {
                assert(gv.take(i + 1).drop_last() =~= gv.take(i as int));
                assert(gv.take(i + 1).last() == gv[i as int]);
            }
            match &args[i] {
                TypeArgument::Type(t) => {
                    proof {
                        assert(decreases_to!(*args => args@));
                        assert(decreases_to!(args@ => args@[i as int]));
                        assert(decreases_to!(args@[i as int] => args@[i as int]->Type_0));
                        if spec_from_type(type_view(*t), features) is None {
                            lemma_args_prefix(gv, features, i + 1, n as int);
                            assert(gv.take(n as int) =~= gv);
                        }
                    }
                    let tree = Self::from_type(t, features);
                    let ghost front = acc@;
                    acc.push(tree);
                    proof {
                        assert(acc@.drop_last() =~= front);
                    }
                },
                TypeArgument::Lifetime(_) => {},
                _ => {
                    proof {
                        lemma_args_prefix(gv, features, i + 1, n as int);
                        assert(gv.take(n as int) =~= gv);
                    }
                },
            }
        }
        proof {
            assert(gv.take(n as int) =~= gv);
        }
        acc
    }

    /// Whether the tree's path, or that of any node below, ends in a
    /// segment named `s`.
    pub fn is(&self, s: &str) -> (res: bool)
        requires
            paths_ok(tree_view(*self)),
        ensures
            res == tree_is(tree_view(*self), s@),
    {
        tree_is_exec(self, s)
    }

    /// Whether the tree is the virtual `Any` type, or holds it.
    pub fn is_any(&self) -> (res: bool)
        requires
            paths_ok(tree_view(*self)),
        ensures
            res == tree_is(tree_view(*self), "Any"@),
    {
        self.is("Any")
    }

    /// Sets the tree's path to the single identifier.
    pub fn update_path(&mut self, ident: &str)
        ensures
            tree_view(*final(self)) == (TypeTreeV {
                path: Some(seq![SegmentV { ident: ident@, arguments: ArgsV::Empty }]),
                ..tree_view(*old(self))
            }),
    {
        let mut segments: Vec<TypeSegment> = Vec::new();
        segments.push(TypeSegment { ident: String::from_str(ident), arguments: PathArguments::Empty });
        self.path = Some(TypePath { segments });
        proof {
            lemma_segments_view(self.path->Some_0.segments@);
            assert(path_view(self.path->Some_0) =~= seq![SegmentV { ident: ident@, arguments: ArgsV::Empty }]);
        }
    }
}

fn tree_is_exec(t: &TypeTree, s: &str) -> (res: bool)
    requires
        paths_ok(tree_view(*t)),
    ensures
        res == tree_is(tree_view(*t), s@),
    decreases *t,
{
    let own = match &t.path {
        Some(p) => {
            proof {
                lemma_segments_view(p.segments@);
            }
            let n = p.segments.len();
            n > 0 && str_eq(p.segments[n - 1].ident.as_str(), s)
        },
        None => false,
    };
    if own {
        return true;
    }
    match &t.children {
        Some(c) => {
            assert(decreases_to!(*t => *c));
            trees_any_is_exec(c, s)
        },
        None => false,
    }
}

fn trees_any_is_exec(v: &Vec<TypeTree>, s: &str) -> (res: bool)
    requires
        all_paths_ok(trees_view(v@)),
    ensures
        res == trees_any_is(trees_view(v@), s@),
    decreases *v,
{
    let n = v.len();
    let mut acc = false;
    let ghost cv = trees_view(v@);
    proof {
        lemma_trees_view(v@);
        lemma_all_paths_ok(cv);
        assert(cv.take(0) =~= Seq::<TypeTreeV>::empty());
    }
    for i in 0..n
        invariant
            n == v@.len(),
            cv == trees_view(v@),
            cv.len() == n,
            forall|j: int| 0 <= j < n ==> #[trigger] cv[j] == tree_view(v@[j]),
            forall|j: int| 0 <= j < n ==> paths_ok(#[trigger] cv[j]),
            acc == trees_any_is(cv.take(i as int), s@),
    {
        assert(decreases_to!(*v => v@[i as int]));
        proof {
            assert(cv.take(i + 1).drop_last() =~= cv.take(i as int));
            assert(cv.take(i + 1).last() == cv[i as int]);
        }
        let here = tree_is_exec(&v[i], s);
        acc = acc || here;
    }
    proof {
        assert(cv.take(n as int) =~= cv);
    }
    acc
}

/// Whether every argument is a lifetime.
fn all_lifetimes(args: &Vec<TypeArgument>) -> (res: bool)
    ensures
        res == forall|i: int| 0 <= i < args@.len() ==> #[trigger] generic_args_view(args@)[i] is Lifetime,
{
    proof {
        lemma_generic_args_view(args@);
    }
    let n = args.len();
    for i in 0..n
        invariant
            n == args@.len(),
            generic_args_view(args@).len() == n,
            forall|j: int| 0 <= j < n ==> #[trigger] generic_args_view(args@)[j] == generic_arg_view(args@[j]),
            forall|j: int| 0 <= j < i ==> #[trigger] generic_args_view(args@)[j] is Lifetime,
    {
        match &args[i] {
            TypeArgument::Lifetime(_) => {},
            _ => {
                assert(!(generic_args_view(args@)[i as int] is Lifetime));
                return false;
            },
        }
    }
    true
}

proof fn lemma_all_paths_ok(cs: Seq<TypeTreeV>)
    requires
        all_paths_ok(cs),
    ensures
        forall|j: int| 0 <= j < cs.len() ==> paths_ok(#[trigger] cs[j]),
    decreases cs.len(),
{
    if cs.len() > 0 {
        lemma_all_paths_ok(cs.drop_last());
        assert forall|j: int| 0 <= j < cs.len() implies paths_ok(#[trigger] cs[j]) by {
            if j < cs.len() - 1 {
                assert(cs[j] == cs.drop_last()[j]);
            }
        }
    }
}

proof fn lemma_all_paths_ok_from(cs: Seq<TypeTreeV>)
    requires
        forall|j: int| 0 <= j < cs.len() ==> paths_ok(#[trigger] cs[j]),
    ensures
        all_paths_ok(cs),
    decreases cs.len(),
{
    if cs.len() > 0 {
        assert forall|j: int| 0 <= j < cs.drop_last().len() implies paths_ok(#[trigger] cs.drop_last()[j]) by {
            assert(cs.drop_last()[j] == cs[j]);
        }
        lemma_all_paths_ok_from(cs.drop_last());
    }
}

proof fn lemma_convert_all_ok(t: TypeV, f: TypeFeatures)
    ensures
        convert_all(t, f) matches Some(ns) ==> forall|j: int| 0 <= j < ns.len() ==> paths_ok(#[trigger] ns[j]),
    decreases t, 2nat,
{
    match t {
        TypeV::Path(p) => {
            lemma_convert_path_ok(p, f);
        },
        TypeV::Reference(b) => lemma_convert_all_ok(*b, f),
        TypeV::Group(b) => lemma_convert_all_ok(*b, f),
        TypeV::Array(b) => lemma_convert_all_ok(*b, f),
        TypeV::Tuple(es) => lemma_convert_elems_ok(es, f),
        _ => {},
    }
}

proof fn lemma_convert_elems_ok(es: Seq<TypeV>, f: TypeFeatures)
    ensures
        convert_elems(es, f) matches Some(ns) ==> forall|j: int| 0 <= j < ns.len() ==> paths_ok(#[trigger] ns[j]),
    decreases es, 1nat,
{
    if es.len() > 0 {
        lemma_convert_elems_ok(es.drop_last(), f);
        lemma_convert_all_ok(es.last(), f);
        if let Some(front) = convert_elems(es.drop_last(), f) {
            if let Some(back) = convert_all(es.last(), f) {
                let ns = front + back;
                assert forall|j: int| 0 <= j < ns.len() implies paths_ok(#[trigger] ns[j]) by {
                    if j < front.len() {
                        assert(ns[j] == front[j]);
                    } else {
                        assert(ns[j] == back[j - front.len()]);
                    }
                }
            }
        }
    }
}

proof fn lemma_convert_path_ok(p: Seq<SegmentV>, f: TypeFeatures)
    ensures
        convert_path(p, f) matches Some(n) ==> paths_ok(n),
    decreases p, 1nat,
{
    if p.len() > 0 {
        if let ArgsV::AngleBracketed(args) = p.last().arguments {
            assert(decreases_to!(p => args));
            lemma_convert_args_ok(args, f);
            if let Some(cs) = convert_args(args, f) {
                lemma_all_paths_ok_from(cs);
            }
        }
    }
}

proof fn lemma_convert_args_ok(args: Seq<GenericArgV>, f: TypeFeatures)
    ensures
        convert_args(args, f) matches Some(cs) ==> forall|j: int| 0 <= j < cs.len() ==> paths_ok(#[trigger] cs[j]),
    decreases args, 0nat,
{
    if args.len() > 0 {
        lemma_convert_args_ok(args.drop_last(), f);
        if let Some(front) = convert_args(args.drop_last(), f) {
            if let GenericArgV::Type(t) = args.last() {
                lemma_from_type_paths_ok(t, f);
                if let Some(tree) = spec_from_type(t, f) {
                    let cs = front.push(tree);
                    assert forall|j: int| 0 <= j < cs.len() implies paths_ok(#[trigger] cs[j]) by {
                        if j < front.len() {
                            assert(cs[j] == front[j]);
                        }
                    }
                }
            }
        }
    }
}

/// Every type tree that a type reads as has a segment in each of its paths,
/// so that the questions asked of a tree by the names in its paths can be
/// asked of it.
pub proof fn lemma_from_type_paths_ok(t: TypeV, f: TypeFeatures)
    ensures
        spec_from_type(t, f) matches Some(tree) ==> paths_ok(tree),
    decreases t, 3nat,
{
    lemma_convert_all_ok(t, f);
    if let Some(ns) = convert_all(t, f) {
        if ns.len() > 1 {
            lemma_all_paths_ok_from(ns);
        }
    }
}

} // verus!
