//! The arguments of a handler function: their names, read from their
//! patterns, and their types, read as type trees.
use vstd::prelude::*;
use vstd::string::StringExecFns;

use crate::diagnostics::Diagnostics;
use crate::rust_type::{type_view, RustType};
use crate::ext::{arg_view, ArgumentIn, MacroArg};
use crate::rust_type::{path_view, SegmentV, TypePath};
use crate::type_tree::{
    from_type, is_error, lemma_trees_prop_take, lemma_trees_view, spec_from_type, tree_is,
    tree_paths_ok, tree_view, trees_view, GenericType, Outcome, TypeTree, TypeTreeV,
    ValueType,
};

verus! {

/// A pattern of a function argument, as far as names are read from it.
pub enum Pat {
    /// `name`
    Ident(String),
    /// `(a, b, ...)`
    Tuple(Vec<Pat>),
    /// `Path(a)`, `Json((a, b))`, ...: the patterns inside the parentheses.
    TupleStruct(Vec<Pat>),
    /// `Foo { a, b: c, .. }`: the pattern of each field.
    Struct(Vec<Pat>),
    /// `_`
    Wild,
    /// Any other pattern.
    Other,
}

/// A typed argument: its pattern and its type.
pub struct PatType {
    pub pat: Pat,
    pub ty: RustType,
}

/// An argument of a function: `self` in some form, or a typed one.
pub enum HandlerArg {
    Receiver,
    Typed(PatType),
}

/// The names of an argument: one name, or the names taken apart from it.
pub enum FnArgType {
    Single(String),
    Destructed(Vec<String>),
}

/// The view of an [`FnArgType`].
pub enum ArgTypeV {
    Single(Seq<char>),
    Destructed(Seq<Seq<char>>),
}

/// The view of an [`FnArgType`].
pub open spec fn arg_type_view(a: FnArgType) -> ArgTypeV {
    match a {
        FnArgType::Single(s) => ArgTypeV::Single(s@),
        FnArgType::Destructed(v) => ArgTypeV::Destructed(v@.map_values(|s: String| s@)),
    }
}

/// An argument of a handler: its type tree and its names.
pub struct FnArg {
    pub ty: TypeTree,
    pub arg_type: FnArgType,
}

/// The view of an [`FnArg`].
pub open spec fn fn_arg_view(a: FnArg) -> (TypeTreeV, ArgTypeV) {
    (tree_view(a.ty), arg_type_view(a.arg_type))
}

/// The views of a sequence of arguments.
pub open spec fn fn_args_view(s: Seq<FnArg>) -> Seq<(TypeTreeV, ArgTypeV)> {
    s.map_values(|a: FnArg| fn_arg_view(a))
}

/// The message for a tuple pattern with something other than a name in it.
pub open spec fn tuple_pat_message() -> Seq<char> {
    "expected syn::Ident in get_pat_fn_arg_type Pat::Tuple"@
}

/// The message for a pattern that gives no name.
pub open spec fn unexpected_pat_message() -> Seq<char> {
    "unexpected syn::Pat, expected syn::Pat::Ident,in get_fn_args, cannot get fn argument name"@
}

/// The message for a `self` argument.
pub open spec fn receiver_message() -> Seq<char> {
    "unexpected fn argument type, expected FnArg::Typed"@
}

/// Whether the names can be read from the pattern without an internal
/// expectation failing: every tuple struct pattern on the way has a first
/// pattern.
pub open spec fn pat_ok(p: Pat) -> bool
    decreases p, 1nat,
{
    match p {
        Pat::TupleStruct(v) => v@.len() > 0 && pat_ok(v@[0]),
        Pat::Struct(fs) => pats_ok(fs@),
        _ => true,
    }
}

/// `pat_ok` of each pattern.
pub open spec fn pats_ok(s: Seq<Pat>) -> bool
    decreases s, 0nat,
{
    if s.len() == 0 {
        true
    } else {
        pats_ok(s.drop_last()) && pat_ok(s.last())
    }
}

/// Whether every pattern is a name.
pub open spec fn all_idents(s: Seq<Pat>) -> bool {
    forall|i: int| 0 <= i < s.len() ==> #[trigger] s[i] is Ident
}

/// The name of a pattern that is a name.
pub open spec fn ident_name(p: Pat) -> Seq<char> {
    match p {
        Pat::Ident(s) => s@,
        _ => Seq::empty(),
    }
}

/// The names read from a pattern: a name; the names of a tuple of names;
/// those of the first pattern of a tuple struct; the single names among
/// the fields of a struct (fields that give anything else are passed over).
pub open spec fn pat_arg_type(p: Pat) -> Result<ArgTypeV, Seq<char>>
    decreases p, 1nat,
{
    match p {
        Pat::Ident(s) => Ok(ArgTypeV::Single(s@)),
        Pat::Tuple(v) => if all_idents(v@) {
            Ok(ArgTypeV::Destructed(v@.map_values(|q: Pat| ident_name(q))))
        } else {
            Err(tuple_pat_message())
        },
        Pat::TupleStruct(v) => if v@.len() > 0 {
            pat_arg_type(v@[0])
        } else {
            Err(unexpected_pat_message())
        },
        Pat::Struct(fs) => Ok(ArgTypeV::Destructed(struct_idents(fs@))),
        _ => Err(unexpected_pat_message()),
    }
}

/// The single names that the field patterns give, in order.
pub open spec fn struct_idents(fs: Seq<Pat>) -> Seq<Seq<char>>
    decreases fs, 0nat,
{
    if fs.len() == 0 {
        Seq::empty()
    } else {
        struct_idents(fs.drop_last()) + match pat_arg_type(fs.last()) {
            Ok(ArgTypeV::Single(n)) => seq![n],
            _ => Seq::empty(),
        }
    }
}

fn diag(message: &str) -> (res: Diagnostics)
    ensures
        is_error(res, message@),
{
    Diagnostics::new(String::from_str(message))
}

proof fn lemma_pats_ok_take(s: Seq<Pat>, i: int)
    requires
        0 <= i < s.len(),
        pats_ok(s),
    ensures
        pat_ok(s[i]),
        pats_ok(s.take(i + 1)),
    decreases s.len(),
{
    if i == s.len() - 1 {
        assert(s.take(i + 1) =~= s);
    } else {
        assert(s.drop_last()[i] == s[i]);
        assert(s.drop_last().take(i + 1) =~= s.take(i + 1));
        lemma_pats_ok_take(s.drop_last(), i);
    }
}

/// The names read from a pattern.
pub fn get_pat_fn_arg_type(pat: &Pat) -> (res: Result<FnArgType, Diagnostics>)
    requires
        pat_ok(*pat),
    ensures
        match res {
            Ok(a) => pat_arg_type(*pat) == Ok::<ArgTypeV, Seq<char>>(arg_type_view(a)),
            Err(d) => pat_arg_type(*pat) is Err && is_error(d, pat_arg_type(*pat)->Err_0),
        },
    decreases *pat,
{
    match pat {
        Pat::Ident(s) => Ok(FnArgType::Single(s.clone())),
        Pat::Tuple(v) => {
            let mut names: Vec<String> = Vec::new();
            let n = v.len();
            for i in 0..n
                invariant
                    n == v@.len(),
                    *pat == Pat::Tuple(*v),
                    forall|j: int| 0 <= j < i ==> #[trigger] v@[j] is Ident,
                    names@.map_values(|s: String| s@) == v@.take(i as int).map_values(
                        |q: Pat| ident_name(q),
                    ),
            {
                match &v[i] {
                    Pat::Ident(s) => {
                        let ghost before = names@;
                        let c = s.clone();
                        names.push(c);
                        proof {
                            assert(names@ =~= before.push(c));
                            assert(names@.map_values(|s: String| s@) =~= before.map_values(
                                |s: String| s@,
                            ).push(c@));
                            assert(v@.take(i + 1) =~= v@.take(i as int).push(v@[i as int]));
                            assert(v@.take(i + 1).map_values(|q: Pat| ident_name(q)) =~= v@.take(
                                i as int,
                            ).map_values(|q: Pat| ident_name(q)).push(ident_name(v@[i as int])));
                        }
                    },
                    _ => {
                        proof {
                            assert(!(v@[i as int] is Ident));
                            assert(!all_idents(v@));
                        }
                        return Err(diag("expected syn::Ident in get_pat_fn_arg_type Pat::Tuple"));
                    },
                }
            }
            proof {
                assert(v@.take(n as int) =~= v@);
            }
            Ok(FnArgType::Destructed(names))
        },
        Pat::TupleStruct(v) => {
            assert(decreases_to!(*pat => v@[0]));
            get_pat_fn_arg_type(&v[0])
        },
        Pat::Struct(fs) => {
            assert(decreases_to!(*pat => *fs));
            let names = struct_field_idents(fs);
            Ok(FnArgType::Destructed(names))
        },
        _ => Err(
            diag(
                "unexpected syn::Pat, expected syn::Pat::Ident,in get_fn_args, cannot get fn argument name",
            ),
        ),
    }
}

/// The single names that the field patterns give, in order.
fn struct_field_idents(fs: &Vec<Pat>) -> (res: Vec<String>)
    requires
        pats_ok(fs@),
    ensures
        res@.map_values(|s: String| s@) == struct_idents(fs@),
    decreases *fs,
{
    let mut names: Vec<String> = Vec::new();
    let n = fs.len();
    proof {
        assert(fs@.take(0) =~= Seq::<Pat>::empty());
    }
    for i in 0..n
        invariant
            n == fs@.len(),
            pats_ok(fs@),
            names@.map_values(|s: String| s@) == struct_idents(fs@.take(i as int)),
    {
        assert(decreases_to!(*fs => fs@[i as int]));
        proof {
            lemma_pats_ok_take(fs@, i as int);
            assert(fs@.take(i + 1).drop_last() =~= fs@.take(i as int));
            assert(fs@.take(i + 1).last() == fs@[i as int]);
        }
        let ghost before = names@;
        match get_pat_fn_arg_type(&fs[i]) {
            Ok(FnArgType::Single(s)) => {
                names.push(s);
                proof {
                    assert(names@.map_values(|s: String| s@) =~= before.map_values(|s: String| s@)
                        + seq![s@]);
                }
            },
            _ => {
                proof {
                    assert(names@.map_values(|s: String| s@) =~= before.map_values(|s: String| s@)
                        + Seq::<Seq<char>>::empty());
                }
            },
        }
    }
    proof {
        assert(fs@.take(n as int) =~= fs@);
    }
    names
}

/// The typed argument, or an error for `self`.
pub fn get_fn_arg_pat_type(arg: &HandlerArg) -> (res: Result<&PatType, Diagnostics>)
    ensures
        match res {
            Ok(p) => *arg == HandlerArg::Typed(*p),
            Err(d) => *arg is Receiver && is_error(d, receiver_message()),
        },
{
    match arg {
        HandlerArg::Typed(p) => Ok(p),
        HandlerArg::Receiver => Err(diag("unexpected fn argument type, expected FnArg::Typed")),
    }
}

/// What reading the arguments gives: their type trees and names in order,
/// `_` arguments left out; the first error stops.
pub open spec fn fn_args_outcome(args: Seq<HandlerArg>) -> Outcome<Seq<(TypeTreeV, ArgTypeV)>>
    decreases args.len(),
{
    if args.len() == 0 {
        Outcome::Done(Seq::empty())
    } else {
        match fn_args_outcome(args.drop_last()) {
            Outcome::Done(front) => match args.last() {
                HandlerArg::Receiver => Outcome::Fail(receiver_message()),
                HandlerArg::Typed(pt) => if pt.pat is Wild {
                    Outcome::Done(front)
                } else if !pat_ok(pt.pat) {
                    Outcome::Abort
                } else {
                    match pat_arg_type(pt.pat) {
                        Err(e) => Outcome::Fail(e),
                        Ok(at) => match spec_from_type(type_view(pt.ty)) {
                            Outcome::Done(t) => Outcome::Done(front.push((t, at))),
                            Outcome::Fail(e) => Outcome::Fail(e),
                            Outcome::Abort => Outcome::Abort,
                        },
                    }
                },
            },
            Outcome::Fail(e) => Outcome::Fail(e),
            Outcome::Abort => Outcome::Abort,
        }
    }
}

proof fn lemma_outcome_stays(args: Seq<HandlerArg>, a: int, b: int)
    requires
        0 <= a <= b <= args.len(),
        !(fn_args_outcome(args.take(a)) is Done),
    ensures
        fn_args_outcome(args.take(b)) == fn_args_outcome(args.take(a)),
    decreases b - a,
{
    if a < b {
        lemma_outcome_stays(args, a, b - 1);
        assert(args.take(b).drop_last() =~= args.take(b - 1));
    }
}

/// Reads the arguments of a handler: the type tree and names of each,
/// `_` arguments left out. A `self` argument, a pattern that gives no name,
/// or a type that is not read is an error.
pub fn get_fn_args(args: &Vec<HandlerArg>) -> (res: Result<Vec<FnArg>, Diagnostics>)
    requires
        !(fn_args_outcome(args@) is Abort),
    ensures
        match res {
            Ok(v) => fn_args_outcome(args@) == Outcome::Done(fn_args_view(v@)),
            Err(d) => fn_args_outcome(args@) is Fail && is_error(d, fn_args_outcome(args@)->Fail_0),
        },
{
    let n = args.len();
    let mut out: Vec<FnArg> = Vec::new();
    proof {
        assert(args@.take(0) =~= Seq::<HandlerArg>::empty());
        assert(fn_args_view(out@) =~= Seq::empty());
    }
    for i in 0..n
        invariant
            n == args@.len(),
            !(fn_args_outcome(args@) is Abort),
            fn_args_outcome(args@.take(i as int)) == Outcome::Done(fn_args_view(out@)),
    {
        proof {
            assert(args@.take(i + 1).drop_last() =~= args@.take(i as int));
            assert(args@.take(i + 1).last() == args@[i as int]);
            assert(args@.take(n as int) =~= args@);
        }
        let pat_type = match get_fn_arg_pat_type(&args[i]) {
            Ok(p) => p,
            Err(d) => {
                proof {
                    lemma_outcome_stays(args@, i + 1, n as int);
                }
                return Err(d);
            },
        };
        match &pat_type.pat {
            Pat::Wild => {},
            _ => {
                proof {
                    if !pat_ok(pat_type.pat) {
                        lemma_outcome_stays(args@, i + 1, n as int);
                    }
                }
                let arg_type = match get_pat_fn_arg_type(&pat_type.pat) {
                    Ok(a) => a,
                    Err(d) => {
                        proof {
                            lemma_outcome_stays(args@, i + 1, n as int);
                        }
                        return Err(d);
                    },
                };
                proof {
                    if spec_from_type(type_view(pat_type.ty)) is Abort {
                        lemma_outcome_stays(args@, i + 1, n as int);
                    }
                }
                match from_type(&pat_type.ty) {
                    Ok(tree) => {
                        let ghost before = out@;
                        let arg = FnArg { ty: tree, arg_type };
                        let ghost av = fn_arg_view(arg);
                        out.push(arg);
                        proof {
                            assert(fn_args_view(out@) =~= fn_args_view(before).push(av));
                        }
                    },
                    Err(d) => {
                        proof {
                            lemma_outcome_stays(args@, i + 1, n as int);
                        }
                        return Err(d);
                    },
                }
            },
        }
    }
    proof {
        assert(args@.take(n as int) =~= args@);
    }
    Ok(out)
}

/// The tree whose name decides whether an argument is an into-params type:
/// the argument's own, or the first argument of an `Option`.
pub open spec fn into_params_target(t: TypeTreeV) -> TypeTreeV {
    if t.generic_type == Some(GenericType::Option) {
        t.children->Some_0[0]
    } else {
        t
    }
}

/// Whether a tree has children, all of them objects without a generic
/// wrapper.
pub open spec fn children_plain_objects(t: TypeTreeV) -> bool {
    match t.children {
        Some(c) => forall|j: int|
            0 <= j < c.len() ==> (#[trigger] c[j]).value_type == ValueType::Object
                && c[j].generic_type is None,
        None => false,
    }
}

/// Whether an argument's type is an into-params type: `Path` or `Query`
/// (perhaps in an `Option`) whose arguments are all plain objects.
pub open spec fn is_into_params_view(t: TypeTreeV) -> bool {
    let ty = into_params_target(t);
    (tree_is(ty, "Path"@) || tree_is(ty, "Query"@)) && children_plain_objects(ty)
}

/// What asking whether an argument is an into-params type needs: named
/// paths, and an argument for an `Option`.
pub open spec fn into_params_ready(t: TypeTreeV) -> bool {
    &&& tree_paths_ok(t)
    &&& t.generic_type == Some(GenericType::Option) ==> t.children is Some && t.children->Some_0.len()
        > 0
}

/// Whether a tree has at least one child.
pub open spec fn has_children(t: TypeTreeV) -> bool {
    t.children is Some && t.children->Some_0.len() > 0
}

fn all_plain_objects(c: &Vec<TypeTree>) -> (res: bool)
    ensures
        res == forall|j: int|
            0 <= j < trees_view(c@).len() ==> (#[trigger] trees_view(c@)[j]).value_type
                == ValueType::Object && trees_view(c@)[j].generic_type is None,
{
    proof {
        lemma_trees_view(c@);
    }
    let n = c.len();
    for j in 0..n
        invariant
            n == c@.len(),
            trees_view(c@).len() == n,
            forall|k: int| 0 <= k < n ==> #[trigger] trees_view(c@)[k] == tree_view(c@[k]),
            forall|k: int|
                0 <= k < j ==> (#[trigger] trees_view(c@)[k]).value_type == ValueType::Object
                    && trees_view(c@)[k].generic_type is None,
    {
        let ok = match c[j].value_type {
            ValueType::Object => c[j].generic_type.is_none(),
            _ => false,
        };
        if !ok {
            proof {
                assert(trees_view(c@)[j as int] == tree_view(c@[j as int]));
            }
            return false;
        }
    }
    true
}

fn plain_into_params(ty: &TypeTree) -> (res: bool)
    requires
        tree_paths_ok(tree_view(*ty)),
    ensures
        res == ((tree_is(tree_view(*ty), "Path"@) || tree_is(tree_view(*ty), "Query"@))
            && children_plain_objects(tree_view(*ty))),
{
    let named = ty.is("Path") || ty.is("Query");
    named && match &ty.children {
        Some(c) => all_plain_objects(c),
        None => false,
    }
}

/// Whether the argument is an into-params type: `Path` or `Query`, perhaps
/// in an `Option`, whose arguments are all objects without a generic
/// wrapper.
pub fn is_into_params(fn_arg: &FnArg) -> (res: bool)
    requires
        into_params_ready(tree_view(fn_arg.ty)),
    ensures
        res == is_into_params_view(tree_view(fn_arg.ty)),
{
    match fn_arg.ty.generic_type {
        Some(GenericType::Option) => {
            match &fn_arg.ty.children {
                Some(c) => {
                    proof {
                        lemma_trees_view(c@);
                        lemma_trees_prop_take(trees_view(c@), 0);
                    }
                    plain_into_params(&c[0])
                },
                None => false,
            }
        },
        _ => plain_into_params(&fn_arg.ty),
    }
}

/// Where an into-params type's parameters go: the closure that the
/// generated code passes on.
#[derive(PartialEq, Eq, Structural, Clone, Copy, Debug)]
pub enum ParameterInProvider {
    /// `|| Some(ParameterIn::Path)`
    Path,
    /// `|| Some(ParameterIn::Query)`
    Query,
    /// `|| None`
    Unknown,
}

/// The provider of an argument's type: `Path` where the tree names `Path`,
/// else `Query` where it names `Query`.
pub open spec fn provider_of(t: TypeTreeV) -> ParameterInProvider {
    if tree_is(t, "Path"@) {
        ParameterInProvider::Path
    } else if tree_is(t, "Query"@) {
        ParameterInProvider::Query
    } else {
        ParameterInProvider::Unknown
    }
}

/// The view of an optional path.
pub open spec fn opt_path_view(p: Option<TypePath>) -> Option<Seq<SegmentV>> {
    match p {
        Some(p) => Some(path_view(p)),
        None => None,
    }
}

/// An into-params type of a handler: where its parameters go, and its
/// path.
pub struct IntoParamsType {
    pub parameter_in_provider: ParameterInProvider,
    pub type_path: Option<TypePath>,
}

/// The view of an [`IntoParamsType`].
pub open spec fn into_params_type_view(t: IntoParamsType) -> (ParameterInProvider, Option<Seq<SegmentV>>) {
    (t.parameter_in_provider, opt_path_view(t.type_path))
}

/// The into-params type that an argument stands for: where its parameters
/// go, and the path of the argument's first type argument.
pub open spec fn into_params_of(t: TypeTreeV) -> (ParameterInProvider, Option<Seq<SegmentV>>) {
    (provider_of(t), t.children->Some_0[0].path)
}

/// The path of the argument's first type argument and where its parameters
/// go.
pub fn with_parameter_in(arg: FnArg) -> (res: Option<(Option<TypePath>, ParameterInProvider)>)
    requires
        tree_paths_ok(tree_view(arg.ty)),
        has_children(tree_view(arg.ty)),
    ensures
        res is Some,
        (res->Some_0.1, opt_path_view(res->Some_0.0)) == into_params_of(tree_view(arg.ty)),
{
    let provider = if arg.ty.is("Path") {
        ParameterInProvider::Path
    } else if arg.ty.is("Query") {
        ParameterInProvider::Query
    } else {
        ParameterInProvider::Unknown
    };
    let ghost tv = tree_view(arg.ty);
    match arg.ty.children {
        Some(c) => {
            proof {
                lemma_trees_view(c@);
            }
            let mut c = c;
            let first = c.remove(0);
            Some((first.path, provider))
        },
        None => None,
    }
}

impl IntoParamsType {
    /// The into-params type of a path and a provider.
    pub fn from_pair(pair: (Option<TypePath>, ParameterInProvider)) -> (res: IntoParamsType)
        ensures
            res.parameter_in_provider == pair.1,
            res.type_path == pair.0,
    {
        IntoParamsType { parameter_in_provider: pair.1, type_path: pair.0 }
    }
}

/// A value argument of a handler: its name, where it goes, and its type.
pub struct ValueArgument {
    pub name: Option<String>,
    pub argument_in: ArgumentIn,
    pub type_tree: Option<TypeTree>,
}

/// The view of an optional string.
pub open spec fn opt_str_view(o: Option<String>) -> Option<Seq<char>> {
    match o {
        Some(s) => Some(s@),
        None => None,
    }
}

/// The view of an optional tree.
pub open spec fn opt_tree_view(o: Option<TypeTree>) -> Option<TypeTreeV> {
    match o {
        Some(t) => Some(tree_view(t)),
        None => None,
    }
}

/// The view of a [`ValueArgument`].
pub open spec fn value_argument_view(v: ValueArgument) -> (Option<Seq<char>>, ArgumentIn, Option<TypeTreeV>) {
    (opt_str_view(v.name), v.argument_in, opt_tree_view(v.type_tree))
}

/// The arguments that are (or are not) into-params types, in order.
pub open spec fn partition_args(vs: Seq<(TypeTreeV, ArgTypeV)>, into: bool) -> Seq<(TypeTreeV, ArgTypeV)>
    decreases vs.len(),
{
    if vs.len() == 0 {
        Seq::empty()
    } else {
        partition_args(vs.drop_last(), into) + if is_into_params_view(vs.last().0) == into {
            seq![vs.last()]
        } else {
            Seq::empty()
        }
    }
}

/// The type trees of the arguments.
pub open spec fn arg_trees(vs: Seq<(TypeTreeV, ArgTypeV)>) -> Seq<TypeTreeV> {
    vs.map_values(|p: (TypeTreeV, ArgTypeV)| p.0)
}

proof fn lemma_trees_view_push(s: Seq<TypeTree>, x: TypeTree)
    ensures
        trees_view(s.push(x)) == trees_view(s).push(tree_view(x)),
{
    assert(s.push(x).drop_last() =~= s);
}

/// Splits the arguments into the into-params ones and the others, each in
/// order.
pub fn partition_into_params(args: Vec<FnArg>) -> (res: (Vec<FnArg>, Vec<FnArg>))
    requires
        forall|i: int| 0 <= i < args@.len() ==> into_params_ready(#[trigger] tree_view(args@[i].ty)),
    ensures
        fn_args_view(res.0@) == partition_args(fn_args_view(args@), true),
        fn_args_view(res.1@) == partition_args(fn_args_view(args@), false),
{
    let ghost all = fn_args_view(args@);
    let ghost orig = args@;
    let mut rest = args;
    let mut yes: Vec<FnArg> = Vec::new();
    let mut no: Vec<FnArg> = Vec::new();
    let n = rest.len();
    proof {
        assert(all.take(0) =~= Seq::<(TypeTreeV, ArgTypeV)>::empty());
        assert(fn_args_view(yes@) =~= Seq::empty());
        assert(fn_args_view(no@) =~= Seq::empty());
        assert(orig.skip(0) =~= orig);
    }
    for i in 0..n
        invariant
            n == orig.len(),
            all == fn_args_view(orig),
            rest@ == orig.skip(i as int),
            forall|k: int| 0 <= k < orig.len() ==> into_params_ready(#[trigger] tree_view(orig[k].ty)),
            fn_args_view(yes@) == partition_args(all.take(i as int), true),
            fn_args_view(no@) == partition_args(all.take(i as int), false),
    {
        let arg = rest.remove(0);
        proof {
            assert(arg == orig[i as int]);
            assert(rest@ =~= orig.skip(i + 1));
            assert(all.take(i + 1).drop_last() =~= all.take(i as int));
            assert(all.take(i + 1).last() == fn_arg_view(arg));
        }
        let ghost av = fn_arg_view(arg);
        let ghost y0 = yes@;
        let ghost n0 = no@;
        if is_into_params(&arg) {
            yes.push(arg);
            proof {
                assert(fn_args_view(yes@) =~= fn_args_view(y0) + seq![av]);
                assert(fn_args_view(no@) =~= fn_args_view(n0) + Seq::empty());
            }
        } else {
            no.push(arg);
            proof {
                assert(fn_args_view(no@) =~= fn_args_view(n0) + seq![av]);
                assert(fn_args_view(yes@) =~= fn_args_view(y0) + Seq::empty());
            }
        }
    }
    proof {
        assert(all.take(n as int) =~= all);
    }
    (yes, no)
}

/// The into-params types of the arguments, in order.
pub open spec fn into_params_all(vs: Seq<(TypeTreeV, ArgTypeV)>) -> Seq<(ParameterInProvider, Option<Seq<SegmentV>>)> {
    vs.map_values(|p: (TypeTreeV, ArgTypeV)| into_params_of(p.0))
}

/// The into-params types of into-params arguments, in order.
pub fn into_params_types(args: Vec<FnArg>) -> (res: Vec<IntoParamsType>)
    requires
        forall|i: int|
            0 <= i < args@.len() ==> tree_paths_ok(#[trigger] tree_view(args@[i].ty)) && has_children(
                tree_view(args@[i].ty),
            ),
    ensures
        res@.map_values(|t: IntoParamsType| into_params_type_view(t)) == into_params_all(
            fn_args_view(args@),
        ),
{
    let ghost orig = args@;
    let mut rest = args;
    let mut out: Vec<IntoParamsType> = Vec::new();
    let n = rest.len();
    proof {
        assert(orig.skip(0) =~= orig);
    }
    for i in 0..n
        invariant
            n == orig.len(),
            rest@ == orig.skip(i as int),
            forall|k: int|
                0 <= k < orig.len() ==> tree_paths_ok(#[trigger] tree_view(orig[k].ty)) && has_children(
                    tree_view(orig[k].ty),
                ),
            out@.map_values(|t: IntoParamsType| into_params_type_view(t)) == into_params_all(
                fn_args_view(orig),
            ).take(i as int),
    {
        let arg = rest.remove(0);
        proof {
            assert(arg == orig[i as int]);
            assert(rest@ =~= orig.skip(i + 1));
        }
        let ghost tv = tree_view(arg.ty);
        let ghost before = out@;
        match with_parameter_in(arg) {
            Some(pair) => {
                let t = IntoParamsType::from_pair(pair);
                let ghost tview = into_params_type_view(t);
                out.push(t);
                proof {
                    let all_ip = into_params_all(fn_args_view(orig));
                    assert(tview == into_params_of(tv));
                    assert(fn_args_view(orig)[i as int].0 == tv);
                    assert(all_ip[i as int] == tview);
                    assert(out@.map_values(|t: IntoParamsType| into_params_type_view(t)) =~= before.map_values(
                        |t: IntoParamsType| into_params_type_view(t),
                    ).push(tview));
                    assert(all_ip.take(i + 1) =~= all_ip.take(i as int).push(all_ip[i as int]));
                    assert(out@.map_values(|t: IntoParamsType| into_params_type_view(t)) =~= into_params_all(
                        fn_args_view(orig),
                    ).take(i + 1));
                }
            },
            None => {},
        }
    }
    proof {
        assert(into_params_all(fn_args_view(orig)).take(n as int) =~= into_params_all(
            fn_args_view(orig),
        ));
    }
    out
}

/// Whether an argument's type is read by the path or as the request body:
/// `Path`, `Json`, `Form` or `Bytes`.
pub open spec fn is_request_arg(t: TypeTreeV) -> bool {
    tree_is(t, "Path"@) || tree_is(t, "Json"@) || tree_is(t, "Form"@) || tree_is(t, "Bytes"@)
}

/// What a type argument of `Path` gives: itself for a primitive, its
/// elements for a tuple.
pub open spec fn child_primitives(c: TypeTreeV) -> Seq<TypeTreeV> {
    if c.value_type == ValueType::Primitive {
        seq![c]
    } else {
        match c.children {
            Some(cs) => cs,
            None => Seq::empty(),
        }
    }
}

/// What the type arguments of `Path` give, in order.
pub open spec fn children_primitives(cs: Seq<TypeTreeV>) -> Seq<TypeTreeV>
    decreases cs.len(),
{
    if cs.len() == 0 {
        Seq::empty()
    } else {
        children_primitives(cs.drop_last()) + child_primitives(cs.last())
    }
}

/// A type argument of `Path` is a primitive, or a tuple.
pub open spec fn path_child_ok(c: TypeTreeV) -> bool {
    c.value_type == ValueType::Primitive || (c.value_type == ValueType::Tuple && c.children is Some)
}

/// What reading a value argument needs: named paths, and for `Path`, type
/// arguments that are primitives or tuples.
pub open spec fn split_arg_ok(t: TypeTreeV) -> bool {
    &&& tree_paths_ok(t)
    &&& tree_is(t, "Path"@) ==> t.children is Some && forall|j: int|
        0 <= j < t.children->Some_0.len() ==> path_child_ok(#[trigger] t.children->Some_0[j])
}

/// The primitives that the `Path` arguments hold, and the body arguments,
/// each in order.
pub open spec fn path_split(ts: Seq<TypeTreeV>) -> (Seq<TypeTreeV>, Seq<TypeTreeV>)
    decreases ts.len(),
{
    if ts.len() == 0 {
        (Seq::empty(), Seq::empty())
    } else {
        let (ps, bs) = path_split(ts.drop_last());
        let t = ts.last();
        if tree_is(t, "Path"@) {
            (ps + children_primitives(t.children->Some_0), bs)
        } else if is_request_arg(t) {
            (ps, bs.push(t))
        } else {
            (ps, bs)
        }
    }
}

fn push_all(dst: &mut Vec<TypeTree>, src: Vec<TypeTree>)
    ensures
        trees_view(final(dst)@) == trees_view(old(dst)@) + trees_view(src@),
{
    let ghost orig = src@;
    let ghost start = trees_view(dst@);
    let mut rest = src;
    let n = rest.len();
    proof {
        lemma_trees_view(orig);
        assert(orig.skip(0) =~= orig);
        assert(trees_view(orig).take(0) =~= Seq::<TypeTreeV>::empty());
        assert(start + Seq::<TypeTreeV>::empty() =~= start);
    }
    for i in 0..n
        invariant
            n == orig.len(),
            rest@ == orig.skip(i as int),
            trees_view(orig).len() == n,
            forall|k: int| 0 <= k < n ==> #[trigger] trees_view(orig)[k] == tree_view(orig[k]),
            trees_view(dst@) == start + trees_view(orig).take(i as int),
    {
        let x = rest.remove(0);
        proof {
            assert(x == orig[i as int]);
            assert(rest@ =~= orig.skip(i + 1));
            lemma_trees_view_push(dst@, x);
            assert(trees_view(orig).take(i + 1) =~= trees_view(orig).take(i as int).push(tree_view(x)));
        }
        dst.push(x);
    }
    proof {
        assert(trees_view(orig).take(n as int) =~= trees_view(orig));
    }
}

fn push_path_primitives(dst: &mut Vec<TypeTree>, children: Vec<TypeTree>)
    requires
        forall|j: int|
            0 <= j < trees_view(children@).len() ==> path_child_ok(#[trigger] trees_view(children@)[j]),
    ensures
        trees_view(final(dst)@) == trees_view(old(dst)@) + children_primitives(trees_view(children@)),
{
    let ghost orig = children@;
    let ghost cv = trees_view(orig);
    let ghost start = trees_view(dst@);
    let mut rest = children;
    let n = rest.len();
    proof {
        lemma_trees_view(orig);
        assert(orig.skip(0) =~= orig);
        assert(cv.take(0) =~= Seq::<TypeTreeV>::empty());
        assert(start + Seq::<TypeTreeV>::empty() =~= start);
    }
    for i in 0..n
        invariant
            n == orig.len(),
            cv == trees_view(orig),
            rest@ == orig.skip(i as int),
            cv.len() == n,
            forall|k: int| 0 <= k < n ==> #[trigger] cv[k] == tree_view(orig[k]),
            forall|j: int| 0 <= j < cv.len() ==> path_child_ok(#[trigger] cv[j]),
            trees_view(dst@) == start + children_primitives(cv.take(i as int)),
    {
        let c = rest.remove(0);
        proof {
            assert(c == orig[i as int]);
            assert(rest@ =~= orig.skip(i + 1));
            assert(cv[i as int] == tree_view(c));
            assert(path_child_ok(cv[i as int]));
            assert(cv.take(i + 1).drop_last() =~= cv.take(i as int));
            assert(cv.take(i + 1).last() == tree_view(c));
        }
        let ghost before = trees_view(dst@);
        match c.value_type {
            ValueType::Primitive => {
                proof {
                    lemma_trees_view_push(dst@, c);
                }
                dst.push(c);
                proof {
                    assert(trees_view(dst@) =~= start + children_primitives(cv.take(i + 1)));
                }
            },
            _ => {
                match c.children {
                    Some(gs) => {
                        push_all(dst, gs);
                        proof {
                            assert(trees_view(dst@) =~= start + children_primitives(cv.take(i + 1)));
                        }
                    },
                    None => {},
                }
            },
        }
    }
    proof {
        assert(cv.take(n as int) =~= cv);
    }
}

/// Splits the value arguments: the primitives that the `Path` arguments
/// hold, and the `Json`, `Form` and `Bytes` arguments, each in order; other
/// arguments are left out.
pub fn split_path_args_and_request(value_args: Vec<FnArg>) -> (res: (Vec<TypeTree>, Vec<TypeTree>))
    requires
        forall|i: int| 0 <= i < value_args@.len() ==> split_arg_ok(#[trigger] tree_view(value_args@[i].ty)),
    ensures
        (trees_view(res.0@), trees_view(res.1@)) == path_split(arg_trees(fn_args_view(value_args@))),
{
    let ghost orig = value_args@;
    let ghost ts = arg_trees(fn_args_view(orig));
    let mut rest = value_args;
    let mut prims: Vec<TypeTree> = Vec::new();
    let mut bodies: Vec<TypeTree> = Vec::new();
    let n = rest.len();
    proof {
        assert(orig.skip(0) =~= orig);
        assert(ts.take(0) =~= Seq::<TypeTreeV>::empty());
        assert(trees_view(prims@) =~= Seq::<TypeTreeV>::empty());
        assert(trees_view(bodies@) =~= Seq::<TypeTreeV>::empty());
    }
    for i in 0..n
        invariant
            n == orig.len(),
            ts == arg_trees(fn_args_view(orig)),
            ts.len() == n,
            rest@ == orig.skip(i as int),
            forall|k: int| 0 <= k < n ==> split_arg_ok(#[trigger] tree_view(orig[k].ty)),
            (trees_view(prims@), trees_view(bodies@)) == path_split(ts.take(i as int)),
    {
        let arg = rest.remove(0);
        proof {
            assert(arg == orig[i as int]);
            assert(rest@ =~= orig.skip(i + 1));
            assert(ts[i as int] == tree_view(arg.ty));
            assert(ts.take(i + 1).drop_last() =~= ts.take(i as int));
            assert(ts.take(i + 1).last() == tree_view(arg.ty));
            assert(split_arg_ok(tree_view(orig[i as int].ty)));
        }
        let ghost tv = tree_view(arg.ty);
        let is_path = arg.ty.is("Path");
        if is_path {
            match arg.ty.children {
                Some(c) => {
                    push_path_primitives(&mut prims, c);
                },
                None => {},
            }
        } else if arg.ty.is("Json") || arg.ty.is("Form") || arg.ty.is("Bytes") {
            proof {
                lemma_trees_view_push(bodies@, arg.ty);
            }
            bodies.push(arg.ty);
        }
    }
    proof {
        assert(ts.take(n as int) =~= ts);
    }
    (prims, bodies)
}

/// What reading the arguments of a handler needs: no internal expectation
/// fails on the way.
pub open spec fn resolve_ready(vs: Seq<(TypeTreeV, ArgTypeV)>) -> bool {
    forall|i: int|
        0 <= i < vs.len() ==> {
            let t = (#[trigger] vs[i]).0;
            &&& into_params_ready(t)
            &&& is_into_params_view(t) ==> tree_paths_ok(t) && has_children(t)
            &&& !is_into_params_view(t) ==> split_arg_ok(t)
        }
}

/// What reading the arguments of an actix-web handler needs.
pub open spec fn actix_args_ok(args: Seq<HandlerArg>) -> bool {
    match fn_args_outcome(args) {
        Outcome::Done(vs) => resolve_ready(vs),
        Outcome::Fail(_) => true,
        Outcome::Abort => false,
    }
}

proof fn lemma_partition_ready(vs: Seq<(TypeTreeV, ArgTypeV)>, into: bool)
    requires
        resolve_ready(vs),
    ensures
        resolve_ready(partition_args(vs, into)),
        forall|j: int|
            0 <= j < partition_args(vs, into).len() ==> is_into_params_view(
                (#[trigger] partition_args(vs, into)[j]).0,
            ) == into,
    decreases vs.len(),
{
    if vs.len() > 0 {
        let front = vs.drop_last();
        assert forall|i: int| 0 <= i < front.len() implies {
            let t = (#[trigger] front[i]).0;
            &&& into_params_ready(t)
            &&& is_into_params_view(t) ==> tree_paths_ok(t) && has_children(t)
            &&& !is_into_params_view(t) ==> split_arg_ok(t)
        } by {
            assert(front[i] == vs[i]);
        }
        lemma_partition_ready(front, into);
        let p = partition_args(vs, into);
        let pf = partition_args(front, into);
        assert(vs[vs.len() - 1] == vs.last());
        assert forall|j: int| 0 <= j < p.len() implies {
            let t = (#[trigger] p[j]).0;
            &&& into_params_ready(t)
            &&& is_into_params_view(t) ==> tree_paths_ok(t) && has_children(t)
            &&& !is_into_params_view(t) ==> split_arg_ok(t)
        } && is_into_params_view(p[j].0) == into by {
            if j < pf.len() {
                assert(p[j] == pf[j]);
            } else {
                assert(p[j] == vs.last());
            }
        }
    }
}

/// The value arguments of the primitives, named by the path's arguments in
/// order (a query argument gives no name); as many as the shorter of the two.
pub open spec fn zip_named(
    ms: Seq<(bool, Seq<char>, Seq<char>)>,
    ps: Seq<TypeTreeV>,
) -> Seq<(Option<Seq<char>>, ArgumentIn, Option<TypeTreeV>)> {
    Seq::new(
        if ms.len() < ps.len() {
            ms.len()
        } else {
            ps.len()
        },
        |j: int|
            (
                if ms[j].0 {
                    None
                } else {
                    Some(ms[j].1)
                },
                ArgumentIn::Path,
                Some(ps[j]),
            ),
    )
}

/// The first tree, if any.
pub open spec fn first_tree(s: Seq<TypeTreeV>) -> Option<TypeTreeV> {
    if s.len() > 0 {
        Some(s[0])
    } else {
        None
    }
}

fn name_of(arg: MacroArg) -> (res: Option<String>)
    ensures
        opt_str_view(res) == if arg_view(arg).0 {
            None
        } else {
            Some(arg_view(arg).1)
        },
{
    match arg {
        MacroArg::Path(p) => Some(p.name),
        MacroArg::Query(_) => None,
    }
}

/// Names the primitives by the path's arguments, in order.
pub fn into_value_arguments(macro_args: Vec<MacroArg>, primitives: Vec<TypeTree>) -> (res: Vec<ValueArgument>)
    ensures
        res@.map_values(|v: ValueArgument| value_argument_view(v)) == zip_named(
            crate::ext::args_view(macro_args@),
            trees_view(primitives@),
        ),
{
    let ghost ms = crate::ext::args_view(macro_args@);
    let ghost ps = trees_view(primitives@);
    let ghost morig = macro_args@;
    let ghost porig = primitives@;
    let mut margs = macro_args;
    let mut prims = primitives;
    let mut out: Vec<ValueArgument> = Vec::new();
    let k = if margs.len() < prims.len() {
        margs.len()
    } else {
        prims.len()
    };
    proof {
        lemma_trees_view(porig);
        assert(morig.skip(0) =~= morig);
        assert(porig.skip(0) =~= porig);
        assert(out@.map_values(|v: ValueArgument| value_argument_view(v)) =~= zip_named(ms, ps).take(0));
    }
    for i in 0..k
        invariant
            k == zip_named(ms, ps).len(),
            k <= morig.len(),
            k <= porig.len(),
            ms == crate::ext::args_view(morig),
            ps == trees_view(porig),
            ps.len() == porig.len(),
            forall|j: int| 0 <= j < porig.len() ==> #[trigger] ps[j] == tree_view(porig[j]),
            margs@ == morig.skip(i as int),
            prims@ == porig.skip(i as int),
            out@.map_values(|v: ValueArgument| value_argument_view(v)) == zip_named(ms, ps).take(i as int),
    {
        let m = margs.remove(0);
        let p = prims.remove(0);
        proof {
            assert(m == morig[i as int]);
            assert(p == porig[i as int]);
            assert(margs@ =~= morig.skip(i + 1));
            assert(prims@ =~= porig.skip(i + 1));
            assert(ms[i as int] == arg_view(m));
        }
        let ghost before = out@;
        let v = ValueArgument { name: name_of(m), argument_in: ArgumentIn::Path, type_tree: Some(p) };
        let ghost vv = value_argument_view(v);
        out.push(v);
        proof {
            assert(vv == zip_named(ms, ps)[i as int]);
            assert(out@.map_values(|v: ValueArgument| value_argument_view(v)) =~= before.map_values(
                |v: ValueArgument| value_argument_view(v),
            ).push(vv));
            assert(zip_named(ms, ps).take(i + 1) =~= zip_named(ms, ps).take(i as int).push(vv));
        }
    }
    proof {
        assert(zip_named(ms, ps).take(k as int) =~= zip_named(ms, ps));
    }
    out
}

/// The resolved arguments of a handler: the value arguments, the
/// into-params types, and the request body.
pub struct Arguments {
    pub values: Option<Vec<ValueArgument>>,
    pub into_params: Option<Vec<IntoParamsType>>,
    pub body: Option<TypeTree>,
}

/// Resolves the arguments of an actix-web handler: the into-params
/// arguments give into-params types; the primitives in `Path` arguments,
/// named by the path's arguments, give the value arguments (none without
/// a path); the first `Json`, `Form` or `Bytes` argument is the body.
pub fn actix_resolve_arguments(fn_args: &Vec<HandlerArg>, macro_args: Option<Vec<MacroArg>>) -> (res: Result<Arguments, Diagnostics>)
    requires
        actix_args_ok(fn_args@),
    ensures
        match res {
            Err(d) => fn_args_outcome(fn_args@) is Fail && is_error(d, fn_args_outcome(fn_args@)->Fail_0),
            Ok(a) => fn_args_outcome(fn_args@) is Done && {
                let vs = fn_args_outcome(fn_args@)->Done_0;
                let (prims, bodies) = path_split(arg_trees(partition_args(vs, false)));
                &&& a.into_params is Some
                &&& a.into_params->Some_0@.map_values(|t: IntoParamsType| into_params_type_view(t))
                    == into_params_all(partition_args(vs, true))
                &&& opt_tree_view(a.body) == first_tree(bodies)
                &&& match macro_args {
                    Some(m) => a.values is Some && a.values->Some_0@.map_values(
                        |v: ValueArgument| value_argument_view(v),
                    ) == zip_named(crate::ext::args_view(m@), prims),
                    None => a.values is None,
                }
            },
        },
{
    let args = get_fn_args(fn_args)?;
    let ghost vs = fn_args_view(args@);
    proof {
        lemma_partition_ready(vs, true);
        lemma_partition_ready(vs, false);
        assert forall|i: int| 0 <= i < args@.len() implies into_params_ready(#[trigger] tree_view(args@[i].ty)) by {
            assert(vs[i].0 == tree_view(args@[i].ty));
        }
    }
    let (into_params_args, value_args) = partition_into_params(args);
    proof {
        let ip = partition_args(vs, true);
        let va = partition_args(vs, false);
        assert forall|i: int| 0 <= i < into_params_args@.len() implies tree_paths_ok(#[trigger] tree_view(into_params_args@[i].ty))
            && has_children(tree_view(into_params_args@[i].ty)) by {
            assert(fn_args_view(into_params_args@)[i] == ip[i]);
        }
        assert forall|i: int| 0 <= i < value_args@.len() implies split_arg_ok(#[trigger] tree_view(value_args@[i].ty)) by {
            assert(fn_args_view(value_args@)[i] == va[i]);
        }
    }
    let (primitives, bodies) = split_path_args_and_request(value_args);
    let ips = into_params_types(into_params_args);
    let body = if bodies.len() > 0 {
        let mut bodies = bodies;
        proof {
            lemma_trees_view(bodies@);
        }
        Some(bodies.remove(0))
    } else {
        None
    };
    let values = match macro_args {
        Some(m) => Some(into_value_arguments(m, primitives)),
        None => None,
    };
    Ok(Arguments { values, into_params: Some(ips), body })
}

/// The value arguments of the type arguments of an axum `Path` argument with
/// a single name: a primitive is named by it, the elements of a tuple are
/// unnamed.
pub open spec fn single_values(cs: Seq<TypeTreeV>, name: Seq<char>) -> Seq<(Option<Seq<char>>, TypeTreeV)>
    decreases cs.len(),
{
    if cs.len() == 0 {
        Seq::empty()
    } else {
        single_values(cs.drop_last(), name) + if cs.last().value_type == ValueType::Tuple {
            cs.last().children->Some_0.map_values(|x: TypeTreeV| (None::<Seq<char>>, x))
        } else if cs.last().value_type == ValueType::Primitive {
            seq![(Some(name), cs.last())]
        } else {
            Seq::empty()
        }
    }
}

/// The children of the trees, joined in order.
pub open spec fn flat_children(cs: Seq<TypeTreeV>) -> Seq<TypeTreeV>
    decreases cs.len(),
{
    if cs.len() == 0 {
        Seq::empty()
    } else {
        flat_children(cs.drop_last()) + match cs.last().children {
            Some(c) => c,
            None => Seq::empty(),
        }
    }
}

/// The names paired with the elements of the type arguments, in order; as
/// many as the shorter of the two.
pub open spec fn destructed_values(names: Seq<Seq<char>>, cs: Seq<TypeTreeV>) -> Seq<(Option<Seq<char>>, TypeTreeV)> {
    let flat = flat_children(cs);
    Seq::new(
        if names.len() < flat.len() {
            names.len()
        } else {
            flat.len()
        },
        |j: int| (Some(names[j]), flat[j]),
    )
}

/// The value arguments of an axum `Path` argument.
pub open spec fn path_values(t: TypeTreeV, at: ArgTypeV) -> Seq<(Option<Seq<char>>, TypeTreeV)> {
    match at {
        ArgTypeV::Single(n) => single_values(t.children->Some_0, n),
        ArgTypeV::Destructed(ns) => destructed_values(ns, t.children->Some_0),
    }
}

/// What reading an axum value argument needs: named paths, and for `Path`,
/// type arguments that are primitives or tuples with elements (with a single
/// name), or that have elements (with names taken apart).
pub open spec fn axum_arg_ok(t: TypeTreeV, at: ArgTypeV) -> bool {
    &&& tree_paths_ok(t)
    &&& tree_is(t, "Path"@) ==> t.children is Some && match at {
        ArgTypeV::Single(_) => forall|j: int|
            0 <= j < t.children->Some_0.len() ==> {
                let c = #[trigger] t.children->Some_0[j];
                c.value_type == ValueType::Primitive || (c.value_type == ValueType::Tuple
                    && c.children is Some)
            },
        ArgTypeV::Destructed(_) => forall|j: int|
            0 <= j < t.children->Some_0.len() ==> (#[trigger] t.children->Some_0[j]).children is Some,
    }
}

/// The value arguments of the `Path` arguments, and the body arguments,
/// each in order.
pub open spec fn axum_split(vs: Seq<(TypeTreeV, ArgTypeV)>) -> (Seq<(Option<Seq<char>>, TypeTreeV)>, Seq<TypeTreeV>)
    decreases vs.len(),
{
    if vs.len() == 0 {
        (Seq::empty(), Seq::empty())
    } else {
        let (vals, bs) = axum_split(vs.drop_last());
        let (t, at) = vs.last();
        if tree_is(t, "Path"@) {
            (vals + path_values(t, at), bs)
        } else if is_request_arg(t) {
            (vals, bs.push(t))
        } else {
            (vals, bs)
        }
    }
}

/// A value argument in the path, by its name and type.
pub open spec fn path_value_view(p: (Option<Seq<char>>, TypeTreeV)) -> (Option<Seq<char>>, ArgumentIn, Option<TypeTreeV>) {
    (p.0, ArgumentIn::Path, Some(p.1))
}

/// A value argument in the path.
pub fn to_value_argument(name: Option<String>, ty: TypeTree) -> (res: ValueArgument)
    ensures
        value_argument_view(res) == path_value_view((opt_str_view(name), tree_view(ty))),
{
    ValueArgument { name, type_tree: Some(ty), argument_in: ArgumentIn::Path }
}

/// The views of value arguments.
pub open spec fn values_view(s: Seq<ValueArgument>) -> Seq<(Option<Seq<char>>, ArgumentIn, Option<TypeTreeV>)> {
    s.map_values(|v: ValueArgument| value_argument_view(v))
}

/// The views of value arguments grow one by one.
pub proof fn lemma_values_push(s: Seq<ValueArgument>, v: ValueArgument)
    ensures
        values_view(s.push(v)) == values_view(s).push(value_argument_view(v)),
{
    assert(values_view(s.push(v)) =~= values_view(s).push(value_argument_view(v)));
}

fn push_single_values(dst: &mut Vec<ValueArgument>, children: Vec<TypeTree>, name: &String)
    requires
        forall|j: int|
            0 <= j < trees_view(children@).len() ==> {
                let c = #[trigger] trees_view(children@)[j];
                c.value_type == ValueType::Primitive || (c.value_type == ValueType::Tuple
                    && c.children is Some)
            },
    ensures
        values_view(final(dst)@) == values_view(old(dst)@) + single_values(trees_view(children@), name@).map_values(
            |p: (Option<Seq<char>>, TypeTreeV)| path_value_view(p),
        ),
{
    let ghost orig = children@;
    let ghost cv = trees_view(orig);
    let ghost start = values_view(dst@);
    let mut rest = children;
    let n = rest.len();
    proof {
        lemma_trees_view(orig);
        assert(orig.skip(0) =~= orig);
        assert(cv.take(0) =~= Seq::<TypeTreeV>::empty());
        assert(start + Seq::<(Option<Seq<char>>, ArgumentIn, Option<TypeTreeV>)>::empty() =~= start);
    }
    for i in 0..n
        invariant
            n == orig.len(),
            cv == trees_view(orig),
            cv.len() == n,
            rest@ == orig.skip(i as int),
            forall|k: int| 0 <= k < n ==> #[trigger] cv[k] == tree_view(orig[k]),
            forall|j: int|
                0 <= j < cv.len() ==> {
                    let c = #[trigger] cv[j];
                    c.value_type == ValueType::Primitive || (c.value_type == ValueType::Tuple
                        && c.children is Some)
                },
            values_view(dst@) == start + single_values(cv.take(i as int), name@).map_values(
                |p: (Option<Seq<char>>, TypeTreeV)| path_value_view(p),
            ),
    {
        let c = rest.remove(0);
        proof {
            assert(c == orig[i as int]);
            assert(rest@ =~= orig.skip(i + 1));
            assert(cv[i as int] == tree_view(c));
            assert(cv.take(i + 1).drop_last() =~= cv.take(i as int));
            assert(cv.take(i + 1).last() == tree_view(c));
        }
        let ghost before = values_view(dst@);
        let ghost prefix = single_values(cv.take(i as int), name@);
        match c.value_type {
            ValueType::Tuple => {
                match c.children {
                    Some(gs) => {
                        let ghost gorig = gs@;
                        let ghost gv = trees_view(gorig);
                        let mut grest = gs;
                        let m = grest.len();
                        proof {
                            lemma_trees_view(gorig);
                            assert(gorig.skip(0) =~= gorig);
                            assert(before =~= before + gv.take(0).map_values(
                                |x: TypeTreeV| (None::<Seq<char>>, x),
                            ).map_values(|p: (Option<Seq<char>>, TypeTreeV)| path_value_view(p)));
                        }
                        for k in 0..m
                            invariant
                                m == gorig.len(),
                                gv == trees_view(gorig),
                                gv.len() == m,
                                grest@ == gorig.skip(k as int),
                                forall|q: int| 0 <= q < m ==> #[trigger] gv[q] == tree_view(gorig[q]),
                                values_view(dst@) == before + gv.take(k as int).map_values(
                                    |x: TypeTreeV| (None::<Seq<char>>, x),
                                ).map_values(|p: (Option<Seq<char>>, TypeTreeV)| path_value_view(p)),
                        {
                            let g = grest.remove(0);
                            proof {
                                assert(g == gorig[k as int]);
                                assert(grest@ =~= gorig.skip(k + 1));
                            }
                            let v = to_value_argument(None, g);
                            proof {
                                lemma_values_push(dst@, v);
                                assert(gv.take(k + 1).map_values(|x: TypeTreeV| (None::<Seq<char>>, x)).map_values(
                                    |p: (Option<Seq<char>>, TypeTreeV)| path_value_view(p),
                                ) =~= gv.take(k as int).map_values(|x: TypeTreeV| (None::<Seq<char>>, x)).map_values(
                                    |p: (Option<Seq<char>>, TypeTreeV)| path_value_view(p),
                                ).push(value_argument_view(v)));
                            }
                            dst.push(v);
                        }
                        proof {
                            assert(gv.take(m as int) =~= gv);
                            assert(single_values(cv.take(i + 1), name@) == prefix + gv.map_values(
                                |x: TypeTreeV| (None::<Seq<char>>, x),
                            ));
                            assert(values_view(dst@) =~= start + single_values(cv.take(i + 1), name@).map_values(
                                |p: (Option<Seq<char>>, TypeTreeV)| path_value_view(p),
                            ));
                        }
                    },
                    None => {},
                }
            },
            _ => {
                let v = to_value_argument(Some(name.clone()), c);
                proof {
                    lemma_values_push(dst@, v);
                }
                dst.push(v);
                proof {
                    assert(values_view(dst@) =~= start + single_values(cv.take(i + 1), name@).map_values(
                        |p: (Option<Seq<char>>, TypeTreeV)| path_value_view(p),
                    ));
                }
            },
        }
    }
    proof {
        assert(cv.take(n as int) =~= cv);
    }
}

fn flatten_children(children: Vec<TypeTree>) -> (res: Vec<TypeTree>)
    ensures
        trees_view(res@) == flat_children(trees_view(children@)),
{
    let ghost orig = children@;
    let ghost cv = trees_view(orig);
    let mut rest = children;
    let mut out: Vec<TypeTree> = Vec::new();
    let n = rest.len();
    proof {
        lemma_trees_view(orig);
        assert(orig.skip(0) =~= orig);
        assert(cv.take(0) =~= Seq::<TypeTreeV>::empty());
        assert(trees_view(out@) =~= Seq::<TypeTreeV>::empty());
    }
    for i in 0..n
        invariant
            n == orig.len(),
            cv == trees_view(orig),
            cv.len() == n,
            rest@ == orig.skip(i as int),
            forall|k: int| 0 <= k < n ==> #[trigger] cv[k] == tree_view(orig[k]),
            trees_view(out@) == flat_children(cv.take(i as int)),
    {
        let c = rest.remove(0);
        proof {
            assert(c == orig[i as int]);
            assert(rest@ =~= orig.skip(i + 1));
            assert(cv.take(i + 1).drop_last() =~= cv.take(i as int));
            assert(cv.take(i + 1).last() == tree_view(c));
        }
        match c.children {
            Some(gs) => {
                push_all(&mut out, gs);
            },
            None => {
                proof {
                    assert(trees_view(out@) =~= trees_view(out@) + Seq::<TypeTreeV>::empty());
                }
            },
        }
    }
    proof {
        assert(cv.take(n as int) =~= cv);
    }
    out
}

fn push_destructed_values(dst: &mut Vec<ValueArgument>, names: Vec<String>, children: Vec<TypeTree>)
    ensures
        values_view(final(dst)@) == values_view(old(dst)@) + destructed_values(
            names@.map_values(|s: String| s@),
            trees_view(children@),
        ).map_values(|p: (Option<Seq<char>>, TypeTreeV)| path_value_view(p)),
{
    let ghost nv = names@.map_values(|s: String| s@);
    let ghost dv = destructed_values(nv, trees_view(children@)).map_values(
        |p: (Option<Seq<char>>, TypeTreeV)| path_value_view(p),
    );
    let flat = flatten_children(children);
    let ghost forig = flat@;
    let ghost fv = trees_view(forig);
    let ghost norig = names@;
    let ghost start = values_view(dst@);
    let mut ns = names;
    let mut fs = flat;
    let k = if ns.len() < fs.len() {
        ns.len()
    } else {
        fs.len()
    };
    proof {
        lemma_trees_view(forig);
        assert(norig.skip(0) =~= norig);
        assert(forig.skip(0) =~= forig);
        assert(start =~= start + dv.take(0));
    }
    for i in 0..k
        invariant
            k == dv.len(),
            k <= norig.len(),
            k <= forig.len(),
            nv == norig.map_values(|s: String| s@),
            fv == trees_view(forig),
            fv.len() == forig.len(),
            forall|q: int| 0 <= q < forig.len() ==> #[trigger] fv[q] == tree_view(forig[q]),
            dv == destructed_values(nv, trees_view(children@)).map_values(
                |p: (Option<Seq<char>>, TypeTreeV)| path_value_view(p),
            ),
            fv == flat_children(trees_view(children@)),
            ns@ == norig.skip(i as int),
            fs@ == forig.skip(i as int),
            values_view(dst@) == start + dv.take(i as int),
    {
        let n = ns.remove(0);
        let f = fs.remove(0);
        proof {
            assert(n == norig[i as int]);
            assert(f == forig[i as int]);
            assert(ns@ =~= norig.skip(i + 1));
            assert(fs@ =~= forig.skip(i + 1));
        }
        let v = to_value_argument(Some(n), f);
        proof {
            lemma_values_push(dst@, v);
            assert(value_argument_view(v) == dv[i as int]);
            assert(dv.take(i + 1) =~= dv.take(i as int).push(dv[i as int]));
        }
        dst.push(v);
    }
    proof {
        assert(dv.take(k as int) =~= dv);
    }
}

/// Splits the value arguments of an axum handler: the value arguments that
/// the `Path` arguments give, and the `Json`, `Form` and `Bytes` arguments,
/// each in order; other arguments are left out.
pub fn split_value_args_and_request_body(value_args: Vec<FnArg>) -> (res: (Vec<ValueArgument>, Vec<TypeTree>))
    requires
        forall|i: int|
            0 <= i < value_args@.len() ==> axum_arg_ok(
                #[trigger] tree_view(value_args@[i].ty),
                arg_type_view(value_args@[i].arg_type),
            ),
    ensures
        values_view(res.0@) == axum_split(fn_args_view(value_args@)).0.map_values(
            |p: (Option<Seq<char>>, TypeTreeV)| path_value_view(p),
        ),
        trees_view(res.1@) == axum_split(fn_args_view(value_args@)).1,
{
    let ghost orig = value_args@;
    let ghost vs = fn_args_view(orig);
    let mut rest = value_args;
    let mut vals: Vec<ValueArgument> = Vec::new();
    let mut bodies: Vec<TypeTree> = Vec::new();
    let n = rest.len();
    proof {
        assert(orig.skip(0) =~= orig);
        assert(vs.take(0) =~= Seq::<(TypeTreeV, ArgTypeV)>::empty());
        assert(values_view(vals@) =~= Seq::empty());
        assert(trees_view(bodies@) =~= Seq::<TypeTreeV>::empty());
    }
    for i in 0..n
        invariant
            n == orig.len(),
            vs == fn_args_view(orig),
            vs.len() == n,
            rest@ == orig.skip(i as int),
            forall|k: int|
                0 <= k < n ==> axum_arg_ok(
                    #[trigger] tree_view(orig[k].ty),
                    arg_type_view(orig[k].arg_type),
                ),
            values_view(vals@) == axum_split(vs.take(i as int)).0.map_values(
                |p: (Option<Seq<char>>, TypeTreeV)| path_value_view(p),
            ),
            trees_view(bodies@) == axum_split(vs.take(i as int)).1,
    {
        let arg = rest.remove(0);
        proof {
            assert(arg == orig[i as int]);
            assert(rest@ =~= orig.skip(i + 1));
            assert(vs[i as int] == fn_arg_view(arg));
            assert(vs.take(i + 1).drop_last() =~= vs.take(i as int));
            assert(vs.take(i + 1).last() == fn_arg_view(arg));
            assert(axum_arg_ok(tree_view(orig[i as int].ty), arg_type_view(orig[i as int].arg_type)));
        }
        let ghost tv = tree_view(arg.ty);
        let ghost atv = arg_type_view(arg.arg_type);
        let ghost prev = axum_split(vs.take(i as int));
        if arg.ty.is("Path") {
            let ghost before = values_view(vals@);
            match arg.ty.children {
                Some(c) => {
                    match arg.arg_type {
                        FnArgType::Single(name) => {
                            push_single_values(&mut vals, c, &name);
                        },
                        FnArgType::Destructed(names) => {
                            push_destructed_values(&mut vals, names, c);
                        },
                    }
                    proof {
                        assert(path_values(tv, atv).map_values(
                            |p: (Option<Seq<char>>, TypeTreeV)| path_value_view(p),
                        ) == values_view(vals@).skip(before.len() as int));
                        assert(axum_split(vs.take(i + 1)).0 == prev.0 + path_values(tv, atv));
                        assert(values_view(vals@) =~= (prev.0 + path_values(tv, atv)).map_values(
                            |p: (Option<Seq<char>>, TypeTreeV)| path_value_view(p),
                        ));
                    }
                },
                None => {},
            }
        } else if arg.ty.is("Json") || arg.ty.is("Form") || arg.ty.is("Bytes") {
            proof {
                lemma_trees_view_push(bodies@, arg.ty);
            }
            bodies.push(arg.ty);
        }
    }
    proof {
        assert(vs.take(n as int) =~= vs);
    }
    (vals, bodies)
}

/// What reading the arguments of an axum handler needs.
pub open spec fn axum_args_ok(args: Seq<HandlerArg>) -> bool {
    match fn_args_outcome(args) {
        Outcome::Done(vs) => forall|i: int|
            0 <= i < vs.len() ==> {
                let (t, at) = #[trigger] vs[i];
                &&& into_params_ready(t)
                &&& is_into_params_view(t) ==> tree_paths_ok(t) && has_children(t)
                &&& !is_into_params_view(t) ==> axum_arg_ok(t, at)
            },
        Outcome::Fail(_) => true,
        Outcome::Abort => false,
    }
}

/// The value arguments of an axum handler: each value argument of the path
/// arguments, named by the path's argument at the same position (a query
/// argument gives no name); as many as the shorter of the two.
pub open spec fn zip_axum(
    vals: Seq<(Option<Seq<char>>, TypeTreeV)>,
    ms: Seq<(bool, Seq<char>, Seq<char>)>,
) -> Seq<(Option<Seq<char>>, ArgumentIn, Option<TypeTreeV>)> {
    Seq::new(
        if vals.len() < ms.len() {
            vals.len()
        } else {
            ms.len()
        },
        |j: int|
            (
                if ms[j].0 {
                    None
                } else {
                    Some(ms[j].1)
                },
                ArgumentIn::Path,
                Some(vals[j].1),
            ),
    )
}

proof fn lemma_partition_axum(vs: Seq<(TypeTreeV, ArgTypeV)>, into: bool)
    requires
        forall|i: int|
            0 <= i < vs.len() ==> {
                let (t, at) = #[trigger] vs[i];
                &&& into_params_ready(t)
                &&& is_into_params_view(t) ==> tree_paths_ok(t) && has_children(t)
                &&& !is_into_params_view(t) ==> axum_arg_ok(t, at)
            },
    ensures
        forall|j: int|
            0 <= j < partition_args(vs, into).len() ==> {
                let (t, at) = #[trigger] partition_args(vs, into)[j];
                &&& into_params_ready(t)
                &&& is_into_params_view(t) == into
                &&& into ==> tree_paths_ok(t) && has_children(t)
                &&& !into ==> axum_arg_ok(t, at)
            },
    decreases vs.len(),
{
    if vs.len() > 0 {
        let front = vs.drop_last();
        assert forall|i: int| 0 <= i < front.len() implies {
            let (t, at) = #[trigger] front[i];
            &&& into_params_ready(t)
            &&& is_into_params_view(t) ==> tree_paths_ok(t) && has_children(t)
            &&& !is_into_params_view(t) ==> axum_arg_ok(t, at)
        } by {
            assert(front[i] == vs[i]);
        }
        lemma_partition_axum(front, into);
        let p = partition_args(vs, into);
        let pf = partition_args(front, into);
        assert(vs[vs.len() - 1] == vs.last());
        assert forall|j: int| 0 <= j < p.len() implies {
            let (t, at) = #[trigger] p[j];
            &&& into_params_ready(t)
            &&& is_into_params_view(t) == into
            &&& into ==> tree_paths_ok(t) && has_children(t)
            &&& !into ==> axum_arg_ok(t, at)
        } by {
            if j < pf.len() {
                assert(p[j] == pf[j]);
            } else {
                assert(p[j] == vs.last());
            }
        }
    }
}

fn rename_values(values: Vec<ValueArgument>, macro_args: Vec<MacroArg>) -> (res: Vec<ValueArgument>)
    requires
        forall|j: int| 0 <= j < values@.len() ==> (#[trigger] values@[j]).argument_in == ArgumentIn::Path
            && values@[j].type_tree is Some,
    ensures
        values_view(res@) == zip_axum(
            values_view(values@).map_values(
                |v: (Option<Seq<char>>, ArgumentIn, Option<TypeTreeV>)| (v.0, v.2->Some_0),
            ),
            crate::ext::args_view(macro_args@),
        ),
{
    let ghost vorig = values@;
    let ghost morig = macro_args@;
    let ghost target = zip_axum(
        values_view(vorig).map_values(
            |v: (Option<Seq<char>>, ArgumentIn, Option<TypeTreeV>)| (v.0, v.2->Some_0),
        ),
        crate::ext::args_view(morig),
    );
    let mut vs = values;
    let mut ms = macro_args;
    let mut out: Vec<ValueArgument> = Vec::new();
    let k = if vs.len() < ms.len() {
        vs.len()
    } else {
        ms.len()
    };
    proof {
        assert(vorig.skip(0) =~= vorig);
        assert(morig.skip(0) =~= morig);
        assert(values_view(out@) =~= target.take(0));
    }
    for i in 0..k
        invariant
            k == target.len(),
            k <= vorig.len(),
            k <= morig.len(),
            target == zip_axum(
                values_view(vorig).map_values(
                    |v: (Option<Seq<char>>, ArgumentIn, Option<TypeTreeV>)| (v.0, v.2->Some_0),
                ),
                crate::ext::args_view(morig),
            ),
            forall|j: int| 0 <= j < vorig.len() ==> (#[trigger] vorig[j]).argument_in == ArgumentIn::Path
                && vorig[j].type_tree is Some,
            vs@ == vorig.skip(i as int),
            ms@ == morig.skip(i as int),
            values_view(out@) == target.take(i as int),
    {
        let v = vs.remove(0);
        let m = ms.remove(0);
        proof {
            assert(v == vorig[i as int]);
            assert(m == morig[i as int]);
            assert(vs@ =~= vorig.skip(i + 1));
            assert(ms@ =~= morig.skip(i + 1));
            assert(crate::ext::args_view(morig)[i as int] == arg_view(m));
            assert(values_view(vorig)[i as int] == value_argument_view(v));
        }
        let r = ValueArgument { name: name_of(m), argument_in: v.argument_in, type_tree: v.type_tree };
        proof {
            lemma_values_push(out@, r);
            assert(value_argument_view(r) == target[i as int]);
            assert(target.take(i + 1) =~= target.take(i as int).push(target[i as int]));
        }
        out.push(r);
    }
    proof {
        assert(target.take(k as int) =~= target);
    }
    out
}

/// Resolves the arguments of an axum handler: the into-params arguments give
/// into-params types; the value arguments of the `Path` arguments, named by
/// the path's arguments in order, give the value arguments; the first
/// `Json`, `Form` or `Bytes` argument is the body.
pub fn axum_resolve_arguments(fn_args: &Vec<HandlerArg>, macro_args: Option<Vec<MacroArg>>) -> (res: Result<Arguments, Diagnostics>)
    requires
        axum_args_ok(fn_args@),
    ensures
        match res {
            Err(d) => fn_args_outcome(fn_args@) is Fail && is_error(d, fn_args_outcome(fn_args@)->Fail_0),
            Ok(a) => fn_args_outcome(fn_args@) is Done && {
                let vs = fn_args_outcome(fn_args@)->Done_0;
                let (vals, bodies) = axum_split(partition_args(vs, false));
                let ms = match macro_args {
                    Some(m) => crate::ext::args_view(m@),
                    None => Seq::empty(),
                };
                &&& a.into_params is Some
                &&& a.into_params->Some_0@.map_values(|t: IntoParamsType| into_params_type_view(t))
                    == into_params_all(partition_args(vs, true))
                &&& opt_tree_view(a.body) == first_tree(bodies)
                &&& a.values is Some
                &&& values_view(a.values->Some_0@) == zip_axum(vals, ms)
            },
        },
{
    let args = get_fn_args(fn_args)?;
    let ghost vs = fn_args_view(args@);
    proof {
        lemma_partition_axum(vs, true);
        lemma_partition_axum(vs, false);
        assert forall|i: int| 0 <= i < args@.len() implies into_params_ready(#[trigger] tree_view(args@[i].ty)) by {
            assert(vs[i].0 == tree_view(args@[i].ty));
        }
    }
    let (into_params_args, value_args) = partition_into_params(args);
    proof {
        let ip = partition_args(vs, true);
        let va = partition_args(vs, false);
        assert forall|i: int| 0 <= i < into_params_args@.len() implies tree_paths_ok(#[trigger] tree_view(into_params_args@[i].ty))
            && has_children(tree_view(into_params_args@[i].ty)) by {
            assert(fn_args_view(into_params_args@)[i] == ip[i]);
        }
        assert forall|i: int| 0 <= i < value_args@.len() implies axum_arg_ok(
            #[trigger] tree_view(value_args@[i].ty),
            arg_type_view(value_args@[i].arg_type),
        ) by {
            assert(fn_args_view(value_args@)[i] == va[i]);
        }
    }
    let ghost va = fn_args_view(value_args@);
    let (values, bodies) = split_value_args_and_request_body(value_args);
    let ghost split_vals = axum_split(va).0;
    proof {
        let mapped = split_vals.map_values(|p: (Option<Seq<char>>, TypeTreeV)| path_value_view(p));
        assert(values_view(values@) == mapped);
        assert(values_view(values@).len() == values@.len());
        assert(mapped.len() == split_vals.len());
        assert forall|j: int| 0 <= j < values@.len() implies (#[trigger] values@[j]).argument_in
            == ArgumentIn::Path && values@[j].type_tree is Some by {
            assert(values_view(values@)[j] == value_argument_view(values@[j]));
            assert(mapped[j] == path_value_view(split_vals[j]));
        }
        assert(values_view(values@).map_values(
            |v: (Option<Seq<char>>, ArgumentIn, Option<TypeTreeV>)| (v.0, v.2->Some_0),
        ) =~= split_vals);
    }
    let ips = into_params_types(into_params_args);
    let body = if bodies.len() > 0 {
        let mut bodies = bodies;
        proof {
            lemma_trees_view(bodies@);
        }
        Some(bodies.remove(0))
    } else {
        None
    };
    let margs = match macro_args {
        Some(m) => m,
        None => Vec::new(),
    };
    proof {
        assert(crate::ext::args_view(Seq::<MacroArg>::empty()) =~= Seq::empty());
    }
    let named = rename_values(values, margs);
    Ok(Arguments { values: Some(named), into_params: Some(ips), body })
}

/// Splitting the arguments into into-params ones and the others keeps every
/// argument, once.
pub proof fn lemma_partition_args_complete(vs: Seq<(TypeTreeV, ArgTypeV)>)
    ensures
        partition_args(vs, true).len() + partition_args(vs, false).len() == vs.len(),
        (partition_args(vs, true) + partition_args(vs, false)).to_multiset() == vs.to_multiset(),
    decreases vs.len(),
{
    broadcast use vstd::seq_lib::group_to_multiset_ensures;
    broadcast use vstd::multiset::group_multiset_axioms;
    if vs.len() == 0 {
        assert(partition_args(vs, true) + partition_args(vs, false) =~= Seq::empty());
        assert(vs =~= Seq::empty());
    } else {
        let front = vs.drop_last();
        lemma_partition_args_complete(front);
        let x = vs.last();
        let pt = partition_args(front, true);
        let pf = partition_args(front, false);
        vstd::seq_lib::lemma_multiset_commutative(pt, pf);
        assert(vs =~= front.push(x));
        if is_into_params_view(x.0) {
            assert(partition_args(vs, true) =~= pt.push(x));
            assert(partition_args(vs, false) =~= pf);
            vstd::seq_lib::lemma_multiset_commutative(pt.push(x), pf);
            vstd::seq_lib::lemma_multiset_commutative(pt, pf);
            assert((pt.push(x) + pf).to_multiset() =~= pt.to_multiset().insert(x).add(pf.to_multiset()));
        } else {
            assert(partition_args(vs, true) =~= pt);
            assert(partition_args(vs, false) =~= pf.push(x));
            vstd::seq_lib::lemma_multiset_commutative(pt, pf.push(x));
            assert((pt + pf.push(x)) =~= (pt + pf).push(x));
        }
    }
}

} // verus!
