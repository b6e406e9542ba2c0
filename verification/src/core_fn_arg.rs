//! The handler arguments of the core crate: each typed argument by its
//! name and its core type tree, and which of them are `IntoParams`
//! extractors.
use vstd::prelude::*;

use crate::component_type::TypeFeatures;
use crate::core_type_tree::{
    lemma_from_type_paths_ok, paths_ok, spec_from_type, tree_is, tree_view, trees_view, TypeTree,
    TypeTreeV, ValueType,
};
use crate::fn_arg::{opt_path_view, HandlerArg, ParameterInProvider, Pat};
use crate::rust_type::{clone_path, type_view, TypePath};

verus! {

/// A handler argument: its type tree and its name.
pub struct FnArg {
    pub ty: TypeTree,
    pub name: String,
}

/// The view of an [`FnArg`].
pub open spec fn fn_arg_view(a: FnArg) -> (TypeTreeV, Seq<char>) {
    (tree_view(a.ty), a.name@)
}

/// The name that a pattern binds: a name, or that of the first pattern of
/// a tuple struct pattern; `None` for any other pattern.
pub open spec fn pat_ident(p: Pat) -> Option<Seq<char>>
    decreases p,
{
    match p {
        Pat::Ident(n) => Some(n@),
        Pat::TupleStruct(v) => if v@.len() > 0 {
            pat_ident(v@[0])
        } else {
            None
        },
        _ => None,
    }
}

/// Whether an argument can be read: it is typed, its pattern binds a name
/// and its type reads as a type tree.
pub open spec fn arg_ok(a: HandlerArg, f: TypeFeatures) -> bool {
    match a {
        HandlerArg::Typed(pt) => pat_ident(pt.pat) is Some && spec_from_type(type_view(pt.ty), f) is Some,
        HandlerArg::Receiver => false,
    }
}

/// The view of what an argument reads as.
pub open spec fn arg_reading(a: HandlerArg, f: TypeFeatures) -> (TypeTreeV, Seq<char>) {
    match a {
        HandlerArg::Typed(pt) => (spec_from_type(type_view(pt.ty), f)->Some_0, pat_ident(pt.pat)->Some_0),
        HandlerArg::Receiver => (arbitrary(), arbitrary()),
    }
}

/// The name that the pattern binds.
fn get_pat_ident(pat: &Pat) -> (res: String)
    requires
        pat_ident(*pat) is Some,
    ensures
        res@ == pat_ident(*pat)->Some_0,
    decreases *pat,
{
    match pat {
        Pat::Ident(n) => n.clone(),
        Pat::TupleStruct(v) => {
            assert(decreases_to!(*pat => *v));
            assert(decreases_to!(*v => v@));
            assert(decreases_to!(v@ => v@[0]));
            get_pat_ident(&v[0])
        },
        _ => vstd::pervasive::unreached(),
    }
}

/// Reads each argument by its type tree and the name its pattern binds.
pub fn get_fn_args(fn_args: &Vec<HandlerArg>, features: TypeFeatures) -> (res: Vec<FnArg>)
    requires
        forall|i: int| 0 <= i < fn_args@.len() ==> arg_ok(#[trigger] fn_args@[i], features),
    ensures
        res@.len() == fn_args@.len(),
        forall|i: int| 0 <= i < res@.len() ==> #[trigger] fn_arg_view(res@[i]) == arg_reading(fn_args@[i], features),
{
    let n = fn_args.len();
    let mut out: Vec<FnArg> = Vec::new();
    for i in 0..n
        invariant
            n == fn_args@.len(),
            forall|j: int| 0 <= j < n ==> arg_ok(#[trigger] fn_args@[j], features),
            out@.len() == i,
            forall|j: int| 0 <= j < i ==> #[trigger] fn_arg_view(out@[j]) == arg_reading(fn_args@[j], features),
    {
        assert(arg_ok(fn_args@[i as int], features));
        match &fn_args[i] {
            HandlerArg::Typed(pt) => {
                let name = get_pat_ident(&pt.pat);
                let ty = TypeTree::from_type(&pt.ty, features);
                out.push(FnArg { ty, name });
            },
            HandlerArg::Receiver => {
                proof {
                    assert(false);
                }
            },
        }
    }
    out
}

/// Where the parameters of an argument go: the path for a `Path`
/// extractor, the query for a `Query` extractor, else unknown.
pub open spec fn provider_of(t: TypeTreeV) -> ParameterInProvider {
    if tree_is(t, "Path"@) {
        ParameterInProvider::Path
    } else if tree_is(t, "Query"@) {
        ParameterInProvider::Query
    } else {
        ParameterInProvider::Unknown
    }
}

/// The extractor's type argument and where its parameters go.
pub fn with_parameter_in(arg: FnArg) -> (res: Option<(Option<TypePath>, ParameterInProvider)>)
    requires
        paths_ok(tree_view(arg.ty)),
        tree_view(arg.ty).children matches Some(cs) && cs.len() > 0,
    ensures
        res matches Some((p, provider)) && provider == provider_of(tree_view(arg.ty)) && opt_path_view(p)
            == tree_view(arg.ty).children->Some_0[0].path,
{
    let provider = if arg.ty.is("Path") {
        ParameterInProvider::Path
    } else if arg.ty.is("Query") {
        ParameterInProvider::Query
    } else {
        ParameterInProvider::Unknown
    };
    let ghost tv = tree_view(arg.ty);
    match &arg.ty.children {
        Some(cs) => {
            proof {
                crate::core_type_tree::lemma_trees_view(cs@);
            }
            let first = &cs[0];
            let path = match &first.path {
                Some(p) => Some(clone_path(p)),
                None => None,
            };
            Some((path, provider))
        },
        None => vstd::pervasive::unreached(),
    }
}

/// Whether the argument is an `IntoParams` extractor: a `Path` or `Query`
/// whose children are all objects without a generic wrapper.
pub open spec fn is_into_params_view(t: TypeTreeV) -> bool {
    (tree_is(t, "Path"@) || tree_is(t, "Query"@)) && match t.children {
        Some(cs) => forall|i: int|
            0 <= i < cs.len() ==> (#[trigger] cs[i]).value_type == ValueType::Object && cs[i].generic_type is None,
        None => false,
    }
}

/// Whether the argument is an `IntoParams` extractor.
pub fn is_into_params(fn_arg: &FnArg) -> (res: bool)
    requires
        paths_ok(tree_view(fn_arg.ty)),
    ensures
        res == is_into_params_view(tree_view(fn_arg.ty)),
{
    if !(fn_arg.ty.is("Path") || fn_arg.ty.is("Query")) {
        return false;
    }
    match &fn_arg.ty.children {
        Some(cs) => {
            proof {
                crate::core_type_tree::lemma_trees_view(cs@);
            }
            let n = cs.len();
            assert(tree_view(fn_arg.ty).children == Some(trees_view(cs@)));
            for i in 0..n
                invariant
                    n == cs@.len(),
                    tree_view(fn_arg.ty).children == Some(trees_view(cs@)),
                    trees_view(cs@).len() == n,
                    forall|j: int| 0 <= j < n ==> #[trigger] trees_view(cs@)[j] == tree_view(cs@[j]),
                    forall|j: int|
                        0 <= j < i ==> (#[trigger] trees_view(cs@)[j]).value_type == ValueType::Object
                            && trees_view(cs@)[j].generic_type is None,
            {
                let c = &cs[i];
                let object = c.value_type == ValueType::Object;
                let plain = match c.generic_type {
                    None => true,
                    Some(_) => false,
                };
                if !(object && plain) {
                    proof {
                        let cv = trees_view(cs@)[i as int];
                        assert(cv == tree_view(cs@[i as int]));
                        assert(!(cv.value_type == ValueType::Object && cv.generic_type is None));
                    }
                    return false;
                }
            }
            true
        },
        None => false,
    }
}

/// Every argument that [`get_fn_args`] reads has a segment in each path of
/// its type tree, so that [`is_into_params`] can be asked of it.
pub proof fn lemma_fn_arg_paths_ok(a: HandlerArg, f: TypeFeatures)
    requires
        arg_ok(a, f),
    ensures
        paths_ok(arg_reading(a, f).0),
{
    if let HandlerArg::Typed(pt) = a {
        lemma_from_type_paths_ok(type_view(pt.ty), f);
    }
}

} // verus!
