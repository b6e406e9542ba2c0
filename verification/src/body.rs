//! The request body of a handler: the type that a `Json`, `Form` or `Bytes`
//! argument carries, and the `Option` around it.
use vstd::prelude::*;

use crate::rust_type::{clone_path, lemma_segments_view, path_view, SegmentV};
use crate::text::str_eq;
use crate::type_tree::{
    lemma_trees_view, tree_view, trees_view, GenericType, TypeTree, TypeTreeV, ValueType,
};

verus! {

/// The body type that a request argument's tree carries, read from the
/// first segment of its path that decides: `Json` and `Form` carry their
/// first argument, `Option` the body of its first argument, `Bytes` itself,
/// and any other segment the body of the tree's first argument, where the
/// tree has arguments (else the next segment decides). The outer `None`
/// says that an expectation fails on the way (no path, or no argument where
/// one is needed).
pub open spec fn body_of(t: TypeTreeV) -> Option<Option<TypeTreeV>>
    decreases t, 1nat, 0nat,
{
    match t.path {
        None => None,
        Some(p) => body_from(t, p),
    }
}

/// The body that the segments decide, the first deciding one first.
pub open spec fn body_from(t: TypeTreeV, segs: Seq<SegmentV>) -> Option<Option<TypeTreeV>>
    decreases t, 0nat, segs.len(),
{
    if segs.len() == 0 {
        Some(None)
    } else {
        let name = segs[0].ident;
        let here: Option<Option<TypeTreeV>> = if name == "Json"@ || name == "Form"@ {
            match t.children {
                Some(c) => if c.len() > 0 {
                    Some(Some(c[0]))
                } else {
                    None
                },
                None => None,
            }
        } else if name == "Option"@ {
            match t.children {
                Some(c) => if c.len() > 0 {
                    body_of(c[0])
                } else {
                    None
                },
                None => None,
            }
        } else if name == "Bytes"@ {
            Some(Some(t))
        } else {
            match t.children {
                Some(c) => if c.len() > 0 {
                    body_of(c[0])
                } else {
                    None
                },
                None => Some(None),
            }
        };
        match here {
            None => None,
            Some(Some(b)) => Some(Some(b)),
            Some(None) => body_from(t, segs.drop_first()),
        }
    }
}

fn body_exec(t: &TypeTree) -> (res: Option<&TypeTree>)
    requires
        body_of(tree_view(*t)) is Some,
    ensures
        match res {
            Some(b) => body_of(tree_view(*t)) == Some(Some(tree_view(*b))),
            None => body_of(tree_view(*t)) == Some(None::<TypeTreeV>),
        },
    decreases *t,
{
    let path = match &t.path {
        Some(p) => p,
        None => {
            return None;
        },
    };
    proof {
        lemma_segments_view(path.segments@);
    }
    let ghost tv = tree_view(*t);
    let ghost segs = path_view(*path);
    let n = path.segments.len();
    proof {
        assert(segs.skip(0) =~= segs);
    }
    for i in 0..n
        invariant
            n == path.segments@.len(),
            tv == tree_view(*t),
            t.path == Some(*path),
            segs == path_view(*path),
            segs.len() == n,
            forall|k: int| 0 <= k < n ==> #[trigger] segs[k] == crate::rust_type::segment_view(path.segments@[k]),
            body_of(tv) == body_from(tv, segs.skip(i as int)),
            body_of(tv) is Some,
    {
        proof {
            assert(segs.skip(i as int)[0] == segs[i as int]);
            assert(segs.skip(i as int).drop_first() =~= segs.skip(i + 1));
        }
        let name = path.segments[i].ident.as_str();
        if str_eq(name, "Json") || str_eq(name, "Form") {
            match &t.children {
                Some(c) => {
                    proof {
                        lemma_trees_view(c@);
                    }
                    return Some(&c[0]);
                },
                None => {
                    return None;
                },
            }
        } else if str_eq(name, "Option") {
            match &t.children {
                Some(c) => {
                    proof {
                        lemma_trees_view(c@);
                    }
                    assert(decreases_to!(*t => c@[0]));
                    let found = body_exec(&c[0]);
                    if found.is_some() {
                        return found;
                    }
                },
                None => {
                    return None;
                },
            }
        } else if str_eq(name, "Bytes") {
            return Some(t);
        } else {
            match &t.children {
                Some(c) => {
                    proof {
                        lemma_trees_view(c@);
                    }
                    assert(decreases_to!(*t => c@[0]));
                    let found = body_exec(&c[0]);
                    if found.is_some() {
                        return found;
                    }
                },
                None => {},
            }
        }
    }
    proof {
        assert(segs.skip(n as int) =~= Seq::<SegmentV>::empty());
    }
    None
}

/// The body type that a request argument's tree carries, if any.
pub fn get_actual_body_type(ty: &TypeTree) -> (res: Option<&TypeTree>)
    requires
        body_of(tree_view(*ty)) is Some,
    ensures
        match res {
            Some(b) => body_of(tree_view(*ty)) == Some(Some(tree_view(*b))),
            None => body_of(tree_view(*ty)) == Some(None::<TypeTreeV>),
        },
{
    body_exec(ty)
}

/// The first tree, the tree itself first and then its arguments in order,
/// whose generic wrapper is `Option`.
pub open spec fn find_option(t: TypeTreeV) -> Option<TypeTreeV>
    decreases t, 1nat,
{
    if t.generic_type == Some(GenericType::Option) {
        Some(t)
    } else {
        match t.children {
            Some(c) => find_option_in(c),
            None => None,
        }
    }
}

/// The first `find_option` of the trees in order.
pub open spec fn find_option_in(cs: Seq<TypeTreeV>) -> Option<TypeTreeV>
    decreases cs, 0nat,
{
    if cs.len() == 0 {
        None
    } else {
        match find_option(cs[0]) {
            Some(o) => Some(o),
            None => find_option_in(cs.drop_first()),
        }
    }
}

fn find_option_exec(t: &TypeTree) -> (res: Option<&TypeTree>)
    ensures
        match res {
            Some(o) => find_option(tree_view(*t)) == Some(tree_view(*o)),
            None => find_option(tree_view(*t)) is None,
        },
    decreases *t,
{
    match t.generic_type {
        Some(GenericType::Option) => {
            return Some(t);
        },
        _ => {},
    }
    match &t.children {
        None => None,
        Some(c) => {
            assert(decreases_to!(*t => *c));
            find_option_in_exec(c)
        },
    }
}

fn find_option_in_exec(v: &Vec<TypeTree>) -> (res: Option<&TypeTree>)
    ensures
        match res {
            Some(o) => find_option_in(trees_view(v@)) == Some(tree_view(*o)),
            None => find_option_in(trees_view(v@)) is None,
        },
    decreases *v,
{
    let ghost cs = trees_view(v@);
    proof {
        lemma_trees_view(v@);
        assert(cs.skip(0) =~= cs);
    }
    let n = v.len();
    for i in 0..n
        invariant
            n == v@.len(),
            cs == trees_view(v@),
            cs.len() == n,
            forall|k: int| 0 <= k < n ==> #[trigger] cs[k] == tree_view(v@[k]),
            find_option_in(cs) == find_option_in(cs.skip(i as int)),
    {
        assert(decreases_to!(*v => v@[i as int]));
        proof {
            assert(cs.skip(i as int)[0] == cs[i as int]);
            assert(cs.skip(i as int).drop_first() =~= cs.skip(i + 1));
        }
        let found = find_option_exec(&v[i]);
        if found.is_some() {
            return found;
        }
    }
    proof {
        assert(cs.skip(n as int) =~= Seq::<TypeTreeV>::empty());
    }
    None
}

/// The first tree, the tree itself first and then its arguments in order,
/// whose generic wrapper is `Option`.
pub fn find_option_type_tree(ty: &TypeTree) -> (res: Option<&TypeTree>)
    ensures
        match res {
            Some(o) => find_option(tree_view(*ty)) == Some(tree_view(*o)),
            None => find_option(tree_view(*ty)) is None,
        },
{
    find_option_exec(ty)
}

/// A copy of a type tree.
pub fn clone_tree(t: &TypeTree) -> (res: TypeTree)
    ensures
        tree_view(res) == tree_view(*t),
    decreases *t,
{
    let path = match &t.path {
        Some(p) => Some(clone_path(p)),
        None => None,
    };
    let children = match &t.children {
        Some(c) => {
            assert(decreases_to!(*t => *c));
            Some(clone_trees(c))
        },
        None => None,
    };
    TypeTree { path, value_type: t.value_type, generic_type: t.generic_type, children }
}

/// A copy of type trees.
pub fn clone_trees(v: &Vec<TypeTree>) -> (res: Vec<TypeTree>)
    ensures
        trees_view(res@) == trees_view(v@),
    decreases *v,
{
    let mut out: Vec<TypeTree> = Vec::new();
    let n = v.len();
    for i in 0..n
        invariant
            n == v@.len(),
            trees_view(out@) == trees_view(v@.take(i as int)),
    {
        assert(decreases_to!(*v => v@[i as int]));
        let c = clone_tree(&v[i]);
        proof {
            assert(v@.take(i + 1).drop_last() =~= v@.take(i as int));
            assert(out@.push(c).drop_last() =~= out@);
        }
        out.push(c);
    }
    proof {
        assert(v@.take(n as int) =~= v@);
    }
    out
}

/// The body type of a request argument, as the schema documents it: where
/// an `Option` is on the way, the body wrapped in an `Option` object with
/// that `Option`'s path.
pub open spec fn actual_body(t: TypeTreeV) -> TypeTreeV {
    let b = body_of(t)->Some_0->Some_0;
    match find_option(b) {
        Some(o) => TypeTreeV {
            path: o.path,
            value_type: ValueType::Object,
            generic_type: Some(GenericType::Option),
            children: Some(seq![b]),
        },
        None => b,
    }
}

/// The body type of a request argument, as `actual_body` says.
pub fn get_actual_body(ty: &TypeTree) -> (res: TypeTree)
    requires
        body_of(tree_view(*ty)) matches Some(Some(_)),
    ensures
        tree_view(res) == actual_body(tree_view(*ty)),
{
    let body = match get_actual_body_type(ty) {
        Some(b) => b,
        None => {
            return clone_tree(ty);
        },
    };
    match find_option_type_tree(body) {
        Some(option_type) => {
            let path = match &option_type.path {
                Some(p) => Some(clone_path(p)),
                None => None,
            };
            let child = clone_tree(body);
            let mut children: Vec<TypeTree> = Vec::new();
            children.push(child);
            proof {
                assert(children@ =~= seq![child]);
                assert(children@.drop_last() =~= Seq::<TypeTree>::empty());
                assert(children@.last() == child);
                assert(trees_view(Seq::<TypeTree>::empty()) =~= Seq::<TypeTreeV>::empty());
                assert(trees_view(children@) =~= seq![tree_view(child)]);
            }
            TypeTree {
                path,
                value_type: ValueType::Object,
                generic_type: Some(GenericType::Option),
                children: Some(children),
            }
        },
        None => clone_tree(body),
    }
}

} // verus!
