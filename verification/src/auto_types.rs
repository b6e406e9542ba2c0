//! The types whose responses document an operation, read from the return
//! type of its handler.
use vstd::prelude::*;

use crate::rust_type::{
    clone_path, generic_args_view, lemma_generic_args_view, lemma_segments_view, path_view,
    segment_view, type_view, ArgsV, GenericArgV, TypeArgument, PathArguments, RustType,
    SegmentV, TypePath, TypeV,
};
use crate::text::str_eq;

verus! {

/// The number of type arguments among the generic arguments.
pub open spec fn type_arg_count(args: Seq<GenericArgV>) -> nat
    decreases args.len(),
{
    if args.len() == 0 {
        0
    } else {
        type_arg_count(args.drop_last()) + if args.last() is Type {
            1nat
        } else {
            0nat
        }
    }
}

/// The paths whose responses document a path type: a `Result` with an ok
/// and an error type gives those of each side in turn; a `Result` alias with
/// one type argument gives those of that argument and then the alias
/// itself; any other path gives itself. `None` where a path on the way has
/// no segment.
pub open spec fn responses_types(p: Seq<SegmentV>) -> Option<Seq<Seq<SegmentV>>>
    decreases p, 2nat,
{
    if p.len() == 0 {
        None
    } else {
        let last = p.last();
        if last.ident != "Result"@ {
            Some(seq![p])
        } else {
            match last.arguments {
                ArgsV::AngleBracketed(args) => {
                    let n = type_arg_count(args);
                    if n == 2 {
                        type_args_responses(args)
                    } else if n == 1 {
                        match type_args_responses(args) {
                            Some(r) => Some(r.push(p)),
                            None => None,
                        }
                    } else {
                        Some(seq![p])
                    }
                },
                _ => Some(seq![p]),
            }
        }
    }
}

/// The responses paths of each type argument in order, joined.
pub open spec fn type_args_responses(args: Seq<GenericArgV>) -> Option<Seq<Seq<SegmentV>>>
    decreases args, 1nat,
{
    if args.len() == 0 {
        Some(Seq::empty())
    } else {
        match type_args_responses(args.drop_last()) {
            None => None,
            Some(front) => match args.last() {
                GenericArgV::Type(t) => match type_responses(t) {
                    Some(back) => Some(front + back),
                    None => None,
                },
                _ => Some(front),
            },
        }
    }
}

/// The responses paths of a type: those of a path type; none of any other.
pub open spec fn type_responses(t: TypeV) -> Option<Seq<Seq<SegmentV>>>
    decreases t, 0nat,
{
    match t {
        TypeV::Path(q) => responses_types(q),
        _ => Some(Seq::empty()),
    }
}

/// The responses paths of a handler's return type: none for the default
/// return type or a type that is no path.
pub open spec fn operation_responses(output: Option<TypeV>) -> Option<Seq<Seq<SegmentV>>> {
    match output {
        Some(t) => type_responses(t),
        None => Some(Seq::empty()),
    }
}

/// The views of paths.
pub open spec fn paths_view(s: Seq<TypePath>) -> Seq<Seq<SegmentV>> {
    s.map_values(|p: TypePath| path_view(p))
}

/// The view of an optional type.
pub open spec fn opt_type_view(t: Option<RustType>) -> Option<TypeV> {
    match t {
        Some(t) => Some(type_view(t)),
        None => None,
    }
}

/// Gets the types of the handler's return type (`None` for the default
/// return type) whose responses document the operation.
pub fn parse_fn_operation_responses(output: &Option<RustType>) -> (res: Vec<TypePath>)
    requires
        operation_responses(opt_type_view(*output)) is Some,
    ensures
        paths_view(res@) == operation_responses(opt_type_view(*output))->Some_0,
{
    match output {
        Some(RustType::Path(p)) => get_responses_types(p),
        Some(_) => {
            let res: Vec<TypePath> = Vec::new();
            assert(paths_view(res@) =~= Seq::<Seq<SegmentV>>::empty());
            res
        },
        None => {
            let res: Vec<TypePath> = Vec::new();
            assert(paths_view(res@) =~= Seq::<Seq<SegmentV>>::empty());
            res
        },
    }
}

/// The number of type arguments.
fn count_type_args(args: &Vec<TypeArgument>) -> (res: usize)
    ensures
        res == type_arg_count(generic_args_view(args@)),
{
    proof {
        lemma_generic_args_view(args@);
    }
    let ghost gv = generic_args_view(args@);
    let n = args.len();
    let mut count: usize = 0;
    proof {
        assert(gv.take(0) =~= Seq::<GenericArgV>::empty());
    }
    for i in 0..n
        invariant
            n == args@.len(),
            gv == generic_args_view(args@),
            gv.len() == n,
            forall|j: int| 0 <= j < n ==> #[trigger] gv[j] == crate::rust_type::generic_arg_view(args@[j]),
            count == type_arg_count(gv.take(i as int)),
            count <= i,
    {
        proof {
            assert(gv.take(i + 1).drop_last() =~= gv.take(i as int));
            assert(gv.take(i + 1).last() == gv[i as int]);
        }
        if let TypeArgument::Type(_) = &args[i] {
            count = count + 1;
        }
    }
    proof {
        assert(gv.take(n as int) =~= gv);
    }
    count
}

proof fn lemma_args_responses_prefix(args: Seq<GenericArgV>, k: int, n: int)
    requires
        0 <= k <= n <= args.len(),
        type_args_responses(args.take(k)) is None,
    ensures
        type_args_responses(args.take(n)) is None,
    decreases n - k,
{
    if k < n {
        lemma_args_responses_prefix(args, k, n - 1);
        assert(args.take(n).drop_last() =~= args.take(n - 1));
    }
}

proof fn lemma_args_responses_step(args: Seq<GenericArgV>, i: int)
    requires
        0 <= i < args.len(),
    ensures
        type_args_responses(args.take(i + 1)) == match type_args_responses(args.take(i)) {
            None => None,
            Some(front) => match args[i] {
                GenericArgV::Type(t) => match type_responses(t) {
                    Some(back) => Some(front + back),
                    None => None,
                },
                _ => Some(front),
            },
        },
{
    assert(args.take(i + 1).drop_last() =~= args.take(i));
    assert(args.take(i + 1).last() == args[i]);
}

/// The responses paths of a path type.
fn get_responses_types(ty: &TypePath) -> (res: Vec<TypePath>)
    requires
        responses_types(path_view(*ty)) is Some,
    ensures
        paths_view(res@) == responses_types(path_view(*ty))->Some_0,
    decreases *ty, 2nat,
{
    proof {
        lemma_segments_view(ty.segments@);
    }
    let ghost pv = path_view(*ty);
    let n = ty.segments.len();
    let last = &ty.segments[n - 1];
    proof {
        assert(pv.len() == n);
        assert(pv.last() == segment_view(*last));
    }
    if !str_eq(last.ident.as_str(), "Result") {
        let mut res: Vec<TypePath> = Vec::new();
        res.push(clone_path(ty));
        assert(paths_view(res@) =~= seq![pv]);
        return res;
    }
    match &last.arguments {
        PathArguments::AngleBracketed(args) => {
            let ghost gv = generic_args_view(args@);
            proof {
                assert(pv.last().arguments == ArgsV::AngleBracketed(gv));
                assert(decreases_to!(*ty => ty.segments));
                assert(decreases_to!(ty.segments => ty.segments@));
                assert(decreases_to!(ty.segments@ => ty.segments@[n - 1]));
                assert(decreases_to!(ty.segments@[n - 1] => ty.segments@[n - 1].arguments));
                assert(decreases_to!(last.arguments => last.arguments->AngleBracketed_0));
            }
            let count = count_type_args(args);
            if count == 2 {
                type_args_responses_exec(args)
            } else if count == 1 {
                let mut res = type_args_responses_exec(args);
                let ghost front = res@;
                res.push(clone_path(ty));
                proof {
                    assert(res@.drop_last() =~= front);
                    assert(paths_view(res@) =~= paths_view(front).push(pv));
                }
                res
            } else {
                let mut res: Vec<TypePath> = Vec::new();
                res.push(clone_path(ty));
                assert(paths_view(res@) =~= seq![pv]);
                res
            }
        },
        _ => {
            let mut res: Vec<TypePath> = Vec::new();
            res.push(clone_path(ty));
            assert(paths_view(res@) =~= seq![pv]);
            res
        },
    }
}

/// Copies the paths to the end of `acc`.
fn append_paths(acc: &mut Vec<TypePath>, part: &Vec<TypePath>)
    ensures
        paths_view(final(acc)@) == paths_view(old(acc)@) + paths_view(part@),
{
    let ghost front = acc@;
    let mut k: usize = 0;
    let m = part.len();
    while k < m
        invariant
            0 <= k <= m,
            m == part@.len(),
            paths_view(acc@) == paths_view(front) + paths_view(part@.take(k as int)),
        decreases m - k,
    {
        acc.push(clone_path(&part[k]));
        proof {
            assert(paths_view(part@.take(k + 1)) =~= paths_view(part@.take(k as int)).push(
                path_view(part@[k as int]),
            ));
            assert(paths_view(acc@) =~= (paths_view(front) + paths_view(part@.take(k as int))).push(
                path_view(part@[k as int]),
            ));
        }
        k = k + 1;
    }
    proof {
        assert(part@.take(m as int) =~= part@);
    }
}

/// The responses paths of each type argument in order, joined.
fn type_args_responses_exec(args: &Vec<TypeArgument>) -> (res: Vec<TypePath>)
    requires
        type_args_responses(generic_args_view(args@)) is Some,
    ensures
        paths_view(res@) == type_args_responses(generic_args_view(args@))->Some_0,
    decreases *args, 1nat,
{
    proof {
        lemma_generic_args_view(args@);
    }
    let ghost gv = generic_args_view(args@);
    let n = args.len();
    let mut acc: Vec<TypePath> = Vec::new();
    proof {
        assert(gv.take(0) =~= Seq::<GenericArgV>::empty());
        assert(paths_view(acc@) =~= Seq::<Seq<SegmentV>>::empty());
    }
    for i in 0..n
        invariant
            n == args@.len(),
            gv == generic_args_view(args@),
            gv.len() == n,
            forall|j: int| 0 <= j < n ==> #[trigger] gv[j] == crate::rust_type::generic_arg_view(args@[j]),
            type_args_responses(gv) is Some,
            type_args_responses(gv.take(i as int)) == Some(paths_view(acc@)),
    {
        proof {
            lemma_args_responses_step(gv, i as int);
        }
        if let TypeArgument::Type(t) = &args[i] {
            if let RustType::Path(q) = t {
                proof {
                    assert(decreases_to!(*args => args@));
                    assert(decreases_to!(args@ => args@[i as int]));
                    assert(decreases_to!(args@[i as int] => args@[i as int]->Type_0));
                    assert(decreases_to!(args@[i as int]->Type_0 => args@[i as int]->Type_0->Path_0));
                    assert(type_view(*t) == TypeV::Path(path_view(*q)));
                    if responses_types(path_view(*q)) is None {
                        lemma_args_responses_prefix(gv, i + 1, n as int);
                        assert(gv.take(n as int) =~= gv);
                    }
                }
                let part = get_responses_types(q);
                append_paths(&mut acc, &part);
            } else {
                assert(paths_view(acc@) + Seq::<Seq<SegmentV>>::empty() =~= paths_view(acc@));
            }
        }
    }
    proof {
        assert(gv.take(n as int) =~= gv);
    }
    acc
}

} // verus!
