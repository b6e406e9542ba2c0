//! The path arguments of a handler, read from its `Path<...>` extractor
//! argument: the names bound by its pattern paired with the types between
//! the angle brackets.
use vstd::prelude::*;

use crate::ext::ArgumentIn;
use crate::fn_arg::{HandlerArg, Pat};
use crate::rust_type::{
    generic_arg_view, generic_args_view, lemma_generic_args_view, lemma_segments_view,
    lemma_types_view, path_view, segment_view, type_view, types_view, ArgsV, GenericArgV,
    TypeArgument, PathArguments, TypeSegment, RustType, SegmentV, TypePath, TypeV,
};
use crate::text::str_eq;

verus! {

/// A path argument: its name, where it goes, and the identifier of its
/// type.
pub struct Argument {
    pub name: String,
    pub argument_in: ArgumentIn,
    pub ident: String,
}

/// The view of an [`Argument`]: its name and the identifier of its type
/// (every argument read here goes in the path).
pub open spec fn argument_view(a: Argument) -> (Seq<char>, Seq<char>) {
    (a.name@, a.ident@)
}

/// The views of arguments.
pub open spec fn arguments_view(s: Seq<Argument>) -> Seq<(Seq<char>, Seq<char>)> {
    s.map_values(|a: Argument| argument_view(a))
}

/// The first segment named `Path`.
pub open spec fn first_path_segment(p: Seq<SegmentV>) -> Option<SegmentV>
    decreases p.len(),
{
    if p.len() == 0 {
        None
    } else if p[0].ident == "Path"@ {
        Some(p[0])
    } else {
        first_path_segment(p.drop_first())
    }
}

/// The first argument whose type path has a segment named `Path`, with that
/// segment. The outer `None` is where an argument before it is `self` or
/// has a type that is no path.
pub open spec fn find_path_arg(args: Seq<HandlerArg>) -> Option<Option<(Pat, SegmentV)>>
    decreases args.len(),
{
    if args.len() == 0 {
        Some(None)
    } else {
        match args[0] {
            HandlerArg::Receiver => None,
            HandlerArg::Typed(pt) => match type_view(pt.ty) {
                TypeV::Path(p) => match first_path_segment(p) {
                    Some(s) => Some(Some((pt.pat, s))),
                    None => find_path_arg(args.drop_first()),
                },
                _ => None,
            },
        }
    }
}

/// The names a pattern binds: its name, or the names inside a tuple struct
/// pattern; `None` for any other pattern or a tuple struct pattern with
/// something other than a name inside.
pub open spec fn argument_names(pat: Pat) -> Option<Seq<Seq<char>>> {
    match pat {
        Pat::Ident(n) => Some(seq![n@]),
        Pat::TupleStruct(v) => if forall|i: int| 0 <= i < v@.len() ==> #[trigger] v@[i] is Ident {
            Some(v@.map_values(|p: Pat| crate::fn_arg::ident_name(p)))
        } else {
            None
        },
        _ => None,
    }
}

/// The identifier of a path that is one segment without arguments, as a
/// sequence of it; else nothing.
pub open spec fn path_ident(p: Seq<SegmentV>) -> Seq<Seq<char>> {
    if p.len() == 1 && p[0].arguments is Empty {
        seq![p[0].ident]
    } else {
        Seq::empty()
    }
}

/// The identifiers of tuple element types, each of which must be a path.
pub open spec fn tuple_idents(es: Seq<TypeV>) -> Option<Seq<Seq<char>>>
    decreases es.len(),
{
    if es.len() == 0 {
        Some(Seq::empty())
    } else {
        match tuple_idents(es.drop_last()) {
            None => None,
            Some(front) => match es.last() {
                TypeV::Path(p) => Some(front + path_ident(p)),
                _ => None,
            },
        }
    }
}

/// The identifiers of the type arguments: each must be a path or a tuple
/// of paths.
pub open spec fn args_idents(args: Seq<GenericArgV>) -> Option<Seq<Seq<char>>>
    decreases args.len(),
{
    if args.len() == 0 {
        Some(Seq::empty())
    } else {
        match args_idents(args.drop_last()) {
            None => None,
            Some(front) => match args.last() {
                GenericArgV::Type(TypeV::Path(p)) => Some(front + path_ident(p)),
                GenericArgV::Type(TypeV::Tuple(es)) => match tuple_idents(es) {
                    Some(back) => Some(front + back),
                    None => None,
                },
                _ => None,
            },
        }
    }
}

/// The identifiers of the types between the angle brackets of the segment.
pub open spec fn argument_types(seg: SegmentV) -> Option<Seq<Seq<char>>> {
    match seg.arguments {
        ArgsV::AngleBracketed(args) => args_idents(args),
        _ => None,
    }
}

/// The names paired with the identifiers, as far as both go.
pub open spec fn zip_names(names: Seq<Seq<char>>, types: Seq<Seq<char>>) -> Seq<(Seq<char>, Seq<char>)> {
    Seq::new(
        if names.len() <= types.len() {
            names.len()
        } else {
            types.len()
        },
        |i: int| (names[i], types[i]),
    )
}

/// Whether reading the path arguments meets no argument it cannot read.
pub open spec fn path_arguments_ok(args: Seq<HandlerArg>) -> bool {
    match find_path_arg(args) {
        None => false,
        Some(None) => true,
        Some(Some((pat, seg))) => argument_names(pat) is Some && argument_types(seg) is Some,
    }
}

/// The path arguments: none where no argument has a `Path` segment in its
/// type; else the names of its pattern paired with the identifiers of its
/// type arguments.
pub open spec fn spec_path_arguments(args: Seq<HandlerArg>) -> Option<Seq<(Seq<char>, Seq<char>)>> {
    match find_path_arg(args) {
        Some(Some((pat, seg))) => Some(
            zip_names(argument_names(pat)->Some_0, argument_types(seg)->Some_0),
        ),
        _ => None,
    }
}

/// The type path of a type that is a path.
pub fn get_type_path(ty: &RustType) -> (res: &TypePath)
    requires
        ty is Path,
    ensures
        *ty == RustType::Path(*res),
        type_view(*ty) == TypeV::Path(path_view(*res)),
{
    match ty {
        RustType::Path(p) => p,
        _ => vstd::pervasive::unreached(),
    }
}

/// The first segment named `Path`.
fn find_path_segment(p: &TypePath) -> (res: Option<usize>)
    ensures
        match res {
            Some(k) => k < p.segments@.len() && first_path_segment(path_view(*p)) == Some(
                segment_view(p.segments@[k as int]),
            ),
            None => first_path_segment(path_view(*p)) is None,
        },
{
    proof {
        lemma_segments_view(p.segments@);
    }
    let ghost pv = path_view(*p);
    let n = p.segments.len();
    let mut i: usize = 0;
    assert(pv.skip(0) =~= pv);
    while i < n
        invariant
            i <= n,
            n == p.segments@.len(),
            pv == path_view(*p),
            pv.len() == n,
            forall|j: int| 0 <= j < n ==> #[trigger] pv[j] == segment_view(p.segments@[j]),
            first_path_segment(pv) == first_path_segment(pv.skip(i as int)),
        decreases n - i,
    {
        proof {
            assert(pv.skip(i as int)[0] == pv[i as int]);
            assert(pv.skip(i as int).drop_first() =~= pv.skip(i + 1));
        }
        if str_eq(p.segments[i].ident.as_str(), "Path") {
            return Some(i);
        }
        i = i + 1;
    }
    proof {
        assert(pv.skip(n as int).len() == 0);
    }
    None
}

/// The argument whose type has a `Path` segment, with the position of that
/// segment.
fn find_path_pat_type_and_segment(fn_args: &Vec<HandlerArg>) -> (res: Option<(usize, usize)>)
    requires
        find_path_arg(fn_args@) is Some,
    ensures
        match res {
            Some((a, k)) => a < fn_args@.len() && fn_args@[a as int] is Typed && {
                let pt = fn_args@[a as int]->Typed_0;
                &&& pt.ty is Path
                &&& k < (pt.ty->Path_0).segments@.len()
                &&& find_path_arg(fn_args@) == Some(
                    Some((pt.pat, segment_view((pt.ty->Path_0).segments@[k as int]))),
                )
            },
            None => find_path_arg(fn_args@) == Some(None::<(Pat, SegmentV)>),
        },
{
    let n = fn_args.len();
    let mut i: usize = 0;
    assert(fn_args@.skip(0) =~= fn_args@);
    while i < n
        invariant
            i <= n,
            n == fn_args@.len(),
            find_path_arg(fn_args@) == find_path_arg(fn_args@.skip(i as int)),
            find_path_arg(fn_args@) is Some,
        decreases n - i,
    {
        proof {
            assert(fn_args@.skip(i as int)[0] == fn_args@[i as int]);
            assert(fn_args@.skip(i as int).drop_first() =~= fn_args@.skip(i + 1));
        }
        match &fn_args[i] {
            HandlerArg::Typed(pt) => {
                let path = get_type_path(&pt.ty);
                match find_path_segment(path) {
                    Some(k) => {
                        proof {
                            assert(fn_args@[i as int] == HandlerArg::Typed(*pt));
                        }
                        return Some((i, k));
                    },
                    None => {},
                }
            },
            HandlerArg::Receiver => {
                proof {
                    assert(false);
                }
            },
        }
        i = i + 1;
    }
    proof {
        assert(fn_args@.skip(n as int).len() == 0);
    }
    None
}

/// The names that the pattern binds.
fn get_argument_names(pat: &Pat) -> (res: Vec<String>)
    requires
        argument_names(*pat) is Some,
    ensures
        res@.map_values(|s: String| s@) == argument_names(*pat)->Some_0,
{
    match pat {
        Pat::Ident(n) => {
            let mut res: Vec<String> = Vec::new();
            res.push(n.clone());
            assert(res@.map_values(|s: String| s@) =~= seq![n@]);
            res
        },
        Pat::TupleStruct(v) => {
            let mut res: Vec<String> = Vec::new();
            let m = v.len();
            for i in 0..m
                invariant
                    m == v@.len(),
                    forall|j: int| 0 <= j < m ==> #[trigger] v@[j] is Ident,
                    res@.map_values(|s: String| s@) =~= v@.take(i as int).map_values(
                        |p: Pat| crate::fn_arg::ident_name(p),
                    ),
            {
                match &v[i] {
                    Pat::Ident(n) => {
                        res.push(n.clone());
                    },
                    _ => {
                        proof {
                            assert(v@[i as int] is Ident);
                        }
                    },
                }
                proof {
                    assert(v@.take(i + 1).map_values(|p: Pat| crate::fn_arg::ident_name(p)) =~= v@.take(
                        i as int,
                    ).map_values(|p: Pat| crate::fn_arg::ident_name(p)).push(
                        crate::fn_arg::ident_name(v@[i as int]),
                    ));
                }
            }
            proof {
                assert(v@.take(m as int) =~= v@);
            }
            res
        },
        _ => {
            proof {
                assert(false);
            }
            Vec::new()
        },
    }
}

/// The identifier of a path that is one segment without arguments.
fn push_path_ident(acc: &mut Vec<String>, p: &TypePath)
    ensures
        final(acc)@.map_values(|s: String| s@) == old(acc)@.map_values(|s: String| s@) + path_ident(
            path_view(*p),
        ),
{
    proof {
        lemma_segments_view(p.segments@);
    }
    let ghost front = acc@.map_values(|s: String| s@);
    if p.segments.len() == 1 {
        proof {
            assert(path_view(*p)[0] == segment_view(p.segments@[0]));
        }
        if let PathArguments::Empty = &p.segments[0].arguments {
            acc.push(p.segments[0].ident.clone());
            assert(acc@.map_values(|s: String| s@) =~= front + seq![p.segments@[0].ident@]);
            return;
        }
    }
    assert(front + Seq::<Seq<char>>::empty() =~= front);
}

proof fn lemma_tuple_idents_step(es: Seq<TypeV>, i: int)
    requires
        0 <= i < es.len(),
    ensures
        tuple_idents(es.take(i + 1)) == match tuple_idents(es.take(i)) {
            None => None,
            Some(front) => match es[i] {
                TypeV::Path(p) => Some(front + path_ident(p)),
                _ => None,
            },
        },
{
    assert(es.take(i + 1).drop_last() =~= es.take(i));
    assert(es.take(i + 1).last() == es[i]);
}

proof fn lemma_tuple_idents_prefix(es: Seq<TypeV>, k: int, n: int)
    requires
        0 <= k <= n <= es.len(),
        tuple_idents(es.take(k)) is None,
    ensures
        tuple_idents(es.take(n)) is None,
    decreases n - k,
{
    if k < n {
        lemma_tuple_idents_prefix(es, k, n - 1);
        lemma_tuple_idents_step(es, n - 1);
    }
}

proof fn lemma_args_idents_step(args: Seq<GenericArgV>, i: int)
    requires
        0 <= i < args.len(),
    ensures
        args_idents(args.take(i + 1)) == match args_idents(args.take(i)) {
            None => None,
            Some(front) => match args[i] {
                GenericArgV::Type(TypeV::Path(p)) => Some(front + path_ident(p)),
                GenericArgV::Type(TypeV::Tuple(es)) => match tuple_idents(es) {
                    Some(back) => Some(front + back),
                    None => None,
                },
                _ => None,
            },
        },
{
    assert(args.take(i + 1).drop_last() =~= args.take(i));
    assert(args.take(i + 1).last() == args[i]);
}

proof fn lemma_args_idents_prefix(args: Seq<GenericArgV>, k: int, n: int)
    requires
        0 <= k <= n <= args.len(),
        args_idents(args.take(k)) is None,
    ensures
        args_idents(args.take(n)) is None,
    decreases n - k,
{
    if k < n {
        lemma_args_idents_prefix(args, k, n - 1);
        lemma_args_idents_step(args, n - 1);
    }
}

/// The identifiers of the tuple's element types.
fn push_tuple_idents(acc: &mut Vec<String>, es: &Vec<RustType>)
    requires
        tuple_idents(types_view(es@)) is Some,
    ensures
        final(acc)@.map_values(|s: String| s@) == old(acc)@.map_values(|s: String| s@) + tuple_idents(
            types_view(es@),
        )->Some_0,
{
    proof {
        lemma_types_view(es@);
    }
    let ghost tv = types_view(es@);
    let ghost start = acc@.map_values(|s: String| s@);
    let n = es.len();
    proof {
        assert(tv.take(0) =~= Seq::<TypeV>::empty());
        assert(start + Seq::<Seq<char>>::empty() =~= start);
    }
    for i in 0..n
        invariant
            n == es@.len(),
            tv == types_view(es@),
            tv.len() == n,
            forall|j: int| 0 <= j < n ==> #[trigger] tv[j] == type_view(es@[j]),
            tuple_idents(tv) is Some,
            tuple_idents(tv.take(i as int)) is Some,
            acc@.map_values(|s: String| s@) == start + tuple_idents(tv.take(i as int))->Some_0,
    {
        proof {
            lemma_tuple_idents_step(tv, i as int);
        }
        match &es[i] {
            RustType::Path(p) => {
                let ghost before = tuple_idents(tv.take(i as int))->Some_0;
                push_path_ident(acc, p);
                proof {
                    assert(start + before + path_ident(path_view(*p)) =~= start + (before + path_ident(
                        path_view(*p),
                    )));
                }
            },
            _ => {
                proof {
                    lemma_tuple_idents_prefix(tv, i + 1, n as int);
                    assert(tv.take(n as int) =~= tv);
                }
            },
        }
    }
    proof {
        assert(tv.take(n as int) =~= tv);
    }
}

/// The identifiers of the types between the angle brackets of the segment.
fn get_argument_types(segment: &TypeSegment) -> (res: Vec<String>)
    requires
        argument_types(segment_view(*segment)) is Some,
    ensures
        res@.map_values(|s: String| s@) == argument_types(segment_view(*segment))->Some_0,
{
    let mut acc: Vec<String> = Vec::new();
    match &segment.arguments {
        PathArguments::AngleBracketed(args) => {
            proof {
                lemma_generic_args_view(args@);
            }
            let ghost gv = generic_args_view(args@);
            let n = args.len();
            proof {
                assert(gv.take(0) =~= Seq::<GenericArgV>::empty());
                assert(acc@.map_values(|s: String| s@) =~= Seq::<Seq<char>>::empty());
            }
            for i in 0..n
                invariant
                    n == args@.len(),
                    gv == generic_args_view(args@),
                    gv.len() == n,
                    forall|j: int| 0 <= j < n ==> #[trigger] gv[j] == generic_arg_view(args@[j]),
                    args_idents(gv) is Some,
                    args_idents(gv.take(i as int)) is Some,
                    acc@.map_values(|s: String| s@) == args_idents(gv.take(i as int))->Some_0,
            {
                proof {
                    lemma_args_idents_step(gv, i as int);
                }
                let ghost before = acc@.map_values(|s: String| s@);
                match &args[i] {
                    TypeArgument::Type(RustType::Path(p)) => {
                        push_path_ident(&mut acc, p);
                    },
                    TypeArgument::Type(RustType::Tuple(es)) => {
                        proof {
                            if tuple_idents(types_view(es@)) is None {
                                lemma_args_idents_prefix(gv, i + 1, n as int);
                                assert(gv.take(n as int) =~= gv);
                            }
                        }
                        push_tuple_idents(&mut acc, es);
                    },
                    _ => {
                        proof {
                            lemma_args_idents_prefix(gv, i + 1, n as int);
                            assert(gv.take(n as int) =~= gv);
                        }
                    },
                }
            }
            proof {
                assert(gv.take(n as int) =~= gv);
            }
            acc
        },
        _ => {
            proof {
                assert(false);
            }
            acc
        },
    }
}

/// The path arguments of a handler: where an argument's type has a `Path`
/// segment, the names its pattern binds paired in order with the
/// identifiers of the types between that segment's angle brackets (a type
/// that is no single identifier gives none); `None` where no argument has
/// such a segment.
pub fn resolve_path_arguments(fn_args: &Vec<HandlerArg>) -> (res: Option<Vec<Argument>>)
    requires
        path_arguments_ok(fn_args@),
    ensures
        match res {
            Some(v) => spec_path_arguments(fn_args@) == Some(arguments_view(v@)) && forall|i: int|
                0 <= i < v@.len() ==> #[trigger] v@[i].argument_in == ArgumentIn::Path,
            None => spec_path_arguments(fn_args@) is None,
        },
{
    match find_path_pat_type_and_segment(fn_args) {
        Some((a, k)) => {
            let pt = match &fn_args[a] {
                HandlerArg::Typed(pt) => pt,
                HandlerArg::Receiver => {
                    proof {
                        assert(false);
                    }
                    return None;
                },
            };
            let path = get_type_path(&pt.ty);
            let names = get_argument_names(&pt.pat);
            let types = get_argument_types(&path.segments[k]);
            let ghost nv = names@.map_values(|s: String| s@);
            let ghost tv = types@.map_values(|s: String| s@);
            let m = if names.len() <= types.len() {
                names.len()
            } else {
                types.len()
            };
            let mut res: Vec<Argument> = Vec::new();
            for i in 0..m
                invariant
                    m <= names@.len(),
                    m <= types@.len(),
                    nv == names@.map_values(|s: String| s@),
                    tv == types@.map_values(|s: String| s@),
                    arguments_view(res@) =~= zip_names(nv, tv).take(i as int),
                    forall|j: int| 0 <= j < res@.len() ==> #[trigger] res@[j].argument_in == ArgumentIn::Path,
            {
                res.push(
                    Argument {
                        name: names[i].clone(),
                        argument_in: ArgumentIn::Path,
                        ident: types[i].clone(),
                    },
                );
                proof {
                    assert(zip_names(nv, tv).take(i + 1) =~= zip_names(nv, tv).take(i as int).push(
                        (nv[i as int], tv[i as int]),
                    ));
                    assert(arguments_view(res@) =~= arguments_view(res@.drop_last()).push(
                        argument_view(res@.last()),
                    ));
                }
            }
            proof {
                assert(zip_names(nv, tv).take(m as int) =~= zip_names(nv, tv));
            }
            Some(res)
        },
        None => None,
    }
}

} // verus!
