//! The arguments of a rocket handler: ordered by their names, and matched
//! with the arguments of its route.
use vstd::prelude::*;

use crate::diagnostics::Diagnostics;
use crate::ext::{anonymous_arg, arg_view, args_view, is_anonymous_arg, ArgumentIn, MacroArg};
use crate::fn_arg::{
    arg_type_view, fn_arg_view, fn_args_outcome, fn_args_view, get_fn_args,
    value_argument_view, values_view, ArgTypeV, FnArg, FnArgType, HandlerArg, IntoParamsType,
    ParameterInProvider, ValueArgument, into_params_type_view,
};
use crate::rocket::RocketMacroPath;
use crate::rust_type::SegmentV;
use crate::text::{lex_lt, lemma_lex_irreflexive, lemma_lex_total, lemma_lex_transitive, str_eq, str_lt};
use crate::type_tree::{is_error, tree_view, Outcome, TypeTreeV, ValueType};

verus! {

/// The order of lists of names: the first differing name decides; a list
/// that is a beginning of the other comes first.
pub open spec fn names_lt(a: Seq<Seq<char>>, b: Seq<Seq<char>>) -> bool
    decreases a.len(),
{
    if b.len() == 0 {
        false
    } else if a.len() == 0 {
        true
    } else if lex_lt(a[0], b[0]) {
        true
    } else if lex_lt(b[0], a[0]) {
        false
    } else {
        names_lt(a.drop_first(), b.drop_first())
    }
}

/// The order of argument names: a single name before names taken apart,
/// and each kind by its names.
pub open spec fn arg_type_lt(a: ArgTypeV, b: ArgTypeV) -> bool {
    match (a, b) {
        (ArgTypeV::Single(x), ArgTypeV::Single(y)) => lex_lt(x, y),
        (ArgTypeV::Single(_), ArgTypeV::Destructed(_)) => true,
        (ArgTypeV::Destructed(_), ArgTypeV::Single(_)) => false,
        (ArgTypeV::Destructed(xs), ArgTypeV::Destructed(ys)) => names_lt(xs, ys),
    }
}

/// Whether the arguments are ordered by their names.
pub open spec fn sorted_by_arg_type(s: Seq<(TypeTreeV, ArgTypeV)>) -> bool {
    forall|i: int, j: int| 0 <= i < j < s.len() ==> !arg_type_lt(#[trigger] s[j].1, #[trigger] s[i].1)
}

/// No list of names comes before itself.
pub proof fn lemma_names_irreflexive(a: Seq<Seq<char>>)
    ensures
        !names_lt(a, a),
    decreases a.len(),
{
    if a.len() > 0 {
        lemma_lex_irreflexive(a[0]);
        lemma_names_irreflexive(a.drop_first());
    }
}

/// The order of lists of names is transitive.
pub proof fn lemma_names_transitive(a: Seq<Seq<char>>, b: Seq<Seq<char>>, c: Seq<Seq<char>>)
    requires
        names_lt(a, b),
        names_lt(b, c),
    ensures
        names_lt(a, c),
    decreases a.len(),
{
    if a.len() > 0 && b.len() > 0 && c.len() > 0 {
        lemma_lex_total(a[0], b[0]);
        lemma_lex_total(b[0], c[0]);
        lemma_lex_total(a[0], c[0]);
        if lex_lt(a[0], b[0]) {
            if lex_lt(b[0], c[0]) {
                lemma_lex_transitive(a[0], b[0], c[0]);
            } else {
                assert(b[0] == c[0]);
            }
        } else {
            assert(a[0] == b[0]);
            if !lex_lt(b[0], c[0]) {
                assert(b[0] == c[0]);
                lemma_names_transitive(a.drop_first(), b.drop_first(), c.drop_first());
            }
        }
    }
}

/// No argument name comes before itself, and the order is transitive.
pub proof fn lemma_arg_type_order(a: ArgTypeV, b: ArgTypeV, c: ArgTypeV)
    ensures
        !arg_type_lt(a, a),
        arg_type_lt(a, b) && arg_type_lt(b, c) ==> arg_type_lt(a, c),
{
    match a {
        ArgTypeV::Single(x) => lemma_lex_irreflexive(x),
        ArgTypeV::Destructed(xs) => lemma_names_irreflexive(xs),
    }
    if arg_type_lt(a, b) && arg_type_lt(b, c) {
        match (a, b, c) {
            (ArgTypeV::Single(x), ArgTypeV::Single(y), ArgTypeV::Single(z)) => lemma_lex_transitive(x, y, z),
            (ArgTypeV::Destructed(x), ArgTypeV::Destructed(y), ArgTypeV::Destructed(z)) => lemma_names_transitive(x, y, z),
            _ => {},
        }
    }
}

fn names_lt_exec(a: &Vec<String>, b: &Vec<String>) -> (res: bool)
    ensures
        res == names_lt(a@.map_values(|s: String| s@), b@.map_values(|s: String| s@)),
{
    let ghost av = a@.map_values(|s: String| s@);
    let ghost bv = b@.map_values(|s: String| s@);
    let mut i: usize = 0;
    proof {
        assert(av.skip(0) =~= av);
        assert(bv.skip(0) =~= bv);
    }
    while i < a.len() && i < b.len()
        invariant
            i <= a@.len(),
            i <= b@.len(),
            av == a@.map_values(|s: String| s@),
            bv == b@.map_values(|s: String| s@),
            names_lt(av, bv) == names_lt(av.skip(i as int), bv.skip(i as int)),
        decreases a@.len() - i,
    {
        let x = a[i].as_str();
        let y = b[i].as_str();
        proof {
            assert(av.skip(i as int)[0] == a@[i as int]@);
            assert(bv.skip(i as int)[0] == b@[i as int]@);
            assert(av.skip(i as int).drop_first() =~= av.skip(i + 1));
            assert(bv.skip(i as int).drop_first() =~= bv.skip(i + 1));
        }
        if str_lt(x, y) {
            return true;
        }
        if str_lt(y, x) {
            return false;
        }
        i = i + 1;
    }
    if i == b.len() {
        false
    } else {
        true
    }
}

fn arg_type_lt_exec(a: &FnArgType, b: &FnArgType) -> (res: bool)
    ensures
        res == arg_type_lt(arg_type_view(*a), arg_type_view(*b)),
{
    match (a, b) {
        (FnArgType::Single(x), FnArgType::Single(y)) => str_lt(x.as_str(), y.as_str()),
        (FnArgType::Single(_), FnArgType::Destructed(_)) => true,
        (FnArgType::Destructed(_), FnArgType::Single(_)) => false,
        (FnArgType::Destructed(xs), FnArgType::Destructed(ys)) => names_lt_exec(xs, ys),
    }
}

/// Orders the arguments by their names (arguments with the same names are
/// left in an order that is not stated).
pub fn sort_fn_args(args: Vec<FnArg>) -> (res: Vec<FnArg>)
    ensures
        fn_args_view(res@).to_multiset() == fn_args_view(args@).to_multiset(),
        sorted_by_arg_type(fn_args_view(res@)),
{
    let mut rest = args;
    let mut out: Vec<FnArg> = Vec::new();
    let ghost all = fn_args_view(rest@);
    proof {
        broadcast use vstd::multiset::group_multiset_axioms;
        assert(fn_args_view(out@) =~= Seq::empty());
        vstd::seq_lib::to_multiset_len(fn_args_view(out@));
        vstd::multiset::lemma_multiset_empty_len(fn_args_view(out@).to_multiset());
        assert(fn_args_view(out@).to_multiset().add(fn_args_view(rest@).to_multiset()) =~= all.to_multiset());
    }
    while rest.len() > 0
        invariant
            fn_args_view(out@).to_multiset().add(fn_args_view(rest@).to_multiset()) == all.to_multiset(),
            sorted_by_arg_type(fn_args_view(out@)),
        decreases rest@.len(),
    {
        let ghost rest_before = rest@;
        let x = rest.pop().unwrap();
        let ghost xv = fn_arg_view(x);
        let n = out.len();
        let mut pos: usize = 0;
        while pos < n && !arg_type_lt_exec(&x.arg_type, &out[pos].arg_type)
            invariant
                n == out@.len(),
                pos <= n,
                xv == fn_arg_view(x),
                forall|k: int| 0 <= k < pos ==> !arg_type_lt(xv.1, #[trigger] fn_args_view(out@)[k].1),
            decreases n - pos,
        {
            proof {
                assert(fn_args_view(out@)[pos as int] == fn_arg_view(out@[pos as int]));
            }
            pos = pos + 1;
        }
        let ghost old_out = fn_args_view(out@);
        proof {
            if pos < n {
                assert(old_out[pos as int] == fn_arg_view(out@[pos as int]));
                assert(arg_type_lt(xv.1, old_out[pos as int].1));
            }
        }
        out.insert(pos, x);
        proof {
            assert(fn_args_view(out@) =~= old_out.insert(pos as int, xv));
            assert(rest_before =~= rest@.push(x));
            assert(fn_args_view(rest_before) =~= fn_args_view(rest@).push(xv));
            vstd::seq_lib::to_multiset_insert(old_out, pos as int, xv);
            let rv = fn_args_view(rest@);
            vstd::seq_lib::to_multiset_build(rv, xv);
            broadcast use vstd::multiset::group_multiset_axioms;
            assert(fn_args_view(out@).to_multiset().add(fn_args_view(rest@).to_multiset()) =~= old_out.to_multiset().add(
                fn_args_view(rest_before).to_multiset(),
            ));
            let nv = fn_args_view(out@);
            assert forall|i: int, j: int| 0 <= i < j < nv.len() implies !arg_type_lt(
                #[trigger] nv[j].1,
                #[trigger] nv[i].1,
            ) by {
                if j < pos {
                    assert(nv[i] == old_out[i] && nv[j] == old_out[j]);
                } else if j == pos {
                    assert(nv[j] == xv);
                    assert(nv[i] == old_out[i]);
                } else if i == pos {
                    assert(nv[i] == xv);
                    assert(nv[j] == old_out[j - 1]);
                    lemma_arg_type_order(old_out[j - 1].1, xv.1, old_out[pos as int].1);
                    lemma_arg_type_order(old_out[pos as int].1, xv.1, xv.1);
                    if j - 1 > pos {
                        assert(!arg_type_lt(old_out[j - 1].1, old_out[pos as int].1));
                    }
                } else if i < pos {
                    assert(nv[i] == old_out[i]);
                    assert(nv[j] == old_out[j - 1]);
                } else {
                    assert(nv[i] == old_out[i - 1]);
                    assert(nv[j] == old_out[j - 1]);
                }
            }
        }
    }
    proof {
        broadcast use vstd::multiset::group_multiset_axioms;
        assert(fn_args_view(rest@) =~= Seq::empty());
        vstd::seq_lib::to_multiset_len(fn_args_view(rest@));
        vstd::multiset::lemma_multiset_empty_len(fn_args_view(rest@).to_multiset());
        assert(fn_args_view(out@).to_multiset() =~= fn_args_view(out@).to_multiset().add(
            fn_args_view(rest@).to_multiset(),
        ));
    }
    out
}

/// Whether an argument of a rocket handler is an into-params type: an
/// object without a generic wrapper.
pub open spec fn rocket_into_params_view(t: TypeTreeV) -> bool {
    t.value_type == ValueType::Object && t.generic_type is None
}

/// Whether the argument is an into-params type for rocket.
pub fn rocket_is_into_params(fn_arg: &FnArg) -> (res: bool)
    ensures
        res == rocket_into_params_view(tree_view(fn_arg.ty)),
{
    match fn_arg.ty.value_type {
        ValueType::Object => fn_arg.ty.generic_type.is_none(),
        _ => false,
    }
}

/// The arguments that are (or are not) into-params types for rocket, in
/// order.
pub open spec fn partition_rocket(vs: Seq<(TypeTreeV, ArgTypeV)>, into: bool) -> Seq<(TypeTreeV, ArgTypeV)>
    decreases vs.len(),
{
    if vs.len() == 0 {
        Seq::empty()
    } else {
        partition_rocket(vs.drop_last(), into) + if rocket_into_params_view(vs.last().0) == into {
            seq![vs.last()]
        } else {
            Seq::empty()
        }
    }
}

/// The name of an argument: its single name, or the first of the names
/// taken apart.
pub open spec fn arg_name_of(at: ArgTypeV) -> Seq<char> {
    match at {
        ArgTypeV::Single(n) => n,
        ArgTypeV::Destructed(ns) => ns[0],
    }
}

/// Whether an argument has a name: a single one, or at least one taken
/// apart.
pub open spec fn has_name(at: ArgTypeV) -> bool {
    match at {
        ArgTypeV::Single(_) => true,
        ArgTypeV::Destructed(ns) => ns.len() > 0,
    }
}

/// The name of the argument.
pub fn get_name(at: &FnArgType) -> (res: &String)
    requires
        has_name(arg_type_view(*at)),
    ensures
        res@ == arg_name_of(arg_type_view(*at)),
{
    match at {
        FnArgType::Single(n) => n,
        FnArgType::Destructed(ns) => &ns[0],
    }
}

/// The route arguments that are written as `<_>` (or not), in order.
pub open spec fn route_args_split(ms: Seq<(bool, Seq<char>, Seq<char>)>, anonymous: bool) -> Seq<(bool, Seq<char>, Seq<char>)>
    decreases ms.len(),
{
    if ms.len() == 0 {
        Seq::empty()
    } else {
        route_args_split(ms.drop_last(), anonymous) + if (ms.last().2 == anonymous_arg()) == anonymous {
            seq![ms.last()]
        } else {
            Seq::empty()
        }
    }
}

/// Where the first route argument of the name goes, if there is one.
pub open spec fn argument_in_of(ms: Seq<(bool, Seq<char>, Seq<char>)>, name: Seq<char>) -> Option<ArgumentIn>
    decreases ms.len(),
{
    if ms.len() == 0 {
        None
    } else if ms[0].1 == name {
        Some(
            if ms[0].0 {
                ArgumentIn::Query
            } else {
                ArgumentIn::Path
            },
        )
    } else {
        argument_in_of(ms.drop_first(), name)
    }
}

/// The value arguments of the handler's arguments that a route argument
/// names, in order.
pub open spec fn rocket_values(vs: Seq<(TypeTreeV, ArgTypeV)>, named: Seq<(bool, Seq<char>, Seq<char>)>) -> Seq<(Option<Seq<char>>, ArgumentIn, Option<TypeTreeV>)>
    decreases vs.len(),
{
    if vs.len() == 0 {
        Seq::empty()
    } else {
        rocket_values(vs.drop_last(), named) + match argument_in_of(named, arg_name_of(vs.last().1)) {
            Some(k) => seq![(Some(arg_name_of(vs.last().1)), k, Some(vs.last().0))],
            None => Seq::empty(),
        }
    }
}

/// The value arguments of the unnamed route arguments: their names, where
/// they go, and no type.
pub open spec fn anonymous_values(anon: Seq<(bool, Seq<char>, Seq<char>)>) -> Seq<(Option<Seq<char>>, ArgumentIn, Option<TypeTreeV>)> {
    anon.map_values(
        |m: (bool, Seq<char>, Seq<char>)|
            (
                Some(m.1),
                if m.0 {
                    ArgumentIn::Query
                } else {
                    ArgumentIn::Path
                },
                None::<TypeTreeV>,
            ),
    )
}

/// The provider of where a route argument goes.
pub open spec fn provider_for(k: ArgumentIn) -> ParameterInProvider {
    match k {
        ArgumentIn::Path => ParameterInProvider::Path,
        ArgumentIn::Query => ParameterInProvider::Query,
    }
}

/// The into-params types of the handler's into-params arguments that a
/// route argument names and that have a path, in order.
pub open spec fn rocket_into_params(vs: Seq<(TypeTreeV, ArgTypeV)>, named: Seq<(bool, Seq<char>, Seq<char>)>) -> Seq<(ParameterInProvider, Option<Seq<SegmentV>>)>
    decreases vs.len(),
{
    if vs.len() == 0 {
        Seq::empty()
    } else {
        rocket_into_params(vs.drop_last(), named) + match (
            argument_in_of(named, arg_name_of(vs.last().1)),
            vs.last().0.path,
        ) {
            (Some(k), Some(p)) => seq![(provider_for(k), Some(p))],
            _ => Seq::empty(),
        }
    }
}

fn argument_in_for(named: &Vec<MacroArg>, name: &str) -> (res: Option<ArgumentIn>)
    ensures
        res == argument_in_of(args_view(named@), name@),
{
    let ghost ms = args_view(named@);
    let n = named.len();
    proof {
        assert(ms.skip(0) =~= ms);
    }
    for i in 0..n
        invariant
            n == named@.len(),
            ms == args_view(named@),
            ms.len() == n,
            argument_in_of(ms, name@) == argument_in_of(ms.skip(i as int), name@),
    {
        proof {
            assert(ms.skip(i as int)[0] == arg_view(named@[i as int]));
            assert(ms.skip(i as int).drop_first() =~= ms.skip(i + 1));
        }
        match &named[i] {
            MacroArg::Path(v) => {
                if str_eq(v.name.as_str(), name) {
                    return Some(ArgumentIn::Path);
                }
            },
            MacroArg::Query(v) => {
                if str_eq(v.name.as_str(), name) {
                    return Some(ArgumentIn::Query);
                }
            },
        }
    }
    proof {
        assert(ms.skip(n as int) =~= Seq::empty());
    }
    None
}

/// Splits the route arguments into the unnamed ones (`<_>`) and the named
/// ones, each in order.
pub fn split_route_args(args: Vec<MacroArg>) -> (res: (Vec<MacroArg>, Vec<MacroArg>))
    ensures
        args_view(res.0@) == route_args_split(args_view(args@), true),
        args_view(res.1@) == route_args_split(args_view(args@), false),
{
    let ghost orig = args@;
    let ghost all = args_view(orig);
    let mut rest = args;
    let mut anon: Vec<MacroArg> = Vec::new();
    let mut named: Vec<MacroArg> = Vec::new();
    let n = rest.len();
    proof {
        assert(orig.skip(0) =~= orig);
        assert(all.take(0) =~= Seq::<(bool, Seq<char>, Seq<char>)>::empty());
        assert(args_view(anon@) =~= Seq::empty());
        assert(args_view(named@) =~= Seq::empty());
    }
    for i in 0..n
        invariant
            n == orig.len(),
            all == args_view(orig),
            rest@ == orig.skip(i as int),
            args_view(anon@) == route_args_split(all.take(i as int), true),
            args_view(named@) == route_args_split(all.take(i as int), false),
    {
        let a = rest.remove(0);
        proof {
            assert(a == orig[i as int]);
            assert(rest@ =~= orig.skip(i + 1));
            assert(all.take(i + 1).drop_last() =~= all.take(i as int));
            assert(all.take(i + 1).last() == arg_view(a));
        }
        let ghost av = arg_view(a);
        let ghost a0 = args_view(anon@);
        let ghost n0 = args_view(named@);
        if is_anonymous_arg(&a) {
            anon.push(a);
            proof {
                assert(args_view(anon@) =~= a0 + seq![av]);
                assert(args_view(named@) =~= n0 + Seq::empty());
            }
        } else {
            named.push(a);
            proof {
                assert(args_view(named@) =~= n0 + seq![av]);
                assert(args_view(anon@) =~= a0 + Seq::empty());
            }
        }
    }
    proof {
        assert(all.take(n as int) =~= all);
    }
    (anon, named)
}

/// The resolved arguments of a rocket handler: its value arguments and its
/// into-params types (it has no body that is read).
pub struct RocketArguments {
    pub values: Vec<ValueArgument>,
    pub into_params: Vec<IntoParamsType>,
}

/// What reading the arguments of a rocket handler needs: no internal
/// expectation fails on the way.
pub open spec fn rocket_args_ok(args: Seq<HandlerArg>, with_route: bool) -> bool {
    match fn_args_outcome(args) {
        Outcome::Done(vs) => with_route ==> forall|i: int| 0 <= i < vs.len() ==> has_name(#[trigger] vs[i].1),
        Outcome::Fail(_) => true,
        Outcome::Abort => false,
    }
}

fn partition_rocket_args(args: Vec<FnArg>) -> (res: (Vec<FnArg>, Vec<FnArg>))
    ensures
        fn_args_view(res.0@) == partition_rocket(fn_args_view(args@), true),
        fn_args_view(res.1@) == partition_rocket(fn_args_view(args@), false),
{
    let ghost orig = args@;
    let ghost all = fn_args_view(orig);
    let mut rest = args;
    let mut yes: Vec<FnArg> = Vec::new();
    let mut no: Vec<FnArg> = Vec::new();
    let n = rest.len();
    proof {
        assert(orig.skip(0) =~= orig);
        assert(all.take(0) =~= Seq::<(TypeTreeV, ArgTypeV)>::empty());
        assert(fn_args_view(yes@) =~= Seq::empty());
        assert(fn_args_view(no@) =~= Seq::empty());
    }
    for i in 0..n
        invariant
            n == orig.len(),
            all == fn_args_view(orig),
            rest@ == orig.skip(i as int),
            fn_args_view(yes@) == partition_rocket(all.take(i as int), true),
            fn_args_view(no@) == partition_rocket(all.take(i as int), false),
    {
        let arg = rest.remove(0);
        proof {
            assert(arg == orig[i as int]);
            assert(rest@ =~= orig.skip(i + 1));
            assert(all.take(i + 1).drop_last() =~= all.take(i as int));
            assert(all.take(i + 1).last() == fn_arg_view(arg));
        }
        let ghost av = fn_arg_view(arg);
        let ghost y0 = fn_args_view(yes@);
        let ghost n0 = fn_args_view(no@);
        if rocket_is_into_params(&arg) {
            yes.push(arg);
            proof {
                assert(fn_args_view(yes@) =~= y0 + seq![av]);
                assert(fn_args_view(no@) =~= n0 + Seq::empty());
            }
        } else {
            no.push(arg);
            proof {
                assert(fn_args_view(no@) =~= n0 + seq![av]);
                assert(fn_args_view(yes@) =~= y0 + Seq::empty());
            }
        }
    }
    proof {
        assert(all.take(n as int) =~= all);
    }
    (yes, no)
}

proof fn lemma_partition_rocket_names(vs: Seq<(TypeTreeV, ArgTypeV)>, into: bool)
    requires
        forall|i: int| 0 <= i < vs.len() ==> has_name(#[trigger] vs[i].1),
    ensures
        forall|j: int| 0 <= j < partition_rocket(vs, into).len() ==> has_name(#[trigger] partition_rocket(vs, into)[j].1),
    decreases vs.len(),
{
    if vs.len() > 0 {
        let front = vs.drop_last();
        assert forall|i: int| 0 <= i < front.len() implies has_name(#[trigger] front[i].1) by {
            assert(front[i] == vs[i]);
        }
        lemma_partition_rocket_names(front, into);
        let p = partition_rocket(vs, into);
        let pf = partition_rocket(front, into);
        assert(vs[vs.len() - 1] == vs.last());
        assert forall|j: int| 0 <= j < p.len() implies has_name(#[trigger] p[j].1) by {
            if j < pf.len() {
                assert(p[j] == pf[j]);
            } else {
                assert(p[j] == vs.last());
            }
        }
    }
}

fn named_values(value_args: Vec<FnArg>, named: &Vec<MacroArg>) -> (res: Vec<ValueArgument>)
    requires
        forall|i: int| 0 <= i < value_args@.len() ==> has_name(#[trigger] arg_type_view(value_args@[i].arg_type)),
    ensures
        values_view(res@) == rocket_values(fn_args_view(value_args@), args_view(named@)),
{
    let ghost orig = value_args@;
    let ghost vs = fn_args_view(orig);
    let ghost ms = args_view(named@);
    let mut rest = value_args;
    let mut out: Vec<ValueArgument> = Vec::new();
    let n = rest.len();
    proof {
        assert(orig.skip(0) =~= orig);
        assert(vs.take(0) =~= Seq::<(TypeTreeV, ArgTypeV)>::empty());
        assert(values_view(out@) =~= Seq::empty());
    }
    for i in 0..n
        invariant
            n == orig.len(),
            vs == fn_args_view(orig),
            ms == args_view(named@),
            rest@ == orig.skip(i as int),
            forall|k: int| 0 <= k < orig.len() ==> has_name(#[trigger] arg_type_view(orig[k].arg_type)),
            values_view(out@) == rocket_values(vs.take(i as int), ms),
    {
        let arg = rest.remove(0);
        proof {
            assert(arg == orig[i as int]);
            assert(rest@ =~= orig.skip(i + 1));
            assert(vs.take(i + 1).drop_last() =~= vs.take(i as int));
            assert(vs.take(i + 1).last() == fn_arg_view(arg));
            assert(has_name(arg_type_view(orig[i as int].arg_type)));
        }
        let name = get_name(&arg.arg_type).clone();
        let ghost before = values_view(out@);
        match argument_in_for(named, name.as_str()) {
            Some(k) => {
                let v = ValueArgument { name: Some(name), argument_in: k, type_tree: Some(arg.ty) };
                proof {
                    crate::fn_arg::lemma_values_push(out@, v);
                }
                out.push(v);
                proof {
                    assert(values_view(out@) =~= rocket_values(vs.take(i + 1), ms));
                }
            },
            None => {
                proof {
                    assert(values_view(out@) =~= rocket_values(vs.take(i + 1), ms));
                }
            },
        }
    }
    proof {
        assert(vs.take(n as int) =~= vs);
    }
    out
}

fn anonymous_value_args(anon: Vec<MacroArg>) -> (res: Vec<ValueArgument>)
    ensures
        values_view(res@) == anonymous_values(args_view(anon@)),
{
    let ghost orig = anon@;
    let ghost target = anonymous_values(args_view(orig));
    let mut rest = anon;
    let mut out: Vec<ValueArgument> = Vec::new();
    let n = rest.len();
    proof {
        assert(orig.skip(0) =~= orig);
        assert(values_view(out@) =~= target.take(0));
    }
    for i in 0..n
        invariant
            n == orig.len(),
            target == anonymous_values(args_view(orig)),
            target.len() == n,
            rest@ == orig.skip(i as int),
            values_view(out@) == target.take(i as int),
    {
        let a = rest.remove(0);
        proof {
            assert(a == orig[i as int]);
            assert(rest@ =~= orig.skip(i + 1));
            assert(args_view(orig)[i as int] == arg_view(a));
        }
        let v = match a {
            MacroArg::Path(v) => ValueArgument { name: Some(v.name), argument_in: ArgumentIn::Path, type_tree: None },
            MacroArg::Query(v) => ValueArgument { name: Some(v.name), argument_in: ArgumentIn::Query, type_tree: None },
        };
        proof {
            crate::fn_arg::lemma_values_push(out@, v);
            assert(value_argument_view(v) == target[i as int]);
            assert(target.take(i + 1) =~= target.take(i as int).push(target[i as int]));
        }
        out.push(v);
    }
    proof {
        assert(target.take(n as int) =~= target);
    }
    out
}

fn rocket_into_params_types(args: Vec<FnArg>, named: &Vec<MacroArg>) -> (res: Vec<IntoParamsType>)
    requires
        forall|i: int| 0 <= i < args@.len() ==> has_name(#[trigger] arg_type_view(args@[i].arg_type)),
    ensures
        res@.map_values(|t: IntoParamsType| into_params_type_view(t)) == rocket_into_params(
            fn_args_view(args@),
            args_view(named@),
        ),
{
    let ghost orig = args@;
    let ghost vs = fn_args_view(orig);
    let ghost ms = args_view(named@);
    let mut rest = args;
    let mut out: Vec<IntoParamsType> = Vec::new();
    let n = rest.len();
    proof {
        assert(orig.skip(0) =~= orig);
        assert(vs.take(0) =~= Seq::<(TypeTreeV, ArgTypeV)>::empty());
        assert(out@.map_values(|t: IntoParamsType| into_params_type_view(t)) =~= Seq::empty());
    }
    for i in 0..n
        invariant
            n == orig.len(),
            vs == fn_args_view(orig),
            ms == args_view(named@),
            rest@ == orig.skip(i as int),
            forall|k: int| 0 <= k < orig.len() ==> has_name(#[trigger] arg_type_view(orig[k].arg_type)),
            out@.map_values(|t: IntoParamsType| into_params_type_view(t)) == rocket_into_params(
                vs.take(i as int),
                ms,
            ),
    {
        let arg = rest.remove(0);
        proof {
            assert(arg == orig[i as int]);
            assert(rest@ =~= orig.skip(i + 1));
            assert(vs.take(i + 1).drop_last() =~= vs.take(i as int));
            assert(vs.take(i + 1).last() == fn_arg_view(arg));
            assert(has_name(arg_type_view(orig[i as int].arg_type)));
        }
        let ghost before = out@;
        let k = argument_in_for(named, get_name(&arg.arg_type).as_str());
        match (k, arg.ty.path) {
            (Some(k), Some(p)) => {
                let provider = match k {
                    ArgumentIn::Path => ParameterInProvider::Path,
                    ArgumentIn::Query => ParameterInProvider::Query,
                };
                let t = IntoParamsType { parameter_in_provider: provider, type_path: Some(p) };
                let ghost tv = into_params_type_view(t);
                out.push(t);
                proof {
                    assert(out@.map_values(|t: IntoParamsType| into_params_type_view(t)) =~= before.map_values(
                        |t: IntoParamsType| into_params_type_view(t),
                    ).push(tv));
                    assert(out@.map_values(|t: IntoParamsType| into_params_type_view(t)) =~= rocket_into_params(
                        vs.take(i + 1),
                        ms,
                    ));
                }
            },
            _ => {
                proof {
                    assert(out@.map_values(|t: IntoParamsType| into_params_type_view(t)) =~= rocket_into_params(
                        vs.take(i + 1),
                        ms,
                    ));
                }
            },
        }
    }
    proof {
        assert(vs.take(n as int) =~= vs);
    }
    out
}

/// Resolves the arguments of a rocket handler: they are ordered by their
/// names; those that are objects without a generic wrapper are into-params
/// types and the others value arguments; each is kept where a named route
/// argument has its name, and goes where that argument goes; the unnamed
/// route arguments follow as value arguments without a type. Without a
/// route nothing is resolved.
pub fn rocket_resolve_arguments(fn_args: &Vec<HandlerArg>, macro_path: Option<RocketMacroPath>) -> (res: Result<RocketArguments, Diagnostics>)
    requires
        rocket_args_ok(fn_args@, macro_path is Some),
    ensures
        match res {
            Err(d) => fn_args_outcome(fn_args@) is Fail && is_error(d, fn_args_outcome(fn_args@)->Fail_0),
            Ok(a) => fn_args_outcome(fn_args@) is Done && match macro_path {
                None => a.values@.len() == 0 && a.into_params@.len() == 0,
                Some(mp) => exists|p: Seq<(TypeTreeV, ArgTypeV)>|
                    #![trigger sorted_by_arg_type(p)]
                    {
                        let ms = args_view(mp.args@);
                        &&& p.to_multiset() == fn_args_outcome(fn_args@)->Done_0.to_multiset()
                        &&& sorted_by_arg_type(p)
                        &&& values_view(a.values@) == rocket_values(
                            partition_rocket(p, false),
                            route_args_split(ms, false),
                        ) + anonymous_values(route_args_split(ms, true))
                        &&& a.into_params@.map_values(|t: IntoParamsType| into_params_type_view(t))
                            == rocket_into_params(partition_rocket(p, true), route_args_split(ms, false))
                    },
            },
        },
{
    let args = get_fn_args(fn_args)?;
    let sorted = sort_fn_args(args);
    let ghost p = fn_args_view(sorted@);
    let (into_params_args, value_args) = partition_rocket_args(sorted);
    match macro_path {
        None => Ok(RocketArguments { values: Vec::new(), into_params: Vec::new() }),
        Some(mp) => {
            let ghost ms = args_view(mp.args@);
            proof {
                vstd::seq_lib::to_multiset_len(p);
                assert forall|i: int| 0 <= i < p.len() implies has_name(#[trigger] p[i].1) by {
                    let vs = fn_args_outcome(fn_args@)->Done_0;
                    broadcast use vstd::seq_lib::group_to_multiset_ensures;
                    assert(p.contains(p[i]));
                    assert(p.to_multiset().count(p[i]) > 0);
                    assert(vs.contains(p[i]));
                }
                lemma_partition_rocket_names(p, true);
                lemma_partition_rocket_names(p, false);
                assert forall|i: int| 0 <= i < value_args@.len() implies has_name(#[trigger] arg_type_view(value_args@[i].arg_type)) by {
                    assert(fn_args_view(value_args@).len() == value_args@.len());
                    assert(fn_args_view(value_args@)[i] == fn_arg_view(value_args@[i]));
                    assert(fn_args_view(value_args@)[i] == partition_rocket(p, false)[i]);
                    assert(has_name(partition_rocket(p, false)[i].1));
                }
                assert forall|i: int| 0 <= i < into_params_args@.len() implies has_name(#[trigger] arg_type_view(into_params_args@[i].arg_type)) by {
                    assert(fn_args_view(into_params_args@).len() == into_params_args@.len());
                    assert(fn_args_view(into_params_args@)[i] == fn_arg_view(into_params_args@[i]));
                    assert(fn_args_view(into_params_args@)[i] == partition_rocket(p, true)[i]);
                    assert(has_name(partition_rocket(p, true)[i].1));
                }
            }
            let (anon, named) = split_route_args(mp.args);
            let mut values = named_values(value_args, &named);
            let mut anon_values = anonymous_value_args(anon);
            let ghost v0 = values_view(values@);
            let ghost a0 = values_view(anon_values@);
            values.append(&mut anon_values);
            proof {
                assert(values_view(values@) =~= v0 + a0);
            }
            let into_params = rocket_into_params_types(into_params_args, &named);
            proof {
                assert(sorted_by_arg_type(p));
            }
            Ok(RocketArguments { values, into_params })
        },
    }
}

} // verus!
