//! Rocket route paths: `<name>` arguments in the path and the query, and
//! the `data = "<body>"` argument.
use vstd::prelude::*;
use vstd::string::StringExecFns;

use crate::ext::{
    arg_view, args_view, is_rocket_route_name, is_valid_route_type, operation_by_name,
    operation_error, ArgValue, MacroArg, PathOperation,
};
use crate::tokens::{
    expected_error, expected_message, is_punct, token_is_punct, token_str, token_str_value,
    Attribute, Token,
};
use crate::pattern::{
    find_matches, interleave, match_shape, regex_gaps, regex_matches, rocket_pattern,
    split_by_matches, strings_view,
};
use crate::text::{
    chars_of, extend_chars, find_char, first_index, has_char, lex_lt, replace_chars, replace_seq,
    str_lt, string_from_chars, sub_chars, to_lowercase, unicode_lowercase,
};

verus! {

/// `s` with each `..` taken out, from left to right.
pub open spec fn remove_dots(s: Seq<char>) -> Seq<char>
    decreases s.len(),
{
    if s.len() < 2 {
        s
    } else if s[0] == '.' && s[1] == '.' {
        remove_dots(s.skip(2))
    } else {
        seq![s[0]] + remove_dots(s.drop_first())
    }
}

/// A rocket argument `<...>` as it is written in the resolved path: `..`
/// taken out and the angle brackets turned into braces.
pub open spec fn braced(c: Seq<char>) -> Seq<char> {
    replace_seq(replace_seq(remove_dots(c), '<', '{'), '>', '}')
}

/// Whether a rocket argument is the unnamed `<_>` (or `<_..>`).
pub open spec fn is_unnamed_capture(c: Seq<char>) -> bool {
    braced(c) == seq!['{', '_', '}']
}

/// The decimal digit of a number below ten.
pub open spec fn digit_char(d: nat) -> char {
    if d == 0 {
        '0'
    } else if d == 1 {
        '1'
    } else if d == 2 {
        '2'
    } else if d == 3 {
        '3'
    } else if d == 4 {
        '4'
    } else if d == 5 {
        '5'
    } else if d == 6 {
        '6'
    } else if d == 7 {
        '7'
    } else if d == 8 {
        '8'
    } else {
        '9'
    }
}

/// The decimal digits of a number, without leading zeros.
pub open spec fn decimal(n: nat) -> Seq<char>
    decreases n,
{
    if n < 10 {
        seq![digit_char(n)]
    } else {
        decimal(n / 10) + seq![digit_char(n % 10)]
    }
}

/// What a rocket argument is written as: `{argK}` for the `K`-th unnamed
/// one, else the braced argument.
pub open spec fn rocket_written(c: Seq<char>, k: nat) -> Seq<char> {
    if is_unnamed_capture(c) {
        seq!['{', 'a', 'r', 'g'] + decimal(k) + seq!['}']
    } else {
        braced(c)
    }
}

/// The number of unnamed arguments among the captures.
pub open spec fn unnamed_count(caps: Seq<Seq<char>>) -> nat
    decreases caps.len(),
{
    if caps.len() == 0 {
        0
    } else {
        unnamed_count(caps.drop_last()) + if is_unnamed_capture(caps.last()) {
            1nat
        } else {
            0nat
        }
    }
}

/// What each capture is written as, the unnamed ones numbered from `base`.
pub open spec fn rocket_written_all(caps: Seq<Seq<char>>, base: nat) -> Seq<Seq<char>> {
    Seq::new(caps.len(), |j: int| rocket_written(caps[j], base + unnamed_count(caps.take(j))))
}

/// The text between the first and the last character.
pub open spec fn inner(w: Seq<char>) -> Seq<char> {
    w.subrange(1, w.len() - 1)
}

/// The arguments of the captures: in the query or not, the name between the
/// braces of what the capture is written as, and the capture itself.
pub open spec fn rocket_arg_views(caps: Seq<Seq<char>>, base: nat, query: bool) -> Seq<
    (bool, Seq<char>, Seq<char>),
> {
    Seq::new(
        caps.len(),
        |j: int| (query, inner(rocket_written(caps[j], base + unnamed_count(caps.take(j)))), caps[j]),
    )
}

/// The part before the first `?` and the part after it; the whole text and
/// nothing where there is no `?`.
pub open spec fn split_query(whole: Seq<char>) -> (Seq<char>, Seq<char>) {
    if has_char(whole, '?') {
        (whole.take(first_index(whole, '?')), whole.skip(first_index(whole, '?') + 1))
    } else {
        (whole, Seq::empty())
    }
}

/// The resolved rocket path: the part before the query with each argument
/// written as `{name}`.
pub open spec fn rocket_path(whole: Seq<char>) -> Seq<char> {
    let p = split_query(whole).0;
    interleave(regex_gaps(rocket_pattern(), p), rocket_written_all(regex_matches(rocket_pattern(), p), 0))
}

/// The arguments of a rocket path before they are ordered: those of the path,
/// then those of the query where there is one, unnamed ones numbered across
/// both.
pub open spec fn rocket_unsorted_args(whole: Seq<char>) -> Seq<(bool, Seq<char>, Seq<char>)> {
    let mp = regex_matches(rocket_pattern(), split_query(whole).0);
    let q = split_query(whole).1;
    rocket_arg_views(mp, 0, false) + if q.len() == 0 {
        Seq::empty()
    } else {
        rocket_arg_views(regex_matches(rocket_pattern(), q), unnamed_count(mp), true)
    }
}

/// Whether the arguments are ordered by name.
pub open spec fn sorted_by_name(s: Seq<(bool, Seq<char>, Seq<char>)>) -> bool {
    forall|i: int, j: int| 0 <= i < j < s.len() ==> !lex_lt(#[trigger] s[j].1, #[trigger] s[i].1)
}

/// A rocket route as read from its attribute: the path, the method where it
/// is written out, and the `data` argument.
pub struct RocketPath {
    pub path: String,
    pub operation: Option<String>,
    pub body: Option<String>,
}

/// A resolved rocket route and its arguments.
pub struct RocketMacroPath {
    pub path: RocketPath,
    pub args: Vec<MacroArg>,
}

/// The text without angle brackets.
pub open spec fn remove_angles(s: Seq<char>) -> Seq<char> {
    s.filter(|c: char| c != '<' && c != '>')
}

/// The view of an optional string.
pub open spec fn opt_string_view(o: Option<String>) -> Option<Seq<char>> {
    match o {
        Some(s) => Some(s@),
        None => None,
    }
}

fn remove_dots_exec(v: &Vec<char>) -> (res: Vec<char>)
    ensures
        res@ == remove_dots(v@),
{
    let n = v.len();
    let mut out: Vec<char> = Vec::new();
    let mut i: usize = 0;
    proof {
        assert(v@.skip(0) =~= v@);
    }
    while i < n
        invariant
            n == v@.len(),
            i <= n,
            out@ + remove_dots(v@.skip(i as int)) == remove_dots(v@),
        decreases n - i,
    {
        let ghost rest = v@.skip(i as int);
        if i + 1 < n && v[i] == '.' && v[i + 1] == '.' {
            proof {
                assert(rest.skip(2) =~= v@.skip(i + 2));
            }
            i = i + 2;
        } else {
            proof {
                assert(rest.drop_first() =~= v@.skip(i + 1));
                assert(out@.push(v@[i as int]) + remove_dots(v@.skip(i + 1)) =~= out@ + (seq![
                    v@[i as int],
                ] + remove_dots(v@.skip(i + 1))));
            }
            out.push(v[i]);
            i = i + 1;
        }
    }
    proof {
        assert(v@.skip(n as int) =~= Seq::<char>::empty());
        assert(out@ + Seq::<char>::empty() =~= out@);
    }
    out
}

fn digit_exec(d: usize) -> (res: char)
    requires
        d < 10,
    ensures
        res == digit_char(d as nat),
{
    if d == 0 {
        '0'
    } else if d == 1 {
        '1'
    } else if d == 2 {
        '2'
    } else if d == 3 {
        '3'
    } else if d == 4 {
        '4'
    } else if d == 5 {
        '5'
    } else if d == 6 {
        '6'
    } else if d == 7 {
        '7'
    } else if d == 8 {
        '8'
    } else {
        '9'
    }
}

/// The decimal digits of a number.
pub fn decimal_chars(n: usize) -> (res: Vec<char>)
    ensures
        res@ == decimal(n as nat),
    decreases n,
{
    if n < 10 {
        let mut v: Vec<char> = Vec::new();
        v.push(digit_exec(n));
        proof {
            assert(v@ =~= seq![digit_char(n as nat)]);
        }
        v
    } else {
        let mut v = decimal_chars(n / 10);
        v.push(digit_exec(n % 10));
        v
    }
}

fn is_unnamed_braced(w: &Vec<char>) -> (res: bool)
    ensures
        res == (w@ == seq!['{', '_', '}']),
{
    if w.len() == 3 && w[0] == '{' && w[1] == '_' && w[2] == '}' {
        proof {
            assert(w@ =~= seq!['{', '_', '}']);
        }
        true
    } else {
        false
    }
}

/// Writes one rocket argument; the count of unnamed arguments so far numbers
/// an unnamed one.
fn rocket_capture(c: &String, count: usize, query: bool) -> (res: (MacroArg, Vec<char>, bool))
    requires
        delimited_rocket(c@),
    ensures
        res.1@ == rocket_written(c@, count as nat),
        res.2 == is_unnamed_capture(c@),
        arg_view(res.0) == (query, inner(rocket_written(c@, count as nat)), c@),
{
    let v = chars_of(c.as_str());
    let no_dots = remove_dots_exec(&v);
    let opened = replace_chars(&no_dots, '<', '{');
    let w = replace_chars(&opened, '>', '}');
    let unnamed = is_unnamed_braced(&w);
    let written = if unnamed {
        let mut a: Vec<char> = Vec::new();
        a.push('{');
        a.push('a');
        a.push('r');
        a.push('g');
        let digits = decimal_chars(count);
        extend_chars(&mut a, &digits);
        a.push('}');
        proof {
            assert(a@ =~= seq!['{', 'a', 'r', 'g'] + decimal(count as nat) + seq!['}']);
        }
        a
    } else {
        w
    };
    proof {
        lemma_written_len(c@, count as nat);
    }
    let name = sub_chars(&written, 1, written.len() - 1);
    let value = ArgValue { name: string_from_chars(&name), original_name: c.clone() };
    let arg = if query {
        MacroArg::Query(value)
    } else {
        MacroArg::Path(value)
    };
    (arg, written, unnamed)
}

/// What the rocket pattern matches: `<`, a letter, digit or `_`, no angle
/// bracket, then `>`.
pub open spec fn delimited_rocket(c: Seq<char>) -> bool {
    crate::pattern::delimited(c, '<', '>', true)
}

proof fn lemma_remove_dots_keeps_first(s: Seq<char>)
    requires
        s.len() >= 1,
        s[0] != '.',
    ensures
        remove_dots(s).len() >= 1,
        remove_dots(s)[0] == s[0],
{
    if s.len() >= 2 {
        assert(remove_dots(s) == seq![s[0]] + remove_dots(s.drop_first()));
    }
}

proof fn lemma_remove_dots_len(s: Seq<char>)
    ensures
        remove_dots(s).len() <= s.len(),
    decreases s.len(),
{
    if s.len() >= 2 {
        if s[0] == '.' && s[1] == '.' {
            lemma_remove_dots_len(s.skip(2));
        } else {
            lemma_remove_dots_len(s.drop_first());
        }
    }
}

/// A written argument has at least two characters, so that its name lies
/// between its first and last.
proof fn lemma_written_len(c: Seq<char>, k: nat)
    requires
        delimited_rocket(c),
    ensures
        rocket_written(c, k).len() >= 2,
{
    if !is_unnamed_capture(c) {
        let d = remove_dots(c);
        assert(c.len() >= 3);
        let mut tail = c.drop_first();
        assert(tail[0] == c[1]);
        lemma_remove_dots_keeps_first(c);
        if c.len() >= 2 {
            assert(d == seq![c[0]] + remove_dots(c.drop_first()));
            lemma_remove_dots_keeps_first(c.drop_first());
        }
    }
}

proof fn lemma_interleave_step(gaps: Seq<Seq<char>>, pieces: Seq<Seq<char>>, i: int)
    requires
        0 <= i < pieces.len(),
        gaps.len() == pieces.len() + 1,
    ensures
        interleave(gaps.take(i + 2), pieces.take(i + 1)) == interleave(gaps.take(i + 1), pieces.take(i))
            + pieces[i] + gaps[i + 1],
{
    assert(gaps.take(i + 2).drop_last() =~= gaps.take(i + 1));
    assert(pieces.take(i + 1).drop_last() =~= pieces.take(i));
}

proof fn lemma_unnamed_count_step(caps: Seq<Seq<char>>, i: int)
    requires
        0 <= i < caps.len(),
    ensures
        unnamed_count(caps.take(i + 1)) == unnamed_count(caps.take(i)) + if is_unnamed_capture(
            caps[i],
        ) {
            1nat
        } else {
            0nat
        },
        unnamed_count(caps.take(i)) <= i,
    decreases i,
{
    assert(caps.take(i + 1).drop_last() =~= caps.take(i));
    if i > 0 {
        lemma_unnamed_count_step(caps, i - 1);
    } else {
        assert(caps.take(0) =~= Seq::<Seq<char>>::empty());
    }
}

/// Resolves the arguments of the captures in order, pushing them to `args`;
/// gives what each is written as and the new count of unnamed arguments.
fn resolve_captures(
    matches: &Vec<String>,
    caps: Ghost<Seq<Seq<char>>>,
    base: usize,
    query: bool,
    args: &mut Vec<MacroArg>,
) -> (res: (Vec<Vec<char>>, usize))
    requires
        strings_view(matches@) == caps@,
        forall|j: int| 0 <= j < caps@.len() ==> delimited_rocket(#[trigger] caps@[j]),
        base as nat + caps@.len() <= usize::MAX,
    ensures
        res.1 == base + unnamed_count(caps@),
        res.0@.len() == caps@.len(),
        forall|j: int|
            0 <= j < caps@.len() ==> (#[trigger] res.0@[j])@ == rocket_written_all(caps@, base as nat)[j],
        args_view(final(args)@) == args_view(old(args)@) + rocket_arg_views(caps@, base as nat, query),
{
    let k = matches.len();
    let mut count = base;
    let mut written: Vec<Vec<char>> = Vec::new();
    let ghost start = args@;
    proof {
        assert(strings_view(matches@).len() == matches@.len());
        assert(caps@.take(0) =~= Seq::<Seq<char>>::empty());
    }
    for i in 0..k
        invariant
            k == matches@.len(),
            k == caps@.len(),
            strings_view(matches@) == caps@,
            forall|j: int| 0 <= j < caps@.len() ==> delimited_rocket(#[trigger] caps@[j]),
            base as nat + caps@.len() <= usize::MAX,
            count == base + unnamed_count(caps@.take(i as int)),
            written@.len() == i,
            forall|j: int|
                0 <= j < i ==> (#[trigger] written@[j])@ == rocket_written_all(caps@, base as nat)[j],
            args_view(args@) == args_view(start) + rocket_arg_views(caps@, base as nat, query).take(
                i as int,
            ),
    {
        proof {
            assert(strings_view(matches@)[i as int] == matches@[i as int]@);
            lemma_unnamed_count_step(caps@, i as int);
        }
        let (arg, w, unnamed) = rocket_capture(&matches[i], count, query);
        let ghost before = args@;
        let ghost new_arg = arg;
        args.push(arg);
        written.push(w);
        if unnamed {
            count = count + 1;
        }
        proof {
            assert(args@ =~= before.push(new_arg));
            assert(args_view(args@) =~= args_view(before).push(arg_view(new_arg)));
            assert(rocket_arg_views(caps@, base as nat, query).take(i + 1) =~= rocket_arg_views(
                caps@,
                base as nat,
                query,
            ).take(i as int).push(rocket_arg_views(caps@, base as nat, query)[i as int]));
        }
    }
    proof {
        assert(caps@.take(k as int) =~= caps@);
        assert(rocket_arg_views(caps@, base as nat, query).take(k as int) =~= rocket_arg_views(
            caps@,
            base as nat,
            query,
        ));
    }
    (written, count)
}

/// Puts the written arguments back between the gaps.
fn interleave_exec(gaps: &Vec<String>, written: &Vec<Vec<char>>, gs: Ghost<Seq<Seq<char>>>, ws: Ghost<Seq<Seq<char>>>) -> (res: Vec<char>)
    requires
        strings_view(gaps@) == gs@,
        gs@.len() == ws@.len() + 1,
        written@.len() == ws@.len(),
        forall|j: int| 0 <= j < ws@.len() ==> (#[trigger] written@[j])@ == ws@[j],
    ensures
        res@ == interleave(gs@, ws@),
{
    proof {
        assert(strings_view(gaps@).len() == gaps@.len());
        assert(strings_view(gaps@)[0] == gaps@[0]@);
    }
    let mut out: Vec<char> = chars_of(gaps[0].as_str());
    let k = written.len();
    for i in 0..k
        invariant
            k == written@.len(),
            k == ws@.len(),
            strings_view(gaps@) == gs@,
            gs@.len() == ws@.len() + 1,
            gaps@.len() == k + 1,
            forall|j: int| 0 <= j < ws@.len() ==> (#[trigger] written@[j])@ == ws@[j],
            out@ == interleave(gs@.take(i + 1), ws@.take(i as int)),
    {
        proof {
            assert(strings_view(gaps@)[i + 1] == gaps@[i + 1]@);
        }
        extend_chars(&mut out, &written[i]);
        let gap = chars_of(gaps[i + 1].as_str());
        extend_chars(&mut out, &gap);
        proof {
            lemma_interleave_step(gs@, ws@, i as int);
        }
    }
    proof {
        assert(gs@.take(k + 1) =~= gs@);
        assert(ws@.take(k as int) =~= ws@);
    }
    out
}

fn remove_angles_exec(s: &String) -> (res: String)
    ensures
        res@ == remove_angles(s@),
{
    let v = chars_of(s.as_str());
    let n = v.len();
    let mut out: Vec<char> = Vec::new();
    for i in 0..n
        invariant
            n == v@.len(),
            out@ == remove_angles(v@.take(i as int)),
    {
        proof {
            assert(v@.take(i + 1).drop_last() =~= v@.take(i as int));
            reveal_with_fuel(Seq::filter, 1);
        }
        if v[i] != '<' && v[i] != '>' {
            out.push(v[i]);
        }
    }
    proof {
        assert(v@.take(n as int) =~= v@);
    }
    string_from_chars(&out)
}

/// Sorts the arguments by name (the order of arguments with the same name
/// is left open).
pub fn sort_args_by_name(args: Vec<MacroArg>) -> (res: Vec<MacroArg>)
    ensures
        args_view(res@).to_multiset() == args_view(args@).to_multiset(),
        sorted_by_name(args_view(res@)),
{
    let mut rest = args;
    let mut out: Vec<MacroArg> = Vec::new();
    let ghost all = args_view(rest@);
    proof {
        assert(args_view(out@) =~= Seq::empty());
        broadcast use vstd::multiset::group_multiset_axioms;
        vstd::seq_lib::to_multiset_len(args_view(out@));
        vstd::multiset::lemma_multiset_empty_len(args_view(out@).to_multiset());
        assert(args_view(out@).to_multiset() =~= vstd::multiset::Multiset::empty());
        assert(args_view(out@).to_multiset().add(args_view(rest@).to_multiset()) =~= all.to_multiset());
    }
    while rest.len() > 0
        invariant
            args_view(out@).to_multiset().add(args_view(rest@).to_multiset()) == all.to_multiset(),
            sorted_by_name(args_view(out@)),
        decreases rest@.len(),
    {
        let ghost rest_before = rest@;
        let x = rest.pop().unwrap();
        let ghost xv = arg_view(x);
        let n = out.len();
        let mut pos: usize = 0;
        while pos < n && !str_lt(x.get_value().name.as_str(), out[pos].get_value().name.as_str())
            invariant
                n == out@.len(),
                pos <= n,
                forall|k: int| 0 <= k < pos ==> !lex_lt(xv.1, #[trigger] args_view(out@)[k].1),
                xv == arg_view(x),
            decreases n - pos,
        {
            proof {
                assert(args_view(out@)[pos as int] == arg_view(out@[pos as int]));
            }
            pos = pos + 1;
        }
        let ghost old_out = args_view(out@);
        proof {
            if pos < n {
                assert(old_out[pos as int] == arg_view(out@[pos as int]));
                assert(lex_lt(xv.1, old_out[pos as int].1));
            }
        }
        out.insert(pos, x);
        proof {
            assert(args_view(out@) =~= old_out.insert(pos as int, xv));
            assert(rest_before =~= rest@.push(x));
            assert(args_view(rest_before) =~= args_view(rest@).push(xv));
            vstd::seq_lib::to_multiset_insert(old_out, pos as int, xv);
            let rv = args_view(rest@);
            assert(rv.push(xv).drop_last() =~= rv);
            vstd::seq_lib::to_multiset_build(rv, xv);
            broadcast use vstd::multiset::group_multiset_axioms;
            assert(args_view(out@).to_multiset().add(args_view(rest@).to_multiset()) =~= old_out.to_multiset().add(
                args_view(rest_before).to_multiset(),
            ));
            let nv = args_view(out@);
            assert forall|i: int, j: int| 0 <= i < j < nv.len() implies !lex_lt(
                #[trigger] nv[j].1,
                #[trigger] nv[i].1,
            ) by {
                if j < pos {
                    assert(nv[i] == old_out[i] && nv[j] == old_out[j]);
                } else if j == pos {
                    assert(nv[j] == xv);
                    assert(nv[i] == old_out[i]);
                    crate::text::lemma_lex_total(xv.1, old_out[i].1);
                } else if i == pos {
                    assert(nv[i] == xv);
                    assert(nv[j] == old_out[j - 1]);
                    if lex_lt(old_out[j - 1].1, xv.1) {
                        assert(lex_lt(xv.1, old_out[pos as int].1));
                        if j - 1 > pos {
                            assert(!lex_lt(old_out[j - 1].1, old_out[pos as int].1));
                        }
                        crate::text::lemma_lex_transitive(old_out[j - 1].1, xv.1, old_out[pos as int].1);
                        crate::text::lemma_lex_irreflexive(old_out[pos as int].1);
                    }
                } else if i < pos {
                    assert(nv[i] == old_out[i]);
                    assert(nv[j] == old_out[j - 1]);
                } else {
                    assert(nv[i] == old_out[i - 1]);
                    assert(nv[j] == old_out[j - 1]);
                }
            }
        }
    }
    proof {
        assert(args_view(rest@) =~= Seq::empty());
        broadcast use vstd::multiset::group_multiset_axioms;
        vstd::seq_lib::to_multiset_len(args_view(rest@));
        vstd::multiset::lemma_multiset_empty_len(args_view(rest@).to_multiset());
        assert(args_view(rest@).to_multiset() =~= vstd::multiset::Multiset::empty());
        assert(args_view(out@).to_multiset() =~= args_view(out@).to_multiset().add(
            args_view(rest@).to_multiset(),
        ));
    }
    out
}

/// Resolves a rocket route: the arguments `<name>` (and `<name..>`) of the
/// path are written as `{name}`, an unnamed `<_>` as `{argK}`, and the
/// query after `?` is read for its arguments only. The arguments are ordered
/// by name, and the angle brackets are taken out of the `data` argument.
pub fn rocket_resolve_path(path: Option<RocketPath>) -> (res: Option<RocketMacroPath>)
    ensures
        match path {
            None => res is None,
            Some(p) => res is Some && {
                let r = res->Some_0;
                &&& r.path.path@ == rocket_path(p.path@)
                &&& r.path.operation == p.operation
                &&& opt_string_view(r.path.body) == match p.body {
                    Some(b) => Some(remove_angles(b@)),
                    None => None,
                }
                &&& args_view(r.args@).to_multiset() == rocket_unsorted_args(p.path@).to_multiset()
                &&& sorted_by_name(args_view(r.args@))
            },
        },
{
    let p = match path {
        None => {
            return None;
        },
        Some(p) => p,
    };
    let whole = chars_of(p.path.as_str());
    let wl = whole.len();
    let (path_part, query_part) = match find_char(&whole, '?') {
        Some(i) => {
            proof {
                assert(i < wl);
            }
            let a = sub_chars(&whole, 0, i);
            let b = sub_chars(&whole, i + 1, whole.len());
            proof {
                assert(a@ =~= whole@.take(i as int));
                assert(b@ =~= whole@.skip(i + 1));
            }
            (a, b)
        },
        None => (whole.clone(), Vec::new()),
    };
    proof {
        assert(path_part@ == split_query(p.path@).0);
        assert(query_part@ =~= split_query(p.path@).1);
    }
    let path_str = string_from_chars(&path_part);
    let pattern = "<[a-zA-Z0-9_][^<>]*>";
    proof {
        assert(pattern@ == rocket_pattern());
        lemma_rocket_shape();
    }
    let matches = match find_matches(pattern, path_str.as_str()) {
        Some(m) => m,
        None => {
            return None;
        },
    };
    let gaps = match split_by_matches(pattern, path_str.as_str()) {
        Some(g) => g,
        None => {
            return None;
        },
    };
    let ghost mp = regex_matches(rocket_pattern(), path_part@);
    let ghost gp = regex_gaps(rocket_pattern(), path_part@);
    proof {
        assert(strings_view(matches@).len() == matches@.len());
        assert(path_str@ == path_part@);
        assert forall|j: int| 0 <= j < mp.len() implies delimited_rocket(#[trigger] mp[j]) by {
            assert(strings_view(matches@)[j] == matches@[j]@);
            assert(match_shape(rocket_pattern(), regex_matches(pattern@, path_str@)[j]));
        }
    }
    let ml = matches.len();
    let mut args: Vec<MacroArg> = Vec::new();
    let (written, count) = resolve_captures(&matches, Ghost(mp), 0, false, &mut args);
    proof {
        assert(args_view(Seq::<MacroArg>::empty()) =~= Seq::empty());
    }
    let out = interleave_exec(&gaps, &written, Ghost(gp), Ghost(rocket_written_all(mp, 0)));
    if query_part.len() > 0 {
        let query_str = string_from_chars(&query_part);
        let qmatches = match find_matches(pattern, query_str.as_str()) {
            Some(m) => m,
            None => {
                return None;
            },
        };
        let qgaps = match split_by_matches(pattern, query_str.as_str()) {
            Some(g) => g,
            None => {
                return None;
            },
        };
        let ghost mq = regex_matches(rocket_pattern(), query_part@);
        proof {
            assert(strings_view(qmatches@).len() == qmatches@.len());
            assert(query_str@ == query_part@);
            assert forall|j: int| 0 <= j < mq.len() implies delimited_rocket(#[trigger] mq[j]) by {
                assert(strings_view(qmatches@)[j] == qmatches@[j]@);
                assert(match_shape(rocket_pattern(), regex_matches(pattern@, query_str@)[j]));
            }
            lemma_unnamed_count_le(mp);
            lemma_interleave_len(gp, mp);
            lemma_interleave_len(regex_gaps(rocket_pattern(), query_part@), mq);
            assert(path_part@.len() + query_part@.len() <= whole@.len());
        }
        let _ = resolve_captures(&qmatches, Ghost(mq), count, true, &mut args);
    } else {
        proof {
            assert(args_view(args@) =~= args_view(args@) + Seq::empty());
        }
    }
    let body = match &p.body {
        Some(b) => Some(remove_angles_exec(b)),
        None => None,
    };
    let sorted = sort_args_by_name(args);
    Some(
        RocketMacroPath {
            path: RocketPath { path: string_from_chars(&out), operation: p.operation, body },
            args: sorted,
        },
    )
}

/// Pieces that are not empty, put between gaps, give a text at least as long
/// as there are pieces.
proof fn lemma_interleave_len(gaps: Seq<Seq<char>>, pieces: Seq<Seq<char>>)
    requires
        gaps.len() == pieces.len() + 1,
        forall|j: int| 0 <= j < pieces.len() ==> (#[trigger] pieces[j]).len() >= 1,
    ensures
        interleave(gaps, pieces).len() >= pieces.len(),
    decreases pieces.len(),
{
    if pieces.len() > 0 {
        lemma_interleave_len(gaps.drop_last(), pieces.drop_last());
        assert(pieces.last().len() >= 1);
    }
}

/// A match of the rocket pattern is delimited by angle brackets.
proof fn lemma_rocket_shape()
    ensures
        forall|m: Seq<char>| #[trigger] match_shape(rocket_pattern(), m) ==> delimited_rocket(m),
{
    reveal_strlit("\\{[a-zA-Z0-9_][^{}]*}");
    reveal_strlit("\\{[a-zA-Z0-9][^{}]*}");
    reveal_strlit("<[a-zA-Z0-9_][^<>]*>");
    assert(rocket_pattern()[0] != crate::pattern::actix_pattern()[0]);
    assert(rocket_pattern()[0] != crate::pattern::axum_pattern()[0]);
}

proof fn lemma_unnamed_count_le(caps: Seq<Seq<char>>)
    ensures
        unnamed_count(caps) <= caps.len(),
    decreases caps.len(),
{
    if caps.len() > 0 {
        lemma_unnamed_count_le(caps.drop_last());
    }
}

/// What a rocket route attribute's arguments read as: `("path")`, or
/// `(METHOD, uri = "path")` with perhaps `, data = "<body>"` after it; what
/// follows is not read. Each error is the one of the first token that is not
/// as expected.
pub open spec fn rocket_route(tokens: Seq<Token>) -> Result<(Seq<char>, Option<Seq<char>>, Option<Seq<char>>), Seq<char>> {
    if tokens.len() > 0 && tokens[0] is Ident {
        let op = tokens[0]->Ident_0@;
        if !(tokens.len() > 1 && is_punct(tokens[1], ',')) {
            Err("expected `,`"@)
        } else if !(tokens.len() > 2 && tokens[2] is Ident) {
            Err(expected_message(tokens, 2, "expected identifier"@))
        } else if !(tokens.len() > 3 && is_punct(tokens[3], '=')) {
            Err("expected `=`"@)
        } else if !(tokens.len() > 4 && token_str(tokens[4]) is Some) {
            Err(expected_message(tokens, 4, "expected string literal"@))
        } else if tokens.len() > 6 && is_punct(tokens[5], ',') && tokens[6] is Ident {
            if !(tokens.len() > 7 && is_punct(tokens[7], '=')) {
                Err("expected `=`"@)
            } else if !(tokens.len() > 8 && token_str(tokens[8]) is Some) {
                Err(expected_message(tokens, 8, "expected string literal"@))
            } else {
                Ok((token_str(tokens[4])->Some_0, Some(op), Some(token_str(tokens[8])->Some_0)))
            }
        } else {
            Ok((token_str(tokens[4])->Some_0, Some(op), None))
        }
    } else if tokens.len() > 0 && token_str(tokens[0]) is Some {
        Ok((token_str(tokens[0])->Some_0, None, None))
    } else {
        Err(expected_message(tokens, 0, "expected string literal"@))
    }
}

/// The view of a rocket route.
pub open spec fn route_view(r: RocketPath) -> (Seq<char>, Option<Seq<char>>, Option<Seq<char>>) {
    (r.path@, opt_string_view(r.operation), opt_string_view(r.body))
}

fn is_ident_token(t: &Token) -> (res: bool)
    ensures
        res == (*t is Ident),
{
    match t {
        Token::Ident(_) => true,
        _ => false,
    }
}

impl RocketPath {
    /// Reads the arguments of a rocket route attribute.
    pub fn parse(tokens: &Vec<Token>) -> (res: Result<RocketPath, String>)
        ensures
            match res {
                Ok(r) => rocket_route(tokens@) == Ok::<
                    (Seq<char>, Option<Seq<char>>, Option<Seq<char>>),
                    Seq<char>,
                >(route_view(r)),
                Err(e) => rocket_route(tokens@) == Err::<
                    (Seq<char>, Option<Seq<char>>, Option<Seq<char>>),
                    Seq<char>,
                >(e@),
            },
    {
        let n = tokens.len();
        if n > 0 && is_ident_token(&tokens[0]) {
            let op = match &tokens[0] {
                Token::Ident(s) => s.clone(),
                _ => String::new(),
            };
            if !(n > 1 && token_is_punct(&tokens[1], ',')) {
                return Err(String::from_str("expected `,`"));
            }
            if !(n > 2 && is_ident_token(&tokens[2])) {
                return Err(expected_error(tokens, 2, "expected identifier"));
            }
            if !(n > 3 && token_is_punct(&tokens[3], '=')) {
                return Err(String::from_str("expected `=`"));
            }
            let uri = if n > 4 {
                token_str_value(&tokens[4])
            } else {
                None
            };
            let uri = match uri {
                Some(u) => u,
                None => {
                    return Err(expected_error(tokens, 4, "expected string literal"));
                },
            };
            if n > 6 && token_is_punct(&tokens[5], ',') && is_ident_token(&tokens[6]) {
                if !(n > 7 && token_is_punct(&tokens[7], '=')) {
                    return Err(String::from_str("expected `=`"));
                }
                let body = if n > 8 {
                    token_str_value(&tokens[8])
                } else {
                    None
                };
                match body {
                    Some(b) => Ok(RocketPath { path: uri, operation: Some(op), body: Some(b) }),
                    None => Err(expected_error(tokens, 8, "expected string literal")),
                }
            } else {
                Ok(RocketPath { path: uri, operation: Some(op), body: None })
            }
        } else {
            let p = if n > 0 {
                token_str_value(&tokens[0])
            } else {
                None
            };
            match p {
                Some(p) => Ok(RocketPath { path: p, operation: None, body: None }),
                None => Err(expected_error(tokens, 0, "expected string literal")),
            }
        }
    }
}

/// Whether the attribute marks a rocket route: its path is one of the route
/// names.
pub open spec fn is_route_attribute(a: Attribute) -> bool {
    a.path@.len() == 1 && is_rocket_route_name(a.path@[0]@)
}

/// The operation of a route: its written-out method, lower-cased, or else
/// the name of its attribute.
pub open spec fn route_operation(route: (Seq<char>, Option<Seq<char>>, Option<Seq<char>>), attr_name: Seq<char>) -> Option<PathOperation> {
    match route.1 {
        Some(op) => operation_by_name(unicode_lowercase(op)),
        None => operation_by_name(attr_name),
    }
}

/// The message for a route attribute whose arguments do not read.
pub open spec fn route_parse_message(e: Seq<char>) -> Seq<char> {
    "parse path of path operation attribute: "@ + e
}

/// What resolving the operation of a rocket handler gives, from its
/// attribute at `k`, the first route attribute.
pub open spec fn rocket_operation(a: Attribute) -> Result<(PathOperation, (Seq<char>, Option<Seq<char>>, Option<Seq<char>>)), Seq<char>> {
    match rocket_route(a.args@) {
        Err(e) => Err(route_parse_message(e)),
        Ok(route) => match route_operation(route, a.path@[0]@) {
            Some(op) => Ok((op, route)),
            None => Err(operation_error()),
        },
    }
}

/// Resolves the operation of a rocket handler from the first of its
/// attributes that marks a route: the operation and the route; none without
/// such an attribute. A route whose arguments do not read, or whose method
/// is none, is an error.
pub fn rocket_resolve_operation(attrs: &Vec<Attribute>) -> (res: Result<Option<(PathOperation, RocketPath)>, String>)
    ensures
        match res {
            Ok(None) => forall|j: int| 0 <= j < attrs@.len() ==> !is_route_attribute(#[trigger] attrs@[j]),
            Ok(Some((op, r))) => exists|k: int|
                0 <= k < attrs@.len() && is_route_attribute(attrs@[k]) && (forall|j: int|
                    0 <= j < k ==> !is_route_attribute(#[trigger] attrs@[j])) && rocket_operation(attrs@[k])
                    == Ok::<(PathOperation, (Seq<char>, Option<Seq<char>>, Option<Seq<char>>)), Seq<char>>(
                    (op, route_view(r)),
                ),
            Err(e) => exists|k: int|
                0 <= k < attrs@.len() && is_route_attribute(attrs@[k]) && (forall|j: int|
                    0 <= j < k ==> !is_route_attribute(#[trigger] attrs@[j])) && rocket_operation(attrs@[k])
                    == Err::<(PathOperation, (Seq<char>, Option<Seq<char>>, Option<Seq<char>>)), Seq<char>>(e@),
        },
{
    let n = attrs.len();
    for k in 0..n
        invariant
            n == attrs@.len(),
            forall|j: int| 0 <= j < k ==> !is_route_attribute(#[trigger] attrs@[j]),
    {
        let a = &attrs[k];
        let is_route = a.path.len() == 1 && is_valid_route_type(Some(a.path[0].as_str()));
        if is_route {
            match RocketPath::parse(&a.args) {
                Err(e) => {
                    let mut msg = chars_of("parse path of path operation attribute: ");
                    let ev = chars_of(e.as_str());
                    extend_chars(&mut msg, &ev);
                    return Err(string_from_chars(&msg));
                },
                Ok(route) => {
                    let op = match &route.operation {
                        Some(o) => {
                            let lower = to_lowercase(o.as_str());
                            PathOperation::from_name(lower.as_str())
                        },
                        None => PathOperation::from_name(a.path[0].as_str()),
                    };
                    return match op {
                        Ok(op) => Ok(Some((op, route))),
                        Err(e) => Err(e),
                    };
                },
            }
        }
    }
    Ok(None)
}

} // verus!
