//! Web framework integration: path templates and their arguments.
use vstd::prelude::*;
use vstd::string::StringExecFns;

use crate::pattern::{
    actix_pattern, axum_pattern, delimited, find_matches, interleave, match_shape, regex_gaps,
    regex_matches, split_by_matches, strings_view,
};
use crate::tokens::{is_ident, token_is_ident, Token};
use crate::text::{
    chars_of, extend_chars, lex_lt, str_lt, find_char, first_index, has_char, str_eq,
    string_from_chars, sub_chars,
};

verus! {

/// A path argument: its name, and the text that stood for it in the path.
pub struct ArgValue {
    pub name: String,
    pub original_name: String,
}

/// An argument of a path template: in the path, or in the query.
pub enum MacroArg {
    Path(ArgValue),
    Query(ArgValue),
}

/// A path template with the arguments found in it.
pub struct MacroPath {
    pub path: String,
    pub args: Vec<MacroArg>,
}

/// Where an argument goes.
#[derive(PartialEq, Eq, Structural, Clone, Copy, Debug)]
pub enum ArgumentIn {
    Path,
    Query,
}

/// The view of an argument: whether it is in the query, its name and its
/// original text.
pub open spec fn arg_view(a: MacroArg) -> (bool, Seq<char>, Seq<char>) {
    match a {
        MacroArg::Path(v) => (false, v.name@, v.original_name@),
        MacroArg::Query(v) => (true, v.name@, v.original_name@),
    }
}

/// The views of a sequence of arguments.
pub open spec fn args_view(s: Seq<MacroArg>) -> Seq<(bool, Seq<char>, Seq<char>)> {
    s.map_values(|a: MacroArg| arg_view(a))
}

/// Whether the text holds `_:`.
pub open spec fn has_unnamed_capture(c: Seq<char>) -> bool {
    exists|i: int| 0 <= i < c.len() - 1 && #[trigger] c[i] == '_' && c[i + 1] == ':'
}

/// The name of an actix path argument `{...}`: `arg0` for an unnamed
/// regex capture, the part before the `:` of a named regex, or else the text
/// between the braces.
pub open spec fn actix_arg_name(c: Seq<char>) -> Seq<char> {
    if has_unnamed_capture(c) {
        "arg0"@
    } else if has_char(c, ':') {
        c.subrange(1, first_index(c, ':'))
    } else {
        c.subrange(1, c.len() - 1)
    }
}

/// What an actix path argument is written as in the resolved path.
pub open spec fn actix_replacement(c: Seq<char>) -> Seq<char> {
    if has_unnamed_capture(c) {
        "{arg0}"@
    } else if has_char(c, ':') {
        seq!['{'] + c.subrange(1, first_index(c, ':')) + seq!['}']
    } else {
        c
    }
}

/// The resolved actix path.
pub open spec fn actix_path(path: Seq<char>) -> Seq<char> {
    interleave(
        regex_gaps(actix_pattern(), path),
        regex_matches(actix_pattern(), path).map_values(|c: Seq<char>| actix_replacement(c)),
    )
}

/// The arguments of an actix path, in order.
pub open spec fn actix_args(path: Seq<char>) -> Seq<(bool, Seq<char>, Seq<char>)> {
    regex_matches(actix_pattern(), path).map_values(
        |c: Seq<char>| (false, actix_arg_name(c), c),
    )
}

/// The name of an axum path argument: the text between the braces.
pub open spec fn axum_args(path: Seq<char>) -> Seq<(bool, Seq<char>, Seq<char>)> {
    regex_matches(axum_pattern(), path).map_values(
        |c: Seq<char>| (false, c.subrange(1, c.len() - 1), c),
    )
}

fn has_unnamed_capture_exec(c: &Vec<char>) -> (res: bool)
    ensures
        res == has_unnamed_capture(c@),
{
    let n = c.len();
    if n < 2 {
        return false;
    }
    for i in 0..n - 1
        invariant
            n == c@.len(),
            n >= 2,
            forall|j: int| 0 <= j < i ==> !(#[trigger] c@[j] == '_' && c@[j + 1] == ':'),
    {
        if c[i] == '_' && c[i + 1] == ':' {
            return true;
        }
    }
    false
}

fn char_vec(s: &str) -> (res: Vec<char>)
    ensures
        res@ == s@,
{
    chars_of(s)
}

/// Reads one actix path argument: its name and what it is written as.
fn actix_capture(c: &String) -> (res: (ArgValue, Vec<char>))
    requires
        delimited(c@, '{', '}', true),
    ensures
        res.0.name@ == actix_arg_name(c@),
        res.0.original_name@ == c@,
        res.1@ == actix_replacement(c@),
{
    let v = chars_of(c.as_str());
    let original_name = c.clone();
    if has_unnamed_capture_exec(&v) {
        (ArgValue { name: String::from_str("arg0"), original_name }, char_vec("{arg0}"))
    } else {
        match find_char(&v, ':') {
            Some(colon) => {
                let name = sub_chars(&v, 1, colon);
                let mut written: Vec<char> = Vec::new();
                written.push('{');
                extend_chars(&mut written, &name);
                written.push('}');
                proof {
                    assert(written@ =~= seq!['{'] + c@.subrange(1, first_index(c@, ':')) + seq!['}']);
                }
                (ArgValue { name: string_from_chars(&name), original_name }, written)
            },
            None => {
                let name = sub_chars(&v, 1, v.len() - 1);
                (ArgValue { name: string_from_chars(&name), original_name }, v)
            },
        }
    }
}

proof fn lemma_interleave_step(gaps: Seq<Seq<char>>, pieces: Seq<Seq<char>>, i: int)
    requires
        0 <= i < pieces.len(),
        gaps.len() == pieces.len() + 1,
    ensures
        interleave(gaps.take(i + 2), pieces.take(i + 1)) == interleave(gaps.take(i + 1), pieces.take(i))
            + pieces[i] + gaps[i + 1],
{
    assert(gaps.take(i + 2).drop_last() =~= gaps.take(i + 1));
    assert(pieces.take(i + 1).drop_last() =~= pieces.take(i));
}

proof fn lemma_interleave_start(gaps: Seq<Seq<char>>, pieces: Seq<Seq<char>>)
    requires
        gaps.len() >= 1,
    ensures
        interleave(gaps.take(1), pieces.take(0)) == gaps[0],
{
}

/// Resolves an actix-web path template: each `{...}` argument is named and
/// reduced to `{name}`, and the arguments are listed in order.
pub fn actix_resolve_path(path: &Option<String>) -> (res: Option<MacroPath>)
    ensures
        match path {
            None => res is None,
            Some(p) => res is Some && res->Some_0.path@ == actix_path(p@) && args_view(
                res->Some_0.args@,
            ) == actix_args(p@),
        },
{
    match path {
        None => None,
        Some(p) => {
            let pattern = "\\{[a-zA-Z0-9_][^{}]*}";
            let matches = match find_matches(pattern, p.as_str()) {
                Some(m) => m,
                None => {
                    return None;
                },
            };
            let gaps = match split_by_matches(pattern, p.as_str()) {
                Some(g) => g,
                None => {
                    return None;
                },
            };
            let ghost ms = regex_matches(pattern@, p@);
            let ghost gs = regex_gaps(pattern@, p@);
            let ghost reps = ms.map_values(|c: Seq<char>| actix_replacement(c));
            proof {
                assert(pattern@ == actix_pattern());
                assert(strings_view(matches@).len() == matches@.len());
                assert(strings_view(gaps@).len() == gaps@.len());
            }
            let mut out: Vec<char> = chars_of(gaps[0].as_str());
            let mut args: Vec<MacroArg> = Vec::new();
            let k = matches.len();
            proof {
                assert(strings_view(gaps@)[0] == gaps@[0]@);
                lemma_interleave_start(gs, reps);
            }
            for i in 0..k
                invariant
                    k == matches@.len(),
                    ms == regex_matches(actix_pattern(), p@),
                    gs == regex_gaps(actix_pattern(), p@),
                    reps == ms.map_values(|c: Seq<char>| actix_replacement(c)),
                    strings_view(matches@) == ms,
                    strings_view(gaps@) == gs,
                    gs.len() == ms.len() + 1,
                    gaps@.len() == k + 1,
                    forall|j: int| 0 <= j < k ==> match_shape(actix_pattern(), #[trigger] ms[j]),
                    out@ == interleave(gs.take(i + 1), reps.take(i as int)),
                    args@.len() == i,
                    forall|j: int|
                        0 <= j < i ==> #[trigger] arg_view(args@[j]) == (
                            false,
                            actix_arg_name(ms[j]),
                            ms[j],
                        ),
            {
                proof {
                    assert(strings_view(matches@)[i as int] == matches@[i as int]@);
                    assert(strings_view(gaps@)[i + 1] == gaps@[i + 1]@);
                    assert(match_shape(actix_pattern(), ms[i as int]));
                }
                let (arg, written) = actix_capture(&matches[i]);
                let ghost before = args@;
                let ghost new_arg = MacroArg::Path(arg);
                args.push(MacroArg::Path(arg));
                proof {
                    assert(args@ =~= before.push(new_arg));
                    assert(arg_view(new_arg) == (false, actix_arg_name(ms[i as int]), ms[i as int]));
                }
                extend_chars(&mut out, &written);
                let gap = chars_of(gaps[i + 1].as_str());
                extend_chars(&mut out, &gap);
                proof {
                    lemma_interleave_step(gs, reps, i as int);
                }
            }
            proof {
                assert(gs.take(k + 1) =~= gs);
                assert(reps.take(k as int) =~= reps);
                assert(args_view(args@) =~= actix_args(p@));
            }
            Some(MacroPath { path: string_from_chars(&out), args })
        },
    }
}

/// Resolves an axum path template: the path is kept, and each `{name}`
/// argument is listed in order.
pub fn axum_resolve_path(path: &Option<String>) -> (res: Option<MacroPath>)
    ensures
        match path {
            None => res is None,
            Some(p) => res is Some && res->Some_0.path@ == interleave(
                regex_gaps(axum_pattern(), p@),
                regex_matches(axum_pattern(), p@),
            ) && args_view(res->Some_0.args@) == axum_args(p@),
        },
{
    match path {
        None => None,
        Some(p) => {
            let pattern = "\\{[a-zA-Z0-9][^{}]*}";
            let matches = match find_matches(pattern, p.as_str()) {
                Some(m) => m,
                None => {
                    return None;
                },
            };
            let gaps = match split_by_matches(pattern, p.as_str()) {
                Some(g) => g,
                None => {
                    return None;
                },
            };
            let ghost ms = regex_matches(pattern@, p@);
            let ghost gs = regex_gaps(pattern@, p@);
            proof {
                assert(pattern@ == axum_pattern());
                assert(strings_view(matches@).len() == matches@.len());
                assert(strings_view(gaps@).len() == gaps@.len());
            }
            let mut out: Vec<char> = chars_of(gaps[0].as_str());
            let mut args: Vec<MacroArg> = Vec::new();
            let k = matches.len();
            proof {
                assert(strings_view(gaps@)[0] == gaps@[0]@);
                lemma_interleave_start(gs, ms);
            }
            for i in 0..k
                invariant
                    k == matches@.len(),
                    ms == regex_matches(axum_pattern(), p@),
                    gs == regex_gaps(axum_pattern(), p@),
                    strings_view(matches@) == ms,
                    strings_view(gaps@) == gs,
                    gs.len() == ms.len() + 1,
                    gaps@.len() == k + 1,
                    forall|j: int| 0 <= j < k ==> match_shape(axum_pattern(), #[trigger] ms[j]),
                    out@ == interleave(gs.take(i + 1), ms.take(i as int)),
                    args@.len() == i,
                    forall|j: int|
                        0 <= j < i ==> #[trigger] arg_view(args@[j]) == (
                            false,
                            ms[j].subrange(1, ms[j].len() - 1),
                            ms[j],
                        ),
            {
                proof {
                    assert(strings_view(matches@)[i as int] == matches@[i as int]@);
                    assert(strings_view(gaps@)[i + 1] == gaps@[i + 1]@);
                    assert(match_shape(axum_pattern(), ms[i as int]));
                    reveal_strlit("\\{[a-zA-Z0-9_][^{}]*}");
                    reveal_strlit("\\{[a-zA-Z0-9][^{}]*}");
                    assert(actix_pattern().len() != axum_pattern().len());
                }
                let c = chars_of(matches[i].as_str());
                let name = sub_chars(&c, 1, c.len() - 1);
                let ghost before = args@;
                let arg = MacroArg::Path(
                    ArgValue { name: string_from_chars(&name), original_name: matches[i].clone() },
                );
                let ghost new_arg = arg;
                args.push(arg);
                proof {
                    assert(args@ =~= before.push(new_arg));
                    assert(arg_view(new_arg) == (false, ms[i as int].subrange(1, ms[i as int].len() - 1), ms[i as int]));
                }
                extend_chars(&mut out, &c);
                let gap = chars_of(gaps[i + 1].as_str());
                extend_chars(&mut out, &gap);
                proof {
                    lemma_interleave_step(gs, ms, i as int);
                }
            }
            proof {
                assert(gs.take(k + 1) =~= gs);
                assert(ms.take(k as int) =~= ms);
                assert(args_view(args@) =~= axum_args(p@));
            }
            Some(MacroPath { path: string_from_chars(&out), args })
        },
    }
}

/// A path operation: the HTTP method of a handler.
#[derive(PartialEq, Eq, Structural, Clone, Copy, Debug)]
pub enum PathOperation {
    Get,
    Post,
    Put,
    Delete,
    Options,
    Head,
    Patch,
    Trace,
    Connect,
}

/// The lower-case name of each path operation.
pub open spec fn operation_name(op: PathOperation) -> Seq<char> {
    match op {
        PathOperation::Get => "get"@,
        PathOperation::Post => "post"@,
        PathOperation::Put => "put"@,
        PathOperation::Delete => "delete"@,
        PathOperation::Options => "options"@,
        PathOperation::Head => "head"@,
        PathOperation::Patch => "patch"@,
        PathOperation::Trace => "trace"@,
        PathOperation::Connect => "connect"@,
    }
}

/// The path operation of a lower-case name, if it is one.
pub open spec fn operation_by_name(s: Seq<char>) -> Option<PathOperation> {
    if s == "get"@ {
        Some(PathOperation::Get)
    } else if s == "post"@ {
        Some(PathOperation::Post)
    } else if s == "put"@ {
        Some(PathOperation::Put)
    } else if s == "delete"@ {
        Some(PathOperation::Delete)
    } else if s == "options"@ {
        Some(PathOperation::Options)
    } else if s == "head"@ {
        Some(PathOperation::Head)
    } else if s == "patch"@ {
        Some(PathOperation::Patch)
    } else if s == "trace"@ {
        Some(PathOperation::Trace)
    } else if s == "connect"@ {
        Some(PathOperation::Connect)
    } else {
        None
    }
}

/// The message for a name that is no path operation.
pub open spec fn operation_error() -> Seq<char> {
    "invalid PathOperation expected one of: get, post, put, delete, options, head, patch, trace, connect"@
}

impl PathOperation {
    /// Reads a path operation from its lower-case name.
    pub fn from_name(s: &str) -> (res: Result<PathOperation, String>)
        ensures
            match res {
                Ok(op) => operation_by_name(s@) == Some(op),
                Err(e) => operation_by_name(s@) is None && e@ == operation_error(),
            },
    {
        if str_eq(s, "get") {
            Ok(PathOperation::Get)
        } else if str_eq(s, "post") {
            Ok(PathOperation::Post)
        } else if str_eq(s, "put") {
            Ok(PathOperation::Put)
        } else if str_eq(s, "delete") {
            Ok(PathOperation::Delete)
        } else if str_eq(s, "options") {
            Ok(PathOperation::Options)
        } else if str_eq(s, "head") {
            Ok(PathOperation::Head)
        } else if str_eq(s, "patch") {
            Ok(PathOperation::Patch)
        } else if str_eq(s, "trace") {
            Ok(PathOperation::Trace)
        } else if str_eq(s, "connect") {
            Ok(PathOperation::Connect)
        } else {
            Err(String::from_str("invalid PathOperation expected one of: get, post, put, delete, options, head, patch, trace, connect"))
        }
    }
}

impl std::str::FromStr for PathOperation {
    type Err = String;

    fn from_str(s: &str) -> (res: Result<PathOperation, String>)
        ensures
            match res {
                Ok(op) => operation_by_name(s@) == Some(op),
                Err(e) => operation_by_name(s@) is None && e@ == operation_error(),
            },
    {
        PathOperation::from_name(s)
    }
}

/// A path operation read from a handler, with its path.
pub struct ResolvedOperation {
    pub path_operation: PathOperation,
    pub path: String,
}

/// The resolvers used when no web framework integration is enabled.
pub struct PathOperations;

/// The second form of resolvers used when no web framework integration is
/// enabled.
pub struct PathOperations2;

impl PathOperations {
    /// Without a framework integration no path template is read.
    pub fn resolve_path(path: &Option<String>) -> (res: Option<MacroPath>)
        ensures
            res is None,
    {
        None
    }
}

impl PathOperations2 {
    /// Without a framework integration no path is read.
    pub fn resolve_path(path: &Option<String>) -> (res: Option<String>)
        ensures
            res is None,
    {
        None
    }
}

impl MacroArg {
    /// The name and original text of the argument.
    pub fn get_value(&self) -> (res: &ArgValue)
        ensures
            *res == match *self {
                MacroArg::Path(v) => v,
                MacroArg::Query(v) => v,
            },
    {
        match self {
            MacroArg::Path(path) => path,
            MacroArg::Query(query) => query,
        }
    }

    /// Orders arguments by name.
    pub fn by_name(a: &MacroArg, b: &MacroArg) -> (res: std::cmp::Ordering)
        ensures
            res == std::cmp::Ordering::Less <==> lex_lt(arg_view(*a).1, arg_view(*b).1),
            res == std::cmp::Ordering::Greater <==> lex_lt(arg_view(*b).1, arg_view(*a).1),
            res == std::cmp::Ordering::Equal <==> arg_view(*a).1 == arg_view(*b).1,
    {
        let x = a.get_value().name.as_str();
        let y = b.get_value().name.as_str();
        proof {
            crate::text::lemma_lex_total(arg_view(*a).1, arg_view(*b).1);
            crate::text::lemma_lex_irreflexive(arg_view(*a).1);
        }
        if str_lt(x, y) {
            std::cmp::Ordering::Less
        } else if str_lt(y, x) {
            std::cmp::Ordering::Greater
        } else {
            std::cmp::Ordering::Equal
        }
    }
}

/// The text that stands for an unnamed rocket argument.
pub open spec fn anonymous_arg() -> Seq<char> {
    "<_>"@
}

/// Whether a rocket argument is written as `<_>`.
pub fn is_anonymous_arg(arg: &MacroArg) -> (res: bool)
    ensures
        res == (arg_view(*arg).2 == anonymous_arg()),
{
    str_eq(arg.get_value().original_name.as_str(), "<_>")
}

/// The attributes that mark an actix-web route.
pub open spec fn is_actix_route_name(s: Seq<char>) -> bool {
    s == "get"@ || s == "post"@ || s == "put"@ || s == "delete"@ || s == "head"@ || s == "connect"@
        || s == "options"@ || s == "trace"@ || s == "patch"@ || s == "route"@
}

/// Whether an attribute identifier marks an actix-web route.
pub fn is_valid_actix_route_attribute(ident: Option<&str>) -> (res: bool)
    ensures
        res == match ident {
            Some(s) => is_actix_route_name(s@),
            None => false,
        },
{
    match ident {
        Some(s) => str_eq(s, "get") || str_eq(s, "post") || str_eq(s, "put") || str_eq(s, "delete")
            || str_eq(s, "head") || str_eq(s, "connect") || str_eq(s, "options") || str_eq(s, "trace")
            || str_eq(s, "patch") || str_eq(s, "route"),
        None => false,
    }
}

/// The attributes that mark a rocket route.
pub open spec fn is_rocket_route_name(s: Seq<char>) -> bool {
    s == "get"@ || s == "post"@ || s == "put"@ || s == "delete"@ || s == "head"@ || s == "options"@
        || s == "patch"@ || s == "route"@
}

/// Whether an attribute identifier marks a rocket route.
pub fn is_valid_route_type(ident: Option<&str>) -> (res: bool)
    ensures
        res == match ident {
            Some(s) => is_rocket_route_name(s@),
            None => false,
        },
{
    match ident {
        Some(s) => str_eq(s, "get") || str_eq(s, "post") || str_eq(s, "put") || str_eq(s, "delete")
            || str_eq(s, "head") || str_eq(s, "options") || str_eq(s, "patch") || str_eq(s, "route"),
        None => false,
    }
}

/// The HTTP methods that an actix-web `#[route(...)]` may document.
pub open spec fn is_allowed_method(s: Seq<char>) -> bool {
    s == "GET"@ || s == "POST"@ || s == "PUT"@ || s == "DELETE"@ || s == "HEAD"@ || s == "OPTIONS"@
        || s == "TRACE"@ || s == "PATCH"@
}

/// What the reader of `method = "..."` pairs has seen last.
pub enum PrevToken {
    Method,
    Equals,
}

/// A literal that starts and ends with a one-byte character.
pub open spec fn literal_ok(t: Token) -> bool {
    match t {
        Token::Literal(l) => l@.len() >= 2 && (l@[0] as u32) < 128 && (l@[l@.len() - 1] as u32) < 128,
        _ => true,
    }
}

/// What reading one token of a route's arguments does to the state and the
/// methods found.
pub open spec fn route_step(prev: Option<PrevToken>, methods: Seq<Seq<char>>, t: Token) -> (
    Option<PrevToken>,
    Seq<Seq<char>>,
) {
    if is_ident(t, "method"@) {
        (Some(PrevToken::Method), methods)
    } else if t matches Token::Punct(c) && c == '=' && prev matches Some(PrevToken::Method) {
        (Some(PrevToken::Equals), methods)
    } else if t matches Token::Literal(l) && prev matches Some(PrevToken::Equals) {
        let m = t->Literal_0@.subrange(1, t->Literal_0@.len() - 1);
        (None, if is_allowed_method(m) {
            methods.push(m)
        } else {
            methods
        })
    } else {
        (prev, methods)
    }
}

/// The state and methods after the first `n` tokens.
pub open spec fn route_upto(tokens: Seq<Token>, n: int) -> (Option<PrevToken>, Seq<Seq<char>>)
    decreases n,
{
    if n <= 0 {
        (None, Seq::empty())
    } else {
        let (prev, methods) = route_upto(tokens, n - 1);
        route_step(prev, methods, tokens[n - 1])
    }
}

/// The HTTP methods named by `method = "..."` pairs after a route's path,
/// those that are documented.
pub fn route_methods(tokens: &Vec<Token>) -> (res: Vec<String>)
    requires
        forall|i: int|
            0 <= i < tokens@.len() && route_upto(tokens@, i).0 == Some(PrevToken::Equals)
                ==> literal_ok(#[trigger] tokens@[i]),
    ensures
        strings_view(res@) == route_upto(tokens@, tokens@.len() as int).1,
{
    let mut prev: Option<PrevToken> = None;
    let mut methods: Vec<String> = Vec::new();
    let n = tokens.len();
    for i in 0..n
        invariant
            n == tokens@.len(),
            forall|j: int|
                0 <= j < n && route_upto(tokens@, j).0 == Some(PrevToken::Equals) ==> literal_ok(
                    #[trigger] tokens@[j],
                ),
            (prev, strings_view(methods@)) == route_upto(tokens@, i as int),
    {
        let t = &tokens[i];
        proof {
            if prev == Some(PrevToken::Equals) {
                assert(literal_ok(tokens@[i as int]));
            }
        }
        if token_is_ident(t, "method") {
            prev = Some(PrevToken::Method);
        } else {
            match t {
                Token::Punct(c) => {
                    if *c == '=' && matches!(prev, Some(PrevToken::Method)) {
                        prev = Some(PrevToken::Equals);
                    }
                },
                Token::Literal(l) => {
                    if matches!(prev, Some(PrevToken::Equals)) {
                        let v = chars_of(l.as_str());
                        let m = sub_chars(&v, 1, v.len() - 1);
                        let ms = string_from_chars(&m);
                        if is_allowed_method_exec(ms.as_str()) {
                            let ghost before = methods@;
                            methods.push(ms);
                            proof {
                                assert(strings_view(methods@) =~= strings_view(before).push(m@));
                            }
                        }
                        prev = None;
                    }
                },
                _ => {},
            }
        }
    }
    methods
}

fn is_allowed_method_exec(s: &str) -> (res: bool)
    ensures
        res == is_allowed_method(s@),
{
    str_eq(s, "GET") || str_eq(s, "POST") || str_eq(s, "PUT") || str_eq(s, "DELETE") || str_eq(s, "HEAD")
        || str_eq(s, "OPTIONS") || str_eq(s, "TRACE") || str_eq(s, "PATCH")
}

/// Reading the name of a path operation gives the operation back.
pub proof fn lemma_operation_name_roundtrip(op: PathOperation)
    ensures
        operation_by_name(operation_name(op)) == Some(op),
{
    reveal_strlit("get");
    assert("get"@.len() == 3 && "get"@[0] == 'g');
    reveal_strlit("post");
    assert("post"@.len() == 4 && "post"@[0] == 'p');
    reveal_strlit("put");
    assert("put"@.len() == 3 && "put"@[0] == 'p');
    reveal_strlit("delete");
    assert("delete"@.len() == 6 && "delete"@[0] == 'd');
    reveal_strlit("options");
    assert("options"@.len() == 7 && "options"@[0] == 'o');
    reveal_strlit("head");
    assert("head"@.len() == 4 && "head"@[0] == 'h');
    reveal_strlit("patch");
    assert("patch"@.len() == 5 && "patch"@[0] == 'p');
    reveal_strlit("trace");
    assert("trace"@.len() == 5 && "trace"@[0] == 't');
    reveal_strlit("connect");
    assert("connect"@.len() == 7 && "connect"@[0] == 'c');
}

} // verus!
