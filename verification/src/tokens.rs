//! The tokens of an attribute's argument list, as plain values.
use vstd::prelude::*;

verus! {

/// One top-level token tree of an attribute's arguments.
pub enum Token {
    /// An identifier, by its name.
    Ident(String),
    /// A punctuation character.
    Punct(char),
    /// A literal, by its source text (a string literal keeps its quotes).
    Literal(String),
    /// A delimited group: its opening delimiter (`(`, `[`, `{`, or a space
    /// for invisible delimiters) and its top-level tokens.
    Group(char, Vec<Token>),
}

/// An attribute of an item, as plain values: the segments of its path, the
/// top-level tokens of its argument list, and the string of its
/// `name = "value"` form where it has one.
pub struct Attribute {
    pub path: Vec<String>,
    pub args: Vec<Token>,
    pub name_value_str: Option<String>,
}

/// Whether the attribute's path is the single identifier `name`.
pub open spec fn attr_is(a: Attribute, name: Seq<char>) -> bool {
    a.path@.len() == 1 && a.path@[0]@ == name
}

/// Whether the token is the identifier `name`.
pub open spec fn is_ident(t: Token, name: Seq<char>) -> bool {
    match t {
        Token::Ident(s) => s@ == name,
        _ => false,
    }
}

/// The text with every double quote removed.
pub open spec fn unquote(s: Seq<char>) -> Seq<char> {
    s.filter(|c: char| c != '"')
}

/// The string literal that follows position `i`, reading past `=` signs: the
/// first token there that is neither `=` nor a literal gives `None`.
pub open spec fn next_lit_str(tokens: Seq<Token>, i: int) -> Option<Seq<char>>
    decreases tokens.len() - i,
{
    if i < 0 || i >= tokens.len() {
        None
    } else {
        match tokens[i] {
            Token::Punct(c) => if c == '=' {
                next_lit_str(tokens, i + 1)
            } else {
                None
            },
            Token::Literal(l) => Some(unquote(l@)),
            _ => None,
        }
    }
}

/// What `syn` reads a literal's source text as: the value of a string
/// literal (its escapes resolved), or none where the text is no string
/// literal.
pub uninterp spec fn syn_str_value(text: Seq<char>) -> Option<Seq<char>>;

/// Parses the text with `syn::parse_str` as a `syn::LitStr` and gives its
/// value. The result is named, not written out: it is the literal's value
/// where the text is one string literal, and none otherwise.
#[verifier::external_body]
pub(crate) fn lit_str_value(text: &str) -> (res: Option<String>)
    ensures
        match res {
            Some(v) => syn_str_value(text@) == Some(v@),
            None => syn_str_value(text@) is None,
        },
{
    syn::parse_str::<syn::LitStr>(text).ok().map(|lit| lit.value())
}

/// The string value of a token: a literal that `syn` reads as a string.
pub open spec fn token_str(t: Token) -> Option<Seq<char>> {
    match t {
        Token::Literal(l) => syn_str_value(l@),
        _ => None,
    }
}

/// The string value of a token, as `token_str` says.
pub fn token_str_value(t: &Token) -> (res: Option<String>)
    ensures
        match res {
            Some(v) => token_str(*t) == Some(v@),
            None => token_str(*t) is None,
        },
{
    match t {
        Token::Literal(l) => lit_str_value(l.as_str()),
        _ => None,
    }
}

/// Whether the token is the punctuation character.
pub open spec fn is_punct(t: Token, c: char) -> bool {
    t matches Token::Punct(p) && p == c
}

/// Whether the token is the punctuation character.
pub fn token_is_punct(t: &Token, c: char) -> (res: bool)
    ensures
        res == is_punct(*t, c),
{
    match t {
        Token::Punct(p) => *p == c,
        _ => false,
    }
}

/// The error of a parser that expected something at position `i`: at the end
/// of the tokens it says so first.
pub open spec fn expected_message(tokens: Seq<Token>, i: int, expected: Seq<char>) -> Seq<char> {
    if i >= tokens.len() {
        "unexpected end of input, "@ + expected
    } else {
        expected
    }
}

/// The error of a parser that expected something at position `i`.
pub fn expected_error(tokens: &Vec<Token>, i: usize, expected: &str) -> (res: String)
    ensures
        res@ == expected_message(tokens@, i as int, expected@),
{
    let mut v: Vec<char> = Vec::new();
    if i >= tokens.len() {
        v = crate::text::chars_of("unexpected end of input, ");
    }
    let e = crate::text::chars_of(expected);
    crate::text::extend_chars(&mut v, &e);
    proof {
        if i < tokens.len() {
            assert(v@ =~= expected@);
        }
    }
    crate::text::string_from_chars(&v)
}

/// Removes every double quote from the text.
pub fn unquote_string(s: &String) -> (res: String)
    ensures
        res@ == unquote(s@),
{
    let v = crate::text::chars_of(s.as_str());
    let mut res = String::new();
    let n = v.len();
    for i in 0..n
        invariant
            n == v@.len(),
            res@ == v@.take(i as int).filter(|c: char| c != '"'),
    {
        reveal(Seq::filter);
        assert(v@.take(i + 1).drop_last() =~= v@.take(i as int));
        if v[i] != '"' {
            crate::text::string_push(&mut res, v[i]);
        }
    }
    assert(v@.take(n as int) =~= v@);
    res
}

/// Reads the string literal after position `i`, as `next_lit_str` says.
pub fn parse_next_lit_str(tokens: &Vec<Token>, i: usize) -> (res: Option<String>)
    ensures
        match res {
            Some(s) => next_lit_str(tokens@, i as int) == Some(s@),
            None => next_lit_str(tokens@, i as int) is None,
        },
{
    let mut j = i;
    while j < tokens.len()
        invariant
            i <= j,
            next_lit_str(tokens@, i as int) == next_lit_str(tokens@, j as int),
        decreases tokens.len() - j,
    {
        match &tokens[j] {
            Token::Punct(c) => {
                if *c == '=' {
                    j = j + 1;
                } else {
                    return None;
                }
            },
            Token::Literal(l) => {
                return Some(unquote_string(l));
            },
            _ => {
                return None;
            },
        }
    }
    None
}

/// Whether the token is the identifier `name`.
pub fn token_is_ident(t: &Token, name: &str) -> (res: bool)
    ensures
        res == is_ident(*t, name@),
{
    match t {
        Token::Ident(s) => crate::text::str_eq(s.as_str(), name),
        _ => false,
    }
}

/// Whether the attribute's path is the single identifier `name`.
pub fn attribute_is(a: &Attribute, name: &str) -> (res: bool)
    ensures
        res == attr_is(*a, name@),
{
    if a.path.len() == 1 {
        crate::text::str_eq(a.path[0].as_str(), name)
    } else {
        false
    }
}

/// The position of the first attribute whose path is `name`.
pub fn find_attribute(attrs: &Vec<Attribute>, name: &str) -> (res: Option<usize>)
    ensures
        match res {
            Some(i) => i < attrs@.len() && attr_is(attrs@[i as int], name@) && forall|j: int|
                0 <= j < i ==> !attr_is(#[trigger] attrs@[j], name@),
            None => forall|j: int| 0 <= j < attrs@.len() ==> !attr_is(#[trigger] attrs@[j], name@),
        },
{
    let n = attrs.len();
    for i in 0..n
        invariant
            n == attrs@.len(),
            forall|j: int| 0 <= j < i ==> !attr_is(#[trigger] attrs@[j], name@),
    {
        if attribute_is(&attrs[i], name) {
            return Some(i);
        }
    }
    None
}

} // verus!
