//! The `xml(...)` attribute of schema fields: how a value is named and
//! wrapped in XML.
use vstd::prelude::*;
use vstd::string::StringExecFns;

use crate::text::{chars_of, extend_chars, str_eq, string_from_chars};
use crate::tokens::{
    expected_error, expected_message, is_ident, is_punct, token_is_ident, token_is_punct,
    token_str, token_str_value, Token,
};

verus! {

/// The XML options of a schema field.
pub struct Xml {
    pub name: Option<String>,
    pub namespace: Option<String>,
    pub prefix: Option<String>,
    pub is_attribute: bool,
    pub is_wrapped: bool,
    pub wrap_name: Option<String>,
}

/// The view of an [`Xml`].
pub struct XmlV {
    pub name: Option<Seq<char>>,
    pub namespace: Option<Seq<char>>,
    pub prefix: Option<Seq<char>>,
    pub is_attribute: bool,
    pub is_wrapped: bool,
    pub wrap_name: Option<Seq<char>>,
}

/// The view of an optional string.
pub open spec fn opt_view(o: Option<String>) -> Option<Seq<char>> {
    match o {
        Some(s) => Some(s@),
        None => None,
    }
}

impl View for Xml {
    type V = XmlV;

    open spec fn view(&self) -> XmlV {
        XmlV {
            name: opt_view(self.name),
            namespace: opt_view(self.namespace),
            prefix: opt_view(self.prefix),
            is_attribute: self.is_attribute,
            is_wrapped: self.is_wrapped,
            wrap_name: opt_view(self.wrap_name),
        }
    }
}

/// The XML options with nothing set.
pub open spec fn empty_xml() -> XmlV {
    XmlV {
        name: None,
        namespace: None,
        prefix: None,
        is_attribute: false,
        is_wrapped: false,
        wrap_name: None,
    }
}

/// What `attribute` reads: `= true` or `= false`, else `true` with nothing
/// read; and the position after it.
pub open spec fn bool_or_true(tokens: Seq<Token>, i: int) -> (bool, int) {
    if i + 1 < tokens.len() && is_punct(tokens[i], '=') && (is_ident(tokens[i + 1], "true"@)
        || is_ident(tokens[i + 1], "false"@)) {
        (is_ident(tokens[i + 1], "true"@), i + 2)
    } else {
        (true, i)
    }
}

/// The message for an unknown option.
pub open spec fn unexpected_option_message(name: Seq<char>) -> Seq<char> {
    "unexpected attribute: "@ + name + ", expected one of: name, namespace, prefix, attribute, wrapped"@
}

/// What the inside of `wrapped(...)` reads as: `name = "..."`.
pub open spec fn wrapped_name(inner: Seq<Token>) -> Result<Seq<char>, Seq<char>> {
    if !(inner.len() > 0 && inner[0] is Ident) {
        Err(expected_message(inner, 0, "expected identifier"@))
    } else if !is_ident(inner[0], "name"@) {
        Err("unexpected wrapped attribute, expected: name"@)
    } else if !(inner.len() > 1 && is_punct(inner[1], '=')) {
        Err("expected `=`"@)
    } else if !(inner.len() > 2 && token_str(inner[2]) is Some) {
        Err(expected_message(inner, 2, "expected string literal"@))
    } else if inner.len() > 3 {
        Err("unexpected token"@)
    } else {
        Ok(token_str(inner[2])->Some_0)
    }
}

/// The string after `=` at position `i`.
pub open spec fn next_str(tokens: Seq<Token>, i: int) -> Result<Seq<char>, Seq<char>> {
    if !(i < tokens.len() && is_punct(tokens[i], '=')) {
        Err("expected `=`"@)
    } else if !(i + 1 < tokens.len() && token_str(tokens[i + 1]) is Some) {
        Err(expected_message(tokens, i + 1, "expected string literal"@))
    } else {
        Ok(token_str(tokens[i + 1])->Some_0)
    }
}

/// What reading one option at position `i` gives: the options after it and
/// the position after it and its comma.
pub open spec fn xml_step(tokens: Seq<Token>, i: int, acc: XmlV) -> Result<(XmlV, int), Seq<char>> {
    if !(tokens[i] is Ident) {
        Err("expected identifier"@)
    } else {
        let name = tokens[i]->Ident_0@;
        let read: Result<(XmlV, int), Seq<char>> = if name == "name"@ || name == "namespace"@ || name
            == "prefix"@ {
            match next_str(tokens, i + 1) {
                Ok(v) => Ok(
                    (
                        if name == "name"@ {
                            XmlV { name: Some(v), ..acc }
                        } else if name == "namespace"@ {
                            XmlV { namespace: Some(v), ..acc }
                        } else {
                            XmlV { prefix: Some(v), ..acc }
                        },
                        i + 3,
                    ),
                ),
                Err(e) => Err(e),
            }
        } else if name == "attribute"@ {
            let (b, j) = bool_or_true(tokens, i + 1);
            Ok((XmlV { is_attribute: b, ..acc }, j))
        } else if name == "wrapped"@ {
            if i + 1 < tokens.len() && (tokens[i + 1] matches Token::Group(d, inner) && d == '(') {
                match wrapped_name(tokens[i + 1]->Group_1@) {
                    Ok(w) => Ok((XmlV { is_wrapped: true, wrap_name: Some(w), ..acc }, i + 2)),
                    Err(e) => Err(e),
                }
            } else {
                Ok((XmlV { is_wrapped: true, ..acc }, i + 1))
            }
        } else {
            Err(unexpected_option_message(name))
        };
        match read {
            Ok((x, j)) => Ok(
                (
                    x,
                    if j < tokens.len() && is_punct(tokens[j], ',') {
                        j + 1
                    } else {
                        j
                    },
                ),
            ),
            Err(e) => Err(e),
        }
    }
}

/// What reading the options from position `i` on gives, starting from
/// `acc`: the options, or the first error.
pub open spec fn xml_from(tokens: Seq<Token>, i: int, acc: XmlV) -> Result<XmlV, Seq<char>>
    decreases tokens.len() - i,
{
    if i >= tokens.len() || i < 0 {
        Ok(acc)
    } else {
        match xml_step(tokens, i, acc) {
            Ok((x, j)) => if j > i {
                xml_from(tokens, j, x)
            } else {
                Ok(x)
            },
            Err(e) => Err(e),
        }
    }
}

/// What the inside of `xml(...)` reads as.
pub open spec fn spec_parse_xml(tokens: Seq<Token>) -> Result<XmlV, Seq<char>> {
    xml_from(tokens, 0, empty_xml())
}

fn next_str_exec(tokens: &Vec<Token>, i: usize) -> (res: Result<String, String>)
    requires
        i <= tokens@.len(),
    ensures
        match res {
            Ok(v) => next_str(tokens@, i as int) == Ok::<Seq<char>, Seq<char>>(v@),
            Err(e) => next_str(tokens@, i as int) == Err::<Seq<char>, Seq<char>>(e@),
        },
{
    if !(i < tokens.len() && token_is_punct(&tokens[i], '=')) {
        return Err(String::from_str("expected `=`"));
    }
    let v = if i + 1 < tokens.len() {
        token_str_value(&tokens[i + 1])
    } else {
        None
    };
    match v {
        Some(v) => Ok(v),
        None => Err(expected_error(tokens, i + 1, "expected string literal")),
    }
}

fn wrapped_name_exec(inner: &Vec<Token>) -> (res: Result<String, String>)
    ensures
        match res {
            Ok(v) => wrapped_name(inner@) == Ok::<Seq<char>, Seq<char>>(v@),
            Err(e) => wrapped_name(inner@) == Err::<Seq<char>, Seq<char>>(e@),
        },
{
    let n = inner.len();
    let first_ident = n > 0 && match &inner[0] {
        Token::Ident(_) => true,
        _ => false,
    };
    if !first_ident {
        return Err(expected_error(inner, 0, "expected identifier"));
    }
    if !token_is_ident(&inner[0], "name") {
        return Err(String::from_str("unexpected wrapped attribute, expected: name"));
    }
    if !(n > 1 && token_is_punct(&inner[1], '=')) {
        return Err(String::from_str("expected `=`"));
    }
    let v = if n > 2 {
        token_str_value(&inner[2])
    } else {
        None
    };
    match v {
        Some(v) => if n > 3 {
            Err(String::from_str("unexpected token"))
        } else {
            Ok(v)
        },
        None => Err(expected_error(inner, 2, "expected string literal")),
    }
}

impl Xml {
    /// XML options that only wrap: a wrapped flag and a wrapping name.
    pub fn with_wrapped(is_wrapped: bool, wrap_name: Option<String>) -> (res: Xml)
        ensures
            res@ == (XmlV { is_wrapped, wrap_name: opt_view(wrap_name), ..empty_xml() }),
    {
        Xml {
            name: None,
            namespace: None,
            prefix: None,
            is_attribute: false,
            is_wrapped,
            wrap_name,
        }
    }

    /// Reads the options inside `xml(...)`: `name`, `namespace` and `prefix`
    /// with a string, `attribute` with an optional bool, and `wrapped` with
    /// an optional `(name = "...")`, separated by commas.
    pub fn parse(tokens: &Vec<Token>) -> (res: Result<Xml, String>)
        ensures
            match res {
                Ok(x) => spec_parse_xml(tokens@) == Ok::<XmlV, Seq<char>>(x@),
                Err(e) => spec_parse_xml(tokens@) == Err::<XmlV, Seq<char>>(e@),
            },
    {
        let mut xml = Xml::with_wrapped(false, None);
        let mut i: usize = 0;
        let n = tokens.len();
        proof {
            assert(xml@ == empty_xml());
        }
        while i < n
            invariant
                n == tokens@.len(),
                i <= n,
                spec_parse_xml(tokens@) == xml_from(tokens@, i as int, xml@),
            decreases n - i,
        {
            let ghost acc = xml@;
            let name = match &tokens[i] {
                Token::Ident(s) => s,
                _ => {
                    return Err(String::from_str("expected identifier"));
                },
            };
            let mut j: usize;
            if str_eq(name.as_str(), "name") || str_eq(name.as_str(), "namespace") || str_eq(
                name.as_str(),
                "prefix",
            ) {
                let v = match next_str_exec(tokens, i + 1) {
                    Ok(v) => v,
                    Err(e) => {
                        return Err(e);
                    },
                };
                if str_eq(name.as_str(), "name") {
                    xml.name = Some(v);
                } else if str_eq(name.as_str(), "namespace") {
                    xml.namespace = Some(v);
                } else {
                    xml.prefix = Some(v);
                }
                j = i + 3;
            } else if str_eq(name.as_str(), "attribute") {
                let (b, k) = if i + 1 < n && i + 2 < n && token_is_punct(&tokens[i + 1], '=') && (
                token_is_ident(&tokens[i + 2], "true") || token_is_ident(&tokens[i + 2], "false")) {
                    (token_is_ident(&tokens[i + 2], "true"), i + 3)
                } else {
                    (true, i + 1)
                };
                xml.is_attribute = b;
                j = k;
            } else if str_eq(name.as_str(), "wrapped") {
                let group = if i + 1 < n {
                    match &tokens[i + 1] {
                        Token::Group(d, inner) => if *d == '(' {
                            Some(inner)
                        } else {
                            None
                        },
                        _ => None,
                    }
                } else {
                    None
                };
                match group {
                    Some(inner) => {
                        match wrapped_name_exec(inner) {
                            Ok(w) => {
                                xml.wrap_name = Some(w);
                            },
                            Err(e) => {
                                return Err(e);
                            },
                        }
                        j = i + 2;
                    },
                    None => {
                        j = i + 1;
                    },
                }
                xml.is_wrapped = true;
            } else {
                let mut msg = chars_of("unexpected attribute: ");
                let nv = chars_of(name.as_str());
                extend_chars(&mut msg, &nv);
                let tail = chars_of(", expected one of: name, namespace, prefix, attribute, wrapped");
                extend_chars(&mut msg, &tail);
                return Err(string_from_chars(&msg));
            }
            if j < n && token_is_punct(&tokens[j], ',') {
                j = j + 1;
            }
            proof {
                assert(xml_step(tokens@, i as int, acc) == Ok::<(XmlV, int), Seq<char>>(
                    (xml@, j as int),
                ));
            }
            i = j;
        }
        Ok(xml)
    }

    /// Whether the options wrap the value.
    pub fn validate_xml(&self) -> (res: Result<(), crate::diagnostics::Diagnostics>)
        ensures
            match res {
                Ok(_) => !self.is_wrapped,
                Err(d) => self.is_wrapped && d@ == seq![
                    (
                        "cannot use `wrapped` attribute in non slice field type"@,
                        seq![(false, "Try removing `wrapped` attribute or make your field `Vec`"@)],
                    ),
                ],
            },
    {
        if self.is_wrapped {
            let d = crate::diagnostics::Diagnostics::new(
                String::from_str("cannot use `wrapped` attribute in non slice field type"),
            );
            let help = String::from_str("Try removing `wrapped` attribute or make your field `Vec`");
            let d = d.help(help);
            proof {
                let s = d@[0].1;
                let k = choose|k: int|
                    0 <= k <= 0 && s == Seq::<(bool, Seq<char>)>::empty().insert(k, (false, help@));
                assert(s =~= seq![(false, help@)]);
            }
            Err(d)
        } else {
            Ok(())
        }
    }
}

} // verus!
