//! Doc comments of items, read as descriptions.
use vstd::prelude::*;

use crate::text::{chars_of, extend_chars, string_from_chars, sub_chars};
use crate::tokens::{attr_is, attribute_is, Attribute};

verus! {

/// Whether the character has the Unicode `White_Space` property: tab to
/// carriage return, space, next line, no-break space, Ogham space mark,
/// en quad to hair space, line and paragraph separators, narrow no-break
/// space, medium mathematical space and ideographic space.
pub open spec fn unicode_is_whitespace(c: char) -> bool {
    let v = c as u32;
    ||| 0x9 <= v && v <= 0xD
    ||| v == 0x20
    ||| v == 0x85
    ||| v == 0xA0
    ||| v == 0x1680
    ||| 0x2000 <= v && v <= 0x200A
    ||| v == 0x2028
    ||| v == 0x2029
    ||| v == 0x202F
    ||| v == 0x205F
    ||| v == 0x3000
}

/// Whether the character is white space, as `char::is_whitespace` says:
/// it has the Unicode `White_Space` property.
pub(crate) fn char_is_whitespace(c: char) -> (res: bool)
    ensures
        res == unicode_is_whitespace(c),
        (c as u32) < 128 ==> (res <==> (c == ' ' || ('\t' <= c && c <= '\r'))),
{
    let v = c as u32;
    (0x9 <= v && v <= 0xD) || v == 0x20 || v == 0x85 || v == 0xA0 || v == 0x1680 || (0x2000 <= v
        && v <= 0x200A) || v == 0x2028 || v == 0x2029 || v == 0x202F || v == 0x205F || v == 0x3000
}

/// The text without its trailing white space.
pub open spec fn trim_end(s: Seq<char>) -> Seq<char>
    decreases s.len(),
{
    if s.len() > 0 && unicode_is_whitespace(s.last()) {
        trim_end(s.drop_last())
    } else {
        s
    }
}

/// The number of spaces that the text begins with.
pub open spec fn leading_spaces(s: Seq<char>) -> nat
    decreases s.len(),
{
    if s.len() > 0 && s[0] == ' ' {
        1 + leading_spaces(s.drop_first())
    } else {
        0
    }
}

/// The doc strings of the attributes, in order, each without trailing white
/// space.
pub open spec fn doc_lines(attrs: Seq<Attribute>) -> Seq<Seq<char>>
    decreases attrs.len(),
{
    if attrs.len() == 0 {
        Seq::empty()
    } else {
        let rest = doc_lines(attrs.drop_last());
        let a = attrs.last();
        if attr_is(a, "doc"@) && a.name_value_str is Some {
            rest.push(trim_end(a.name_value_str->Some_0@))
        } else {
            rest
        }
    }
}

/// Whether some line is not empty.
pub open spec fn has_nonempty(lines: Seq<Seq<char>>) -> bool {
    exists|j: int| 0 <= j < lines.len() && (#[trigger] lines[j]).len() > 0
}

/// The least indentation of the non-empty lines, or 0 without any.
pub open spec fn min_indent(lines: Seq<Seq<char>>) -> nat
    decreases lines.len(),
{
    if lines.len() == 0 {
        0
    } else {
        let rest = min_indent(lines.drop_last());
        let l = lines.last();
        if l.len() == 0 {
            rest
        } else if has_nonempty(lines.drop_last()) {
            if leading_spaces(l) < rest {
                leading_spaces(l)
            } else {
                rest
            }
        } else {
            leading_spaces(l)
        }
    }
}

/// The doc comment lines of an item: the doc strings without trailing white
/// space, with the least indentation of the non-empty ones taken off each
/// non-empty one.
pub open spec fn spec_comment_lines(attrs: Seq<Attribute>) -> Seq<Seq<char>> {
    let lines = doc_lines(attrs);
    let m = min_indent(lines);
    lines.map_values(|l: Seq<char>| if l.len() == 0 { l } else { l.skip(m as int) })
}

/// The lines joined with line feeds.
pub open spec fn join_lines(lines: Seq<Seq<char>>) -> Seq<char>
    decreases lines.len(),
{
    if lines.len() == 0 {
        Seq::empty()
    } else if lines.len() == 1 {
        lines[0]
    } else {
        join_lines(lines.drop_last()) + seq!['\n'] + lines.last()
    }
}

/// The doc comment lines of an item.
pub struct CommentAttributes(pub Vec<String>);

/// The views of a sequence of strings.
pub open spec fn lines_view(v: Seq<String>) -> Seq<Seq<char>> {
    v.map_values(|s: String| s@)
}

fn trim_end_chars(v: &Vec<char>) -> (res: Vec<char>)
    ensures
        res@ == trim_end(v@),
{
    let mut n = v.len();
    proof {
        assert(v@.take(n as int) =~= v@);
    }
    while n > 0 && char_is_whitespace(v[n - 1])
        invariant
            n <= v@.len(),
            trim_end(v@) == trim_end(v@.take(n as int)),
        decreases n,
    {
        proof {
            assert(v@.take(n as int).drop_last() =~= v@.take(n - 1));
        }
        n = n - 1;
    }
    let res = sub_chars(v, 0, n);
    proof {
        assert(v@.subrange(0, n as int) =~= v@.take(n as int));
    }
    res
}

fn leading_spaces_exec(v: &Vec<char>) -> (res: usize)
    ensures
        res == leading_spaces(v@),
        res <= v@.len(),
        forall|i: int| 0 <= i < res ==> v@[i] == ' ',
{
    let mut i: usize = 0;
    proof {
        assert(v@.skip(0) =~= v@);
    }
    while i < v.len() && v[i] == ' '
        invariant
            i <= v@.len(),
            leading_spaces(v@) == i + leading_spaces(v@.skip(i as int)),
            forall|j: int| 0 <= j < i ==> v@[j] == ' ',
        decreases v@.len() - i,
    {
        proof {
            assert(v@.skip(i as int).drop_first() =~= v@.skip(i + 1));
        }
        i = i + 1;
    }
    i
}

proof fn lemma_leading_spaces_bound(s: Seq<char>)
    ensures
        leading_spaces(s) <= s.len(),
    decreases s.len(),
{
    if s.len() > 0 && s[0] == ' ' {
        lemma_leading_spaces_bound(s.drop_first());
    }
}

impl CommentAttributes {
    /// Reads the doc comment lines from an item's attributes.
    pub fn from_attributes(attributes: &Vec<Attribute>) -> (res: CommentAttributes)
        ensures
            lines_view(res.0@) == spec_comment_lines(attributes@),
    {
        let mut docs: Vec<Vec<char>> = Vec::new();
        let n = attributes.len();
        for i in 0..n
            invariant
                n == attributes@.len(),
                docs@.map_values(|d: Vec<char>| d@) == doc_lines(attributes@.take(i as int)),
        {
            let a = &attributes[i];
            proof {
                assert(attributes@.take(i + 1).drop_last() =~= attributes@.take(i as int));
            }
            let ghost before = docs@;
            if attribute_is(a, "doc") {
                match &a.name_value_str {
                    Some(doc) => {
                        let v = chars_of(doc.as_str());
                        let t = trim_end_chars(&v);
                        docs.push(t);
                        proof {
                            assert(docs@.map_values(|d: Vec<char>| d@) =~= before.map_values(
                                |d: Vec<char>| d@,
                            ).push(trim_end(doc@)));
                        }
                    },
                    None => {},
                }
            }
        }
        proof {
            assert(attributes@.take(n as int) =~= attributes@);
        }
        let ghost lines = doc_lines(attributes@);
        // The least indentation of the non-empty lines.
        let mut min: usize = 0;
        let mut found = false;
        let m = docs.len();
        for i in 0..m
            invariant
                m == docs@.len(),
                lines == docs@.map_values(|d: Vec<char>| d@),
                found == has_nonempty(lines.take(i as int)),
                min == min_indent(lines.take(i as int)),
        {
            proof {
                assert(lines.take(i + 1).drop_last() =~= lines.take(i as int));
                assert(lines.take(i + 1).last() == lines[i as int]);
                if docs@[i as int]@.len() > 0 {
                    assert(lines.take(i + 1)[i as int].len() > 0);
                }
                if has_nonempty(lines.take(i as int)) {
                    let j = choose|j: int| 0 <= j < i && (#[trigger] lines.take(i as int)[j]).len() > 0;
                    assert(lines.take(i + 1)[j].len() > 0);
                }
            }
            if docs[i].len() > 0 {
                let lead = leading_spaces_exec(&docs[i]);
                if !found || lead < min {
                    min = lead;
                }
                found = true;
            }
        }
        proof {
            assert(lines.take(m as int) =~= lines);
        }
        let mut out: Vec<String> = Vec::new();
        for i in 0..m
            invariant
                m == docs@.len(),
                lines == docs@.map_values(|d: Vec<char>| d@),
                min == min_indent(lines),
                out@.len() == i,
                forall|j: int|
                    0 <= j < i ==> (#[trigger] out@[j])@ == (if lines[j].len() == 0 {
                        lines[j]
                    } else {
                        lines[j].skip(min as int)
                    }),
        {
            let line = &docs[i];
            if line.len() == 0 {
                out.push(string_from_chars(line));
            } else {
                proof {
                    lemma_min_indent_le(lines, i as int);
                    lemma_leading_spaces_bound(lines[i as int]);
                }
                let rest = sub_chars(line, min, line.len());
                proof {
                    assert(rest@ =~= lines[i as int].skip(min as int));
                }
                out.push(string_from_chars(&rest));
            }
        }
        proof {
            assert(lines_view(out@) =~= spec_comment_lines(attributes@));
        }
        CommentAttributes(out)
    }

    /// Whether there is no doc comment line.
    pub fn is_empty(&self) -> (res: bool)
        ensures
            res == (self.0@.len() == 0),
    {
        self.0.len() == 0
    }

    /// The lines joined with line feeds.
    pub fn as_formatted_string(&self) -> (res: String)
        ensures
            res@ == join_lines(lines_view(self.0@)),
    {
        let ghost lines = lines_view(self.0@);
        let mut out: Vec<char> = Vec::new();
        let n = self.0.len();
        for i in 0..n
            invariant
                n == self.0@.len(),
                lines == lines_view(self.0@),
                out@ == join_lines(lines.take(i as int)),
        {
            let ghost before = out@;
            if i > 0 {
                out.push('\n');
            }
            let line = chars_of(self.0[i].as_str());
            extend_chars(&mut out, &line);
            proof {
                assert(lines.take(i + 1).drop_last() =~= lines.take(i as int));
                if i == 0 {
                    assert(lines.take(1) =~= seq![lines[0]]);
                    assert(out@ =~= line@);
                } else {
                    assert(out@ =~= before + seq!['\n'] + lines[i as int]);
                }
            }
        }
        proof {
            assert(lines.take(n as int) =~= lines);
        }
        string_from_chars(&out)
    }
}

/// The least indentation is no more than that of any non-empty line.
proof fn lemma_min_indent_le(lines: Seq<Seq<char>>, i: int)
    requires
        0 <= i < lines.len(),
        lines[i].len() > 0,
    ensures
        min_indent(lines) <= leading_spaces(lines[i]),
    decreases lines.len(),
{
    if i < lines.len() - 1 {
        lemma_min_indent_le(lines.drop_last(), i);
        assert(lines.drop_last()[i] == lines[i]);
        assert(has_nonempty(lines.drop_last()));
    }
}

} // verus!
