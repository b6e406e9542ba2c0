//! Serde `rename_all` rules and the renaming of fields and enum variants.
use vstd::prelude::*;
use vstd::string::StringExecFns;

use crate::text::{
    ascii_upper, ascii_lower, char_is_uppercase, char_to_lower, char_to_upper, chars_of,
    is_ascii_char, lower_chars, lower_seq, replace_chars, replace_seq, str_eq, string_from_chars,
    unicode_is_uppercase, upper_chars, upper_seq,
};

verus! {

/// A serde `rename_all` rule.
#[derive(PartialEq, Eq, Structural, Clone, Copy, Debug)]
pub enum RenameRule {
    Lower,
    Upper,
    Camel,
    Snake,
    ScreamingSnake,
    Pascal,
    Kebab,
    ScreamingKebab,
}

/// Camel-casing of a field name read left to right: an underscore is dropped
/// and turns the next character to upper case. The second component tells
/// whether the last character read was such an underscore.
pub open spec fn camel_scan(s: Seq<char>) -> (Seq<char>, bool)
    decreases s.len(),
{
    if s.len() == 0 {
        (Seq::<char>::empty(), false)
    } else {
        let (out, upper) = camel_scan(s.drop_last());
        let c = s.last();
        if c == '_' {
            (out, true)
        } else if upper {
            (out.push(ascii_upper(c)), false)
        } else {
            (out.push(c), false)
        }
    }
}

/// The camel-case form of a snake-case field name.
pub open spec fn camel_case(s: Seq<char>) -> Seq<char> {
    camel_scan(s).0
}

/// An underscore in front of every upper-case character but the first.
pub open spec fn snake_split(s: Seq<char>) -> Seq<char>
    decreases s.len(),
{
    if s.len() == 0 {
        Seq::<char>::empty()
    } else {
        let out = snake_split(s.drop_last());
        let c = s.last();
        if s.len() > 1 && unicode_is_uppercase(c) {
            out.push('_').push(c)
        } else {
            out.push(c)
        }
    }
}

/// What `rename` gives of a field name under each rule.
pub open spec fn spec_rename(rule: RenameRule, value: Seq<char>) -> Seq<char> {
    match rule {
        RenameRule::Lower => lower_seq(value),
        RenameRule::Upper => upper_seq(value),
        RenameRule::Camel => camel_case(value),
        RenameRule::Snake => value,
        RenameRule::ScreamingSnake => upper_seq(value),
        RenameRule::Pascal => seq![ascii_upper(value[0])] + camel_case(value.drop_first()),
        RenameRule::Kebab => replace_seq(value, '_', '-'),
        RenameRule::ScreamingKebab => upper_seq(replace_seq(value, '_', '-')),
    }
}

/// What `rename_variant` gives of an enum variant name under each rule.
pub open spec fn spec_rename_variant(rule: RenameRule, variant: Seq<char>) -> Seq<char> {
    match rule {
        RenameRule::Lower => lower_seq(variant),
        RenameRule::Upper => upper_seq(variant),
        RenameRule::Camel => seq![ascii_lower(variant[0])] + variant.drop_first(),
        RenameRule::Snake => lower_seq(snake_split(variant)),
        RenameRule::ScreamingSnake => upper_seq(lower_seq(snake_split(variant))),
        RenameRule::Pascal => variant,
        RenameRule::Kebab => replace_seq(lower_seq(snake_split(variant)), '_', '-'),
        RenameRule::ScreamingKebab => upper_seq(
            replace_seq(lower_seq(snake_split(variant)), '_', '-'),
        ),
    }
}

/// The name of a rule as written in `#[serde(rename_all = "...")]`.
pub open spec fn rule_name(rule: RenameRule) -> Seq<char> {
    match rule {
        RenameRule::Lower => "lowercase"@,
        RenameRule::Upper => "UPPERCASE"@,
        RenameRule::Pascal => "PascalCase"@,
        RenameRule::Camel => "camelCase"@,
        RenameRule::Snake => "snake_case"@,
        RenameRule::ScreamingSnake => "SCREAMING_SNAKE_CASE"@,
        RenameRule::Kebab => "kebab-case"@,
        RenameRule::ScreamingKebab => "SCREAMING-KEBAB-CASE"@,
    }
}

/// The rule of a name, if the name is one.
pub open spec fn rule_by_name(s: Seq<char>) -> Option<RenameRule> {
    if s == "lowercase"@ {
        Some(RenameRule::Lower)
    } else if s == "UPPERCASE"@ {
        Some(RenameRule::Upper)
    } else if s == "PascalCase"@ {
        Some(RenameRule::Pascal)
    } else if s == "camelCase"@ {
        Some(RenameRule::Camel)
    } else if s == "snake_case"@ {
        Some(RenameRule::Snake)
    } else if s == "SCREAMING_SNAKE_CASE"@ {
        Some(RenameRule::ScreamingSnake)
    } else if s == "kebab-case"@ {
        Some(RenameRule::Kebab)
    } else if s == "SCREAMING-KEBAB-CASE"@ {
        Some(RenameRule::ScreamingKebab)
    } else {
        None
    }
}

/// The message of the error for a name that is no rule.
pub open spec fn rename_rule_error() -> Seq<char> {
    "unexpected rename rule, expected one of: \"lowercase\", \"UPPERCASE\", \"PascalCase\", \"camelCase\", \"snake_case\", \"SCREAMING_SNAKE_CASE\", \"kebab-case\", \"SCREAMING-KEBAB-CASE\""@
}

/// The rules whose renaming slices off the first byte of the name: the name
/// must then begin with a one-byte character.
pub open spec fn slices_first_char(value: Seq<char>) -> bool {
    value.len() > 0 && is_ascii_char(value[0])
}

/// A rule read back from its own name is the same rule.
pub proof fn lemma_rule_name_roundtrip(rule: RenameRule)
    ensures
        rule_by_name(rule_name(rule)) == Some(rule),
{
    reveal_strlit("lowercase");
    reveal_strlit("UPPERCASE");
    reveal_strlit("PascalCase");
    reveal_strlit("camelCase");
    reveal_strlit("snake_case");
    reveal_strlit("SCREAMING_SNAKE_CASE");
    reveal_strlit("kebab-case");
    reveal_strlit("SCREAMING-KEBAB-CASE");
    assert("lowercase"@[0] == 'l');
    assert("UPPERCASE"@[0] == 'U');
    assert("PascalCase"@[0] == 'P');
    assert("camelCase"@[0] == 'c');
    assert("snake_case"@[0] == 's');
    assert("SCREAMING_SNAKE_CASE"@[0] == 'S');
    assert("SCREAMING_SNAKE_CASE"@[9] == '_');
    assert("kebab-case"@[0] == 'k');
    assert("SCREAMING-KEBAB-CASE"@[0] == 'S');
    assert("SCREAMING-KEBAB-CASE"@[9] == '-');
}

/// The screaming rules are the upper-cased forms of their plain rules, for
/// fields and for variants alike; kebab case is snake case with dashes.
pub proof fn lemma_screaming_is_upper(value: Seq<char>)
    ensures
        spec_rename(RenameRule::ScreamingSnake, value) == upper_seq(
            spec_rename(RenameRule::Snake, value),
        ),
        spec_rename(RenameRule::ScreamingKebab, value) == upper_seq(
            spec_rename(RenameRule::Kebab, value),
        ),
        spec_rename(RenameRule::Kebab, value) == replace_seq(
            spec_rename(RenameRule::Snake, value),
            '_',
            '-',
        ),
        spec_rename_variant(RenameRule::ScreamingSnake, value) == upper_seq(
            spec_rename_variant(RenameRule::Snake, value),
        ),
        spec_rename_variant(RenameRule::ScreamingKebab, value) == upper_seq(
            spec_rename_variant(RenameRule::Kebab, value),
        ),
        spec_rename_variant(RenameRule::Kebab, value) == replace_seq(
            spec_rename_variant(RenameRule::Snake, value),
            '_',
            '-',
        ),
{
}

/// Renaming keeps the length of the name under every rule but camel and
/// pascal case (which drop underscores) and, for variants, the snake and
/// kebab families (which add them).
pub proof fn lemma_rename_keeps_length(rule: RenameRule, value: Seq<char>)
    requires
        rule != RenameRule::Camel,
        rule != RenameRule::Pascal,
    ensures
        spec_rename(rule, value).len() == value.len(),
{
}

/// The number of characters before position `k` that are no underscore.
pub open spec fn kept_before(s: Seq<char>, k: int) -> nat
    decreases k,
{
    if k <= 0 {
        0
    } else {
        kept_before(s, k - 1) + if s[k - 1] == '_' {
            0nat
        } else {
            1nat
        }
    }
}

proof fn lemma_kept_before_prefix(s: Seq<char>, t: Seq<char>, k: int)
    requires
        0 <= k <= t.len(),
        t.len() <= s.len(),
        forall|i: int| 0 <= i < t.len() ==> s[i] == t[i],
    ensures
        kept_before(s, k) == kept_before(t, k),
    decreases k,
{
    if k > 0 {
        lemma_kept_before_prefix(s, t, k - 1);
    }
}

proof fn lemma_kept_before_grows(s: Seq<char>, j: int, k: int)
    requires
        0 <= j <= k,
    ensures
        kept_before(s, j) <= kept_before(s, k),
    decreases k - j,
{
    if j < k {
        lemma_kept_before_grows(s, j, k - 1);
    }
}

/// The character that camel case gives for the character at `j` of a
/// field name: upper case after an underscore, as it is otherwise.
pub open spec fn camel_char(s: Seq<char>, j: int) -> char {
    if j > 0 && s[j - 1] == '_' {
        ascii_upper(s[j])
    } else {
        s[j]
    }
}

proof fn lemma_camel_scan_positions(s: Seq<char>)
    ensures
        camel_scan(s).0.len() == kept_before(s, s.len() as int),
        camel_scan(s).1 == (s.len() > 0 && s.last() == '_'),
        forall|j: int|
            #![trigger kept_before(s, j)]
            0 <= j < s.len() && s[j] != '_' ==> camel_scan(s).0[kept_before(s, j) as int]
                == camel_char(s, j),
    decreases s.len(),
{
    if s.len() > 0 {
        let t = s.drop_last();
        let n = s.len() - 1;
        lemma_camel_scan_positions(t);
        lemma_kept_before_prefix(s, t, n);
        let out = camel_scan(t).0;
        assert forall|j: int|
            #![trigger kept_before(s, j)]
            0 <= j < s.len() && s[j] != '_' implies camel_scan(s).0[kept_before(s, j) as int]
                == camel_char(s, j) by {
            if j < n {
                lemma_kept_before_prefix(s, t, j);
                lemma_kept_before_grows(t, j + 1, n);
                assert(t[j] == s[j]);
                assert(kept_before(t, j + 1) == kept_before(t, j) + 1);
                assert(out[kept_before(t, j) as int] == camel_char(t, j));
                if j > 0 {
                    assert(t[j - 1] == s[j - 1]);
                }
                assert(camel_char(t, j) == camel_char(s, j));
            } else {
                if n > 0 {
                    assert(t.last() == s[n - 1]);
                }
            }
        }
    }
}

/// Camel case drops the underscores of a field name and keeps its other
/// characters in order, each in upper case where an underscore comes right
/// before it in the name, as it is otherwise.
pub proof fn law_camel_case_positions(s: Seq<char>)
    ensures
        camel_case(s).len() == kept_before(s, s.len() as int),
        forall|j: int|
            #![trigger kept_before(s, j)]
            0 <= j < s.len() && s[j] != '_' ==> camel_case(s)[kept_before(s, j) as int]
                == camel_char(s, j),
{
    lemma_camel_scan_positions(s);
}

/// A field name with no underscore is left as it is by camel case.
pub proof fn lemma_camel_without_underscore(value: Seq<char>)
    requires
        forall|i: int| 0 <= i < value.len() ==> value[i] != '_',
    ensures
        camel_case(value) == value,
    decreases value.len(),
{
    if value.len() > 0 {
        lemma_camel_scan_no_underscore(value);
    }
}

proof fn lemma_camel_scan_no_underscore(value: Seq<char>)
    requires
        forall|i: int| 0 <= i < value.len() ==> value[i] != '_',
    ensures
        camel_scan(value) == (value, false),
    decreases value.len(),
{
    if value.len() > 0 {
        lemma_camel_scan_no_underscore(value.drop_last());
        assert(value.drop_last().push(value.last()) =~= value);
    }
}

/// A variant name with no upper-case character but maybe its first is left
/// without any underscore added by the snake family.
pub proof fn lemma_snake_split_without_upper(value: Seq<char>)
    requires
        forall|i: int| 1 <= i < value.len() ==> !unicode_is_uppercase(value[i]),
    ensures
        snake_split(value) == value,
    decreases value.len(),
{
    if value.len() > 0 {
        lemma_snake_split_without_upper(value.drop_last());
        assert(value.drop_last().push(value.last()) =~= value);
    }
}

impl std::str::FromStr for RenameRule {
    type Err = String;

    fn from_str(s: &str) -> (res: Result<RenameRule, String>)
        ensures
            match res {
                Ok(rule) => rule_by_name(s@) == Some(rule),
                Err(e) => rule_by_name(s@) is None && e@ == rename_rule_error(),
            },
    {
        RenameRule::from_name(s)
    }
}

fn camel_chars(v: &Vec<char>) -> (res: Vec<char>)
    ensures
        res@ == camel_case(v@),
{
    let mut res: Vec<char> = Vec::new();
    let mut upper = false;
    let n = v.len();
    for i in 0..n
        invariant
            n == v@.len(),
            (res@, upper) == camel_scan(v@.take(i as int)),
    {
        let letter = v[i];
        assert(v@.take(i + 1).drop_last() =~= v@.take(i as int));
        if letter == '_' {
            upper = true;
        } else if upper {
            res.push(char_to_upper(letter));
            upper = false;
        } else {
            res.push(letter);
        }
    }
    assert(v@.take(n as int) =~= v@);
    res
}

fn snake_split_chars(v: &Vec<char>) -> (res: Vec<char>)
    ensures
        res@ == snake_split(v@),
{
    let mut res: Vec<char> = Vec::new();
    let n = v.len();
    for i in 0..n
        invariant
            n == v@.len(),
            res@ == snake_split(v@.take(i as int)),
    {
        let letter = v[i];
        assert(v@.take(i + 1).drop_last() =~= v@.take(i as int));
        if i > 0 && char_is_uppercase(letter) {
            res.push('_');
        }
        res.push(letter);
    }
    assert(v@.take(n as int) =~= v@);
    res
}

impl RenameRule {
    /// Reads a rule from its name; any other name is an error with the
    /// message of `rename_rule_error`.
    pub fn from_name(s: &str) -> (res: Result<RenameRule, String>)
        ensures
            match res {
                Ok(rule) => rule_by_name(s@) == Some(rule),
                Err(e) => rule_by_name(s@) is None && e@ == rename_rule_error(),
            },
    {
        if str_eq(s, "lowercase") {
            Ok(RenameRule::Lower)
        } else if str_eq(s, "UPPERCASE") {
            Ok(RenameRule::Upper)
        } else if str_eq(s, "PascalCase") {
            Ok(RenameRule::Pascal)
        } else if str_eq(s, "camelCase") {
            Ok(RenameRule::Camel)
        } else if str_eq(s, "snake_case") {
            Ok(RenameRule::Snake)
        } else if str_eq(s, "SCREAMING_SNAKE_CASE") {
            Ok(RenameRule::ScreamingSnake)
        } else if str_eq(s, "kebab-case") {
            Ok(RenameRule::Kebab)
        } else if str_eq(s, "SCREAMING-KEBAB-CASE") {
            Ok(RenameRule::ScreamingKebab)
        } else {
            Err(String::from_str("unexpected rename rule, expected one of: \"lowercase\", \"UPPERCASE\", \"PascalCase\", \"camelCase\", \"snake_case\", \"SCREAMING_SNAKE_CASE\", \"kebab-case\", \"SCREAMING-KEBAB-CASE\""))
        }
    }

    /// Renames a struct field name by the rule.
    pub fn rename(&self, value: &str) -> (res: String)
        requires
            *self == RenameRule::Pascal ==> slices_first_char(value@),
        ensures
            res@ == spec_rename(*self, value@),
    {
        let v = chars_of(value);
        let out = match self {
            RenameRule::Lower => lower_chars(&v),
            RenameRule::Upper => upper_chars(&v),
            RenameRule::Camel => camel_chars(&v),
            RenameRule::Snake => v,
            RenameRule::ScreamingSnake => upper_chars(&v),
            RenameRule::Pascal => {
                let mut rest: Vec<char> = Vec::new();
                let n = v.len();
                for i in 1..n
                    invariant
                        n == v@.len(),
                        rest@ =~= v@.subrange(1, i as int),
                {
                    rest.push(v[i]);
                }
                assert(rest@ =~= v@.drop_first());
                let camel = camel_chars(&rest);
                let mut out: Vec<char> = Vec::new();
                out.push(char_to_upper(v[0]));
                let m = camel.len();
                for j in 0..m
                    invariant
                        m == camel@.len(),
                        out@ =~= seq![ascii_upper(v@[0])] + camel@.take(j as int),
                {
                    out.push(camel[j]);
                }
                assert(camel@.take(m as int) =~= camel@);
                out
            },
            RenameRule::Kebab => replace_chars(&v, '_', '-'),
            RenameRule::ScreamingKebab => {
                let kebab = replace_chars(&v, '_', '-');
                upper_chars(&kebab)
            },
        };
        string_from_chars(&out)
    }

    /// Renames an enum variant name by the rule.
    pub fn rename_variant(&self, variant: &str) -> (res: String)
        requires
            *self == RenameRule::Camel ==> slices_first_char(variant@),
        ensures
            res@ == spec_rename_variant(*self, variant@),
    {
        let v = chars_of(variant);
        let out = match self {
            RenameRule::Lower => lower_chars(&v),
            RenameRule::Upper => upper_chars(&v),
            RenameRule::Camel => {
                let mut out: Vec<char> = Vec::new();
                out.push(char_to_lower(v[0]));
                let n = v.len();
                for i in 1..n
                    invariant
                        n == v@.len(),
                        n > 0,
                        out@ =~= seq![ascii_lower(v@[0])] + v@.subrange(1, i as int),
                {
                    out.push(v[i]);
                }
                assert(v@.subrange(1, n as int) =~= v@.drop_first());
                out
            },
            RenameRule::Snake => {
                let split = snake_split_chars(&v);
                lower_chars(&split)
            },
            RenameRule::ScreamingSnake => {
                let split = snake_split_chars(&v);
                let snake = lower_chars(&split);
                upper_chars(&snake)
            },
            RenameRule::Pascal => v,
            RenameRule::Kebab => {
                let split = snake_split_chars(&v);
                let snake = lower_chars(&split);
                replace_chars(&snake, '_', '-')
            },
            RenameRule::ScreamingKebab => {
                let split = snake_split_chars(&v);
                let snake = lower_chars(&split);
                let kebab = replace_chars(&snake, '_', '-');
                upper_chars(&kebab)
            },
        };
        string_from_chars(&out)
    }
}

} // verus!
