//! Regular-expression matching of path templates, through the `regex` crate.
use vstd::prelude::*;

verus! {

/// The texts of the successive non-overlapping matches of the pattern in the
/// haystack, leftmost first, as `regex::Regex::find_iter` yields them.
pub uninterp spec fn regex_matches(pattern: Seq<char>, haystack: Seq<char>) -> Seq<Seq<char>>;

/// The parts of the haystack between the matches of the pattern, as
/// `regex::Regex::split` yields them.
pub uninterp spec fn regex_gaps(pattern: Seq<char>, haystack: Seq<char>) -> Seq<Seq<char>>;

/// `gaps[0] + pieces[0] + gaps[1] + ... + pieces[k-1] + gaps[k]`.
pub open spec fn interleave(gaps: Seq<Seq<char>>, pieces: Seq<Seq<char>>) -> Seq<char>
    decreases pieces.len(),
{
    if pieces.len() == 0 || gaps.len() == 0 {
        if gaps.len() == 0 {
            Seq::empty()
        } else {
            gaps[0]
        }
    } else {
        interleave(gaps.drop_last(), pieces.drop_last()) + pieces.last() + gaps.last()
    }
}

/// The actix path argument pattern `\{[a-zA-Z0-9_][^{}]*}`.
pub open spec fn actix_pattern() -> Seq<char> {
    "\\{[a-zA-Z0-9_][^{}]*}"@
}

/// The axum path argument pattern `\{[a-zA-Z0-9][^{}]*}`.
pub open spec fn axum_pattern() -> Seq<char> {
    "\\{[a-zA-Z0-9][^{}]*}"@
}

/// The rocket path argument pattern `<[a-zA-Z0-9_][^<>]*>`.
pub open spec fn rocket_pattern() -> Seq<char> {
    "<[a-zA-Z0-9_][^<>]*>"@
}

/// An ASCII letter or digit.
pub open spec fn is_ascii_alnum(c: char) -> bool {
    ('a' <= c && c <= 'z') || ('A' <= c && c <= 'Z') || ('0' <= c && c <= '9')
}

/// A text that the pattern `<open>[first class][^<open><close>]*<close>`
/// matches whole: opened and closed by the delimiters, with neither delimiter
/// between them and a first inner character of the class.
pub open spec fn delimited(m: Seq<char>, open: char, close: char, underscore_first: bool) -> bool {
    &&& m.len() >= 3
    &&& m[0] == open
    &&& m[m.len() - 1] == close
    &&& (is_ascii_alnum(m[1]) || (underscore_first && m[1] == '_'))
    &&& forall|i: int| 1 <= i < m.len() - 1 ==> #[trigger] m[i] != open && m[i] != close
}

/// What a match of each of the three path argument patterns looks like.
pub open spec fn match_shape(pattern: Seq<char>, m: Seq<char>) -> bool {
    if pattern == actix_pattern() {
        delimited(m, '{', '}', true)
    } else if pattern == axum_pattern() {
        delimited(m, '{', '}', false)
    } else if pattern == rocket_pattern() {
        delimited(m, '<', '>', true)
    } else {
        true
    }
}

/// The three patterns that this crate matches paths with.
pub open spec fn known_pattern(pattern: Seq<char>) -> bool {
    pattern == actix_pattern() || pattern == axum_pattern() || pattern == rocket_pattern()
}

/// The views of a sequence of strings.
pub open spec fn strings_view(v: Seq<String>) -> Seq<Seq<char>> {
    v.map_values(|s: String| s@)
}

/// Calls `regex::Regex::new` on the pattern and then `find_iter` on the
/// haystack, and collects the text of each match. The result is `None` when
/// the pattern does not compile, which none of the three known patterns
/// does. What is claimed: the texts are those named by `regex_matches`, and
/// a match of a known pattern has that pattern's shape.
#[verifier::external_body]
pub(crate) fn find_matches(pattern: &str, haystack: &str) -> (res: Option<Vec<String>>)
    ensures
        known_pattern(pattern@) ==> res is Some,
        match res {
            Some(v) => {
                &&& strings_view(v@) == regex_matches(pattern@, haystack@)
                &&& forall|i: int|
                    0 <= i < v@.len() ==> match_shape(pattern@, #[trigger] regex_matches(pattern@, haystack@)[i])
            },
            None => true,
        },
{
    match regex::Regex::new(pattern) {
        Ok(re) => Some(re.find_iter(haystack).map(|m| m.as_str().to_string()).collect()),
        Err(_) => None,
    }
}

/// Calls `regex::Regex::new` on the pattern and then `split` on the
/// haystack, and collects the parts. The result is `None` when the pattern
/// does not compile. What is claimed: the parts are those named by
/// `regex_gaps`, one more than the matches, and the matches put back between
/// them give the haystack again.
#[verifier::external_body]
pub(crate) fn split_by_matches(pattern: &str, haystack: &str) -> (res: Option<Vec<String>>)
    ensures
        known_pattern(pattern@) ==> res is Some,
        match res {
            Some(v) => {
                &&& strings_view(v@) == regex_gaps(pattern@, haystack@)
                &&& regex_gaps(pattern@, haystack@).len() == regex_matches(pattern@, haystack@).len() + 1
                &&& haystack@ == interleave(
                    regex_gaps(pattern@, haystack@),
                    regex_matches(pattern@, haystack@),
                )
            },
            None => true,
        },
{
    match regex::Regex::new(pattern) {
        Ok(re) => Some(re.split(haystack).map(|s| s.to_string()).collect()),
        Err(_) => None,
    }
}

} // verus!
