//! Compile errors that the derive macros report, with their help and note
//! suggestions.
use vstd::prelude::*;
use vstd::string::StringExecFns;

use crate::text::{lemma_lex_irreflexive, lemma_lex_total, lemma_lex_transitive, lex_lt, str_lt, chars_of, extend_chars, string_from_chars};

verus! {

/// A help or a note that follows an error message.
pub enum Suggestion {
    Help(String),
    Note(String),
}

/// The view of a [`Suggestion`]: whether it is a note, and its text.
pub open spec fn suggestion_view(s: Suggestion) -> (bool, Seq<char>) {
    match s {
        Suggestion::Help(t) => (false, t@),
        Suggestion::Note(t) => (true, t@),
    }
}

/// One error message with its suggestions.
pub struct DiagnosticsInner {
    pub message: String,
    pub suggestions: Vec<Suggestion>,
}

/// One or more errors.
pub struct Diagnostics {
    diagnostics: Vec<DiagnosticsInner>,
}

/// The view of one error: its message and its suggestions.
pub open spec fn inner_view(d: DiagnosticsInner) -> (Seq<char>, Seq<(bool, Seq<char>)>) {
    (d.message@, d.suggestions@.map_values(|s: Suggestion| suggestion_view(s)))
}

impl View for Diagnostics {
    type V = Seq<(Seq<char>, Seq<(bool, Seq<char>)>)>;

    closed spec fn view(&self) -> Self::V {
        self.diagnostics@.map_values(|d: DiagnosticsInner| inner_view(d))
    }
}

/// The message that a diagnostics value shows: that of its first error, or
/// nothing.
pub open spec fn spec_message(d: Seq<(Seq<char>, Seq<(bool, Seq<char>)>)>) -> Seq<char> {
    if d.len() == 0 {
        Seq::empty()
    } else {
        d[0].0
    }
}

/// The order of suggestions: every help before every note, and each kind
/// in the lexicographic order of its text.
pub open spec fn suggestion_lt(a: (bool, Seq<char>), b: (bool, Seq<char>)) -> bool {
    (!a.0 && b.0) || (a.0 == b.0 && lex_lt(a.1, b.1))
}

/// Suggestions in order.
pub open spec fn suggestions_sorted(s: Seq<(bool, Seq<char>)>) -> bool {
    forall|i: int, j: int| 0 <= i < j < s.len() ==> !suggestion_lt(#[trigger] s[j], #[trigger] s[i])
}

/// Every error's suggestions are in order.
pub open spec fn all_sorted(d: Seq<(Seq<char>, Seq<(bool, Seq<char>)>)>) -> bool {
    forall|i: int| 0 <= i < d.len() ==> suggestions_sorted(#[trigger] d[i].1)
}

/// The suggestions of the first error after one more is added: the old
/// ones with the new one put in its place in the order.
pub open spec fn added_in_order(
    old: Seq<(bool, Seq<char>)>,
    new: Seq<(bool, Seq<char>)>,
    x: (bool, Seq<char>),
) -> bool {
    &&& suggestions_sorted(new)
    &&& exists|k: int| 0 <= k <= old.len() && new == old.insert(k, x)
}

/// How one suggestion reads in a rendered message.
pub open spec fn suggestion_text(s: (bool, Seq<char>)) -> Seq<char> {
    if s.0 {
        "note = "@ + s.1
    } else {
        "help = "@ + s.1
    }
}

/// The suggestions, one per line.
pub open spec fn joined_suggestions(s: Seq<(bool, Seq<char>)>) -> Seq<char>
    decreases s.len(),
{
    if s.len() == 0 {
        Seq::empty()
    } else if s.len() == 1 {
        suggestion_text(s[0])
    } else {
        joined_suggestions(s.drop_last()) + "\n"@ + suggestion_text(s.last())
    }
}

/// The compile error message of one error: the message, then after a blank
/// line its suggestions, if it has any.
pub open spec fn rendered_message(e: (Seq<char>, Seq<(bool, Seq<char>)>)) -> Seq<char> {
    if e.1.len() == 0 {
        e.0
    } else {
        e.0 + "\n\n"@ + joined_suggestions(e.1)
    }
}

impl Diagnostics {
    #[verifier::type_invariant]
    closed spec fn wf(self) -> bool {
        self.diagnostics@.len() >= 1 && all_sorted(self@)
    }

    /// One error with the message and no suggestion.
    pub fn new(message: String) -> (res: Diagnostics)
        ensures
            res@ == seq![(message@, Seq::<(bool, Seq<char>)>::empty())],
            all_sorted(res@),
    {
        let mut diagnostics: Vec<DiagnosticsInner> = Vec::new();
        let inner = DiagnosticsInner { message, suggestions: Vec::new() };
        assert(inner_view(inner).1 =~= Seq::<(bool, Seq<char>)>::empty());
        diagnostics.push(inner);
        let res = Diagnostics { diagnostics };
        assert(res@ =~= seq![(message@, Seq::<(bool, Seq<char>)>::empty())]);
        assert(suggestions_sorted(res@[0].1));
        res
    }

    /// Adds a help to the first error, keeping its suggestions in order.
    pub fn help(self, help: String) -> (res: Diagnostics)
        ensures
            res@.len() == self@.len(),
            res@[0].0 == self@[0].0,
            added_in_order(self@[0].1, res@[0].1, (false, help@)),
            forall|i: int| 1 <= i < res@.len() ==> res@[i] == self@[i],
            all_sorted(res@),
    {
        self.add(Suggestion::Help(help))
    }

    /// Adds a note to the first error, keeping its suggestions in order.
    pub fn note(self, note: String) -> (res: Diagnostics)
        ensures
            res@.len() == self@.len(),
            res@[0].0 == self@[0].0,
            added_in_order(self@[0].1, res@[0].1, (true, note@)),
            forall|i: int| 1 <= i < res@.len() ==> res@[i] == self@[i],
            all_sorted(res@),
    {
        self.add(Suggestion::Note(note))
    }

    fn add(self, s: Suggestion) -> (res: Diagnostics)
        ensures
            res@.len() == self@.len(),
            res@[0].0 == self@[0].0,
            added_in_order(self@[0].1, res@[0].1, suggestion_view(s)),
            forall|i: int| 1 <= i < res@.len() ==> res@[i] == self@[i],
            all_sorted(res@),
    {
        proof {
            use_type_invariant(&self);
        }
        let ghost old_view = self@;
        let ghost old_diag = self.diagnostics@;
        let mut diagnostics = self.diagnostics;
        let mut first = diagnostics.remove(0);
        let ghost old_first = inner_view(first);
        proof {
            assert(old_first == old_view[0]);
            assert(suggestions_sorted(old_first.1));
        }
        let ghost x = suggestion_view(s);
        let n = first.suggestions.len();
        let mut k: usize = 0;
        while k < n && !suggestion_lt_exec(&s, &first.suggestions[k])
            invariant
                n == first.suggestions@.len(),
                k <= n,
                inner_view(first) == old_first,
                x == suggestion_view(s),
                forall|j: int| 0 <= j < k ==> !suggestion_lt(x, #[trigger] old_first.1[j]),
            decreases n - k,
        {
            k = k + 1;
        }
        let ghost old_sugg = first.suggestions@;
        first.suggestions.insert(k, s);
        proof {
            let ov = old_first.1;
            let nv = inner_view(first).1;
            assert(first.suggestions@ == old_sugg.insert(k as int, s));
            assert(nv =~= ov.insert(k as int, x));
            assert forall|i: int, j: int| 0 <= i < j < nv.len() implies !suggestion_lt(
                #[trigger] nv[j],
                #[trigger] nv[i],
            ) by {
                lemma_suggestion_order(x, x);
                if i < k && j < k {
                    assert(nv[i] == ov[i] && nv[j] == ov[j]);
                } else if i < k && j == k {
                    lemma_suggestion_order(x, ov[i]);
                } else if i < k && j > k {
                    assert(nv[i] == ov[i] && nv[j] == ov[j - 1]);
                } else if i == k {
                    assert(nv[j] == ov[j - 1]);
                    assert(k < n);
                    assert(suggestion_lt(x, ov[k as int]));
                    if k < j - 1 {
                        assert(!suggestion_lt(ov[j - 1], ov[k as int]));
                        lemma_suggestion_order(ov[j - 1], ov[k as int]);
                        if suggestion_lt(ov[j - 1], x) {
                            lemma_suggestion_trans(ov[j - 1], x, ov[k as int]);
                        }
                    } else {
                        lemma_suggestion_order(ov[j - 1], x);
                    }
                } else {
                    assert(nv[i] == ov[i - 1] && nv[j] == ov[j - 1]);
                }
            }
        }
        diagnostics.insert(0, first);
        proof {
            let rv = diagnostics@.map_values(|d: DiagnosticsInner| inner_view(d));
            assert(diagnostics@.len() == old_diag.len());
            assert forall|i: int| 1 <= i < rv.len() implies rv[i] == old_view[i] by {
                assert(diagnostics@[i] == old_diag[i]);
            }
            assert(rv[0] == inner_view(first));
            assert forall|i: int| 0 <= i < rv.len() implies suggestions_sorted(#[trigger] rv[i].1) by {
                if i > 0 {
                    assert(rv[i] == old_view[i]);
                }
            }
        }
        let res = Diagnostics { diagnostics };
        proof {
            assert(old_first.1.insert(k as int, x) == res@[0].1);
        }
        res
    }

    /// Joins the errors of `other` after those of `self`.
    pub fn merge(self, other: Diagnostics) -> (res: Diagnostics)
        ensures
            res@ == self@ + other@,
    {
        proof {
            use_type_invariant(&self);
            use_type_invariant(&other);
        }
        let ghost a = self.diagnostics@;
        let ghost b = other.diagnostics@;
        let mut diagnostics = self.diagnostics;
        let mut more = other.diagnostics;
        diagnostics.append(&mut more);
        proof {
            let rv = diagnostics@.map_values(|d: DiagnosticsInner| inner_view(d));
            assert(diagnostics@ =~= a + b);
            assert(rv =~= self@ + other@);
            assert forall|i: int| 0 <= i < rv.len() implies suggestions_sorted(#[trigger] rv[i].1) by {
                if i < self@.len() {
                    assert(rv[i] == self@[i]);
                } else {
                    assert(rv[i] == other@[i - self@.len()]);
                }
            }
        }
        Diagnostics { diagnostics }
    }

    /// The compile error message of each error, in order.
    pub fn rendered_messages(&self) -> (res: Vec<String>)
        ensures
            res@.len() == self@.len(),
            forall|i: int| 0 <= i < res@.len() ==> #[trigger] res@[i]@ == rendered_message(self@[i]),
    {
        let mut res: Vec<String> = Vec::new();
        let n = self.diagnostics.len();
        for i in 0..n
            invariant
                n == self.diagnostics@.len(),
                self@ == self.diagnostics@.map_values(|d: DiagnosticsInner| inner_view(d)),
                res@.len() == i,
                forall|j: int| 0 <= j < i ==> #[trigger] res@[j]@ == rendered_message(self@[j]),
        {
            let r = render_inner(&self.diagnostics[i]);
            res.push(r);
        }
        res
    }

    /// The message of the first error.
    pub fn message(&self) -> (res: String)
        ensures
            res@ == spec_message(self@),
            self@.len() >= 1,
    {
        proof {
            use_type_invariant(self);
        }
        self.diagnostics[0].message.clone()
    }
}

/// Of two suggestions, at most one comes before the other; of two different
/// ones exactly one does.
pub proof fn lemma_suggestion_order(a: (bool, Seq<char>), b: (bool, Seq<char>))
    ensures
        !(suggestion_lt(a, b) && suggestion_lt(b, a)),
        a != b ==> suggestion_lt(a, b) || suggestion_lt(b, a),
        !suggestion_lt(a, a),
{
    lemma_lex_total(a.1, b.1);
    lemma_lex_irreflexive(a.1);
}

/// The order of suggestions is transitive.
pub proof fn lemma_suggestion_trans(a: (bool, Seq<char>), b: (bool, Seq<char>), c: (bool, Seq<char>))
    requires
        suggestion_lt(a, b),
        suggestion_lt(b, c),
    ensures
        suggestion_lt(a, c),
{
    if a.0 == b.0 && b.0 == c.0 {
        lemma_lex_transitive(a.1, b.1, c.1);
    }
}

fn render_inner(d: &DiagnosticsInner) -> (res: String)
    ensures
        res@ == rendered_message(inner_view(*d)),
{
    let ghost sv = inner_view(*d).1;
    let mut out = chars_of(d.message.as_str());
    let n = d.suggestions.len();
    if n == 0 {
        return string_from_chars(&out);
    }
    out.push('\n');
    out.push('\n');
    let ghost head = out@;
    proof {
        reveal_strlit("\n\n");
        assert(head =~= d.message@ + "\n\n"@);
    }
    for i in 0..n
        invariant
            n == d.suggestions@.len(),
            n > 0,
            sv == inner_view(*d).1,
            sv.len() == n,
            forall|j: int| 0 <= j < n ==> #[trigger] sv[j] == suggestion_view(d.suggestions@[j]),
            i > 0 ==> out@ == head + joined_suggestions(sv.take(i as int)),
            i == 0 ==> out@ == head,
    {
        let ghost before = out@;
        if i > 0 {
            out.push('\n');
        }
        let text = match &d.suggestions[i] {
            Suggestion::Help(t) => {
                let mut v = chars_of("help = ");
                let tv = chars_of(t.as_str());
                extend_chars(&mut v, &tv);
                v
            },
            Suggestion::Note(t) => {
                let mut v = chars_of("note = ");
                let tv = chars_of(t.as_str());
                extend_chars(&mut v, &tv);
                v
            },
        };
        extend_chars(&mut out, &text);
        proof {
            reveal_strlit("\n");
            assert(text@ == suggestion_text(sv[i as int]));
            assert(sv.take(i + 1).drop_last() =~= sv.take(i as int));
            if i == 0 {
                assert(sv.take(1) =~= seq![sv[0]]);
                assert(out@ =~= head + joined_suggestions(sv.take(1)));
            } else {
                assert(out@ =~= head + joined_suggestions(sv.take(i + 1)));
            }
        }
    }
    proof {
        assert(sv.take(n as int) =~= sv);
    }
    string_from_chars(&out)
}

fn suggestion_lt_exec(a: &Suggestion, b: &Suggestion) -> (res: bool)
    ensures
        res == suggestion_lt(suggestion_view(*a), suggestion_view(*b)),
{
    match (a, b) {
        (Suggestion::Help(_), Suggestion::Note(_)) => true,
        (Suggestion::Note(_), Suggestion::Help(_)) => false,
        (Suggestion::Help(x), Suggestion::Help(y)) => str_lt(x.as_str(), y.as_str()),
        (Suggestion::Note(x), Suggestion::Note(y)) => str_lt(x.as_str(), y.as_str()),
    }
}

} // verus!
