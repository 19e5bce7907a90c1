//! The `+term` tokens of an intersection query, found with the regular
//! expression `\+(\S+)`.

use vstd::prelude::*;
use crate::text::is_ws;

verus! {

#[verifier::external_type_specification]
#[verifier::external_body]
pub struct ExRegex(regex::Regex);

/// End of the run of non-white-space characters that starts at `i`.
pub open spec fn run_end(s: Seq<char>, i: int) -> int
    decreases s.len() - i,
{
    if 0 <= i < s.len() && !is_ws(s[i]) {
        run_end(s, i + 1)
    } else {
        i
    }
}

/// A run starts where it is asked to and ends within the text.
pub proof fn lemma_run_end_bounds(s: Seq<char>, i: int)
    requires
        0 <= i <= s.len(),
    ensures
        i <= run_end(s, i) <= s.len(),
        forall|j: int| i <= j < run_end(s, i) ==> !is_ws(#[trigger] s[j]),
        run_end(s, i) < s.len() ==> is_ws(s[run_end(s, i)]),
    decreases s.len() - i,
{
    if i < s.len() && !is_ws(s[i]) {
        lemma_run_end_bounds(s, i + 1);
    }
}

/// The capture group of every match of `\+(\S+)` in `s[i..]`, scanning left to
/// right for non-overlapping matches: a match starts at a `+` followed by a
/// non-white-space character and runs greedily to the next white space or the
/// end of the text.
pub open spec fn captures_from(s: Seq<char>, i: int) -> Seq<Seq<char>>
    decreases s.len() - i,
{
    if i < 0 || i >= s.len() {
        Seq::empty()
    } else if s[i] == '+' && i + 1 < s.len() && !is_ws(s[i + 1]) {
        let e = run_end(s, i + 1);
        proof {
            lemma_run_end_bounds(s, i + 1);
        }
        seq![s.subrange(i + 1, e)] + captures_from(s, e)
    } else {
        captures_from(s, i + 1)
    }
}

/// The capture group of every match of `\+(\S+)` in `s`, in order.
pub open spec fn plus_captures(s: Seq<char>) -> Seq<Seq<char>> {
    captures_from(s, 0)
}

/// The source text of the `+term` pattern: a `+`, then a captured run of
/// non-white-space characters.
pub open spec fn plus_term_source() -> Seq<char> {
    "\\+(\\S+)"@
}

/// A compiled regular expression together with the source text it was
/// compiled from; the source is always the `+term` pattern.
pub struct PlusTermPattern {
    re: regex::Regex,
    source: Ghost<Seq<char>>,
}

/// `regex::Regex::new`, which panics on a pattern that the regex crate does
/// not accept (`unwrap`); only the `+term` pattern, which it accepts, is let
/// in. Nothing is claimed of the compiled value.
#[verifier::external_body]
fn compile_regex(pattern: &str) -> regex::Regex
    requires
        pattern@ == plus_term_source(),
{
    regex::Regex::new(pattern).unwrap()
}

impl PlusTermPattern {
    /// The source text that the pattern was compiled from.
    pub closed spec fn source(&self) -> Seq<char> {
        self.source@
    }

    /// Every pattern is compiled from the `+term` source.
    #[verifier::type_invariant]
    pub open spec fn compiled_from_plus_term(self) -> bool {
        self.source() == plus_term_source()
    }

    /// Compiles the `+term` pattern `\+(\S+)`.
    pub fn new() -> (p: PlusTermPattern)
        ensures
            p.source() == plus_term_source(),
    {
        let pattern = "\\+(\\S+)";
        PlusTermPattern { re: compile_regex(pattern), source: Ghost(pattern@) }
    }

    /// `regex::Regex::captures_iter` with the text of group 1 of each match,
    /// on the regex compiled from the `+term` source. The contract claims that
    /// the regex crate finds the leftmost non-overlapping matches, that `\S` is the complement of the Unicode
    /// `White_Space` class (the crate's documented meaning in its default
    /// Unicode mode), and that `\S+` is greedy.
    #[verifier::external_body]
    pub(crate) fn captures(&self, s: &str) -> (v: Vec<String>)
        requires
            self.source() == plus_term_source(),
        ensures
            v.deep_view() == plus_captures(s@),
    {
        self.re.captures_iter(s).map(|c| c[1].to_string()).collect()
    }
}

} // verus!
