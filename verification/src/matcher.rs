//! Deciding whether a line holds a pattern, with or without regard to case.

use vstd::prelude::*;
use crate::text::chars_of;

verus! {

/// `pattern` stands in `line` from position `at` on.
pub open spec fn occurs_at(pattern: Seq<char>, line: Seq<char>, at: int) -> bool {
    &&& 0 <= at
    &&& at + pattern.len() <= line.len()
    &&& line.subrange(at, at + pattern.len()) == pattern
}

/// `pattern` stands somewhere in `line`. The empty pattern stands in every
/// line.
pub open spec fn occurs_in(pattern: Seq<char>, line: Seq<char>) -> bool {
    exists|at: int| occurs_at(pattern, line, at)
}

/// The lowercase form of a text, as the standard library's full Unicode
/// lowercase mapping gives it. The mapping is not spelled out here; the
/// contracts only rely on its being a function of the text.
pub uninterp spec fn lowercase(s: Seq<char>) -> Seq<char>;

/// What is compared when a line is tested: the text itself where case counts,
/// its lowercase form where it does not.
pub open spec fn folded(s: Seq<char>, case_sensitive: bool) -> Seq<char> {
    if case_sensitive {
        s
    } else {
        lowercase(s)
    }
}

/// `line` is a match for `pattern`.
pub open spec fn line_matches(pattern: Seq<char>, line: Seq<char>, case_sensitive: bool) -> bool {
    occurs_in(folded(pattern, case_sensitive), folded(line, case_sensitive))
}

/// Calls `str::to_lowercase`, which returns the lowercase equivalent of the
/// slice as a new `String`. Nothing is proved of that mapping: the contract
/// only gives its result the name `lowercase`.
#[verifier::external_body]
fn to_lowercase(s: &str) -> (lowered: String)
    ensures
        lowered@ == lowercase(s@),
{
    s.to_lowercase()
}

/// The characters of `s` as they are compared under the given case rule.
pub fn fold(s: &str, case_sensitive: bool) -> (out: Vec<char>)
    ensures
        out@ == folded(s@, case_sensitive),
{
    if case_sensitive {
        chars_of(s)
    } else {
        let lowered = to_lowercase(s);
        chars_of(lowered.as_str())
    }
}

/// Tests whether `pattern` stands in `line` from position `at` on.
pub fn starts_at(pattern: &Vec<char>, line: &Vec<char>, at: usize) -> (found: bool)
    ensures
        found == occurs_at(pattern@, line@, at as int),
{
    let m = pattern.len();
    if at > line.len() || m > line.len() - at {
        return false;
    }
    let mut j: usize = 0;
    while j < m
        invariant
            j <= m,
            m == pattern.len(),
            at + m <= line.len(),
            forall|k: int| 0 <= k < j ==> line@[at + k] == pattern@[k],
        decreases m - j,
    {
        if line[at + j] != pattern[j] {
            assert(line@.subrange(at as int, at + m)[j as int] != pattern@[j as int]);
            return false;
        }
        j += 1;
    }
    assert(line@.subrange(at as int, at + m) =~= pattern@);
    true
}

/// Tests whether `pattern` stands somewhere in `line`.
pub fn contains(line: &Vec<char>, pattern: &Vec<char>) -> (found: bool)
    ensures
        found == occurs_in(pattern@, line@),
{
    let n = line.len();
    let m = pattern.len();
    if m > n {
        return false;
    }
    let last = n - m;
    let mut at: usize = 0;
    loop
        invariant
            at <= last,
            last == n - m,
            n == line.len(),
            m == pattern.len(),
            forall|k: int| 0 <= k < at ==> !occurs_at(pattern@, line@, k),
        decreases last - at,
    {
        if starts_at(pattern, line, at) {
            return true;
        }
        if at == last {
            return false;
        }
        at += 1;
    }
}

/// A line test that is made once for a pattern and then put to every line.
pub struct Matcher {
    /// The pattern as it is compared: lowered where case does not count.
    pub needle: Vec<char>,
    /// Whether case counts.
    pub case_sensitive: bool,
}

impl Matcher {
    /// The lines that this test lets through.
    pub open spec fn accepts(&self, line: Seq<char>) -> bool {
        occurs_in(self.needle@, folded(line, self.case_sensitive))
    }

    /// The test for `pattern` under the given case rule.
    pub fn new(pattern: &str, case_sensitive: bool) -> (matcher: Matcher)
        ensures
            matcher.case_sensitive == case_sensitive,
            matcher.needle@ == folded(pattern@, case_sensitive),
            forall|line: Seq<char>|
                #[trigger] matcher.accepts(line) == line_matches(pattern@, line, case_sensitive),
    {
        Matcher { needle: fold(pattern, case_sensitive), case_sensitive }
    }

    /// Puts the test to one line. Nothing is kept from one call to the next.
    pub fn matches(&self, line: &str) -> (found: bool)
        ensures
            found == self.accepts(line@),
    {
        let hay = fold(line, self.case_sensitive);
        contains(&hay, &self.needle)
    }
}

} // verus!
