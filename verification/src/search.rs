//! The search itself: the lines of a text that hold a pattern.

use vstd::prelude::*;
use crate::lines::{lines_of, split_lines};
use crate::matcher::{line_matches, lowercase, occurs_at, occurs_in, Matcher};

verus! {

/// The lines of `text` that match `pattern`, in the order in which they stand
/// in `text`. A line that matches is kept as often as it stands there.
pub open spec fn matching_lines(pattern: Seq<char>, text: Seq<char>, case_sensitive: bool) -> Seq<
    Seq<char>,
> {
    lines_of(text).filter(|line: Seq<char>| line_matches(pattern, line, case_sensitive))
}

/// The positions in `lines` of the lines that match `pattern`, in rising
/// order.
pub open spec fn matching_positions(
    pattern: Seq<char>,
    lines: Seq<Seq<char>>,
    case_sensitive: bool,
) -> Seq<int>
    decreases lines.len(),
{
    if lines.len() == 0 {
        Seq::empty()
    } else {
        let before = matching_positions(pattern, lines.drop_last(), case_sensitive);
        if line_matches(pattern, lines.last(), case_sensitive) {
            before.push(lines.len() - 1)
        } else {
            before
        }
    }
}

/// A line of the text in which the pattern stands as it is written is among
/// the results of a case-sensitive search.
pub proof fn lemma_line_with_pattern_is_found(pattern: Seq<char>, text: Seq<char>, i: int)
    requires
        0 <= i < lines_of(text).len(),
        occurs_in(pattern, lines_of(text)[i]),
    ensures
        matching_lines(pattern, text, true).contains(lines_of(text)[i]),
{
    let pred = |line: Seq<char>| line_matches(pattern, line, true);
    lines_of(text).lemma_filter_contains(pred, i);
}

/// A case-sensitive search for the empty pattern returns every line of the
/// text.
pub proof fn lemma_empty_pattern_finds_every_line(text: Seq<char>)
    ensures
        matching_lines(Seq::empty(), text, true) == lines_of(text),
{
    let empty = Seq::<char>::empty();
    let pred = |line: Seq<char>| line_matches(empty, line, true);
    let lines = lines_of(text);
    assert forall|i: int| 0 <= i < lines.len() implies pred(#[trigger] lines[i]) by {
        assert(lines[i].subrange(0, 0) =~= empty);
        assert(occurs_at(empty, lines[i], 0));
    }
    lemma_filter_keeps_all(lines, pred);
}

/// A search of the empty text finds nothing, whatever the pattern.
pub proof fn lemma_empty_text_gives_nothing(pattern: Seq<char>, case_sensitive: bool)
    ensures
        matching_lines(pattern, Seq::empty(), case_sensitive) == Seq::<Seq<char>>::empty(),
{
    reveal(Seq::filter);
}

/// A filter that every item passes changes nothing.
proof fn lemma_filter_keeps_all(lines: Seq<Seq<char>>, pred: spec_fn(Seq<char>) -> bool)
    requires
        forall|i: int| 0 <= i < lines.len() ==> pred(#[trigger] lines[i]),
    ensures
        lines.filter(pred) == lines,
    decreases lines.len(),
{
    reveal(Seq::filter);
    if lines.len() > 0 {
        let front = lines.drop_last();
        assert forall|i: int| 0 <= i < front.len() implies pred(#[trigger] front[i]) by {
            assert(front[i] == lines[i]);
        }
        lemma_filter_keeps_all(front, pred);
        assert(pred(lines[lines.len() - 1]));
        assert(front.push(lines.last()) =~= lines);
    }
}

/// A search that leaves case aside sees of the pattern only its lowercase
/// form: two patterns with the same lowercase form give the same result on
/// every text.
pub proof fn lemma_case_of_pattern_is_left_aside(first: Seq<char>, second: Seq<char>, text: Seq<char>)
    requires
        lowercase(first) == lowercase(second),
    ensures
        matching_lines(first, text, false) == matching_lines(second, text, false),
{
    let by_first = |line: Seq<char>| line_matches(first, line, false);
    let by_second = |line: Seq<char>| line_matches(second, line, false);
    assert(by_first =~= by_second);
}

/// The results are the matching lines of the text in the order of the text,
/// each as often as it stands there: the positions of the matching lines
/// rise strictly, every position of a matching line is among them and no
/// other, and the results are the lines at those positions, one for one.
pub proof fn lemma_order_is_kept(pattern: Seq<char>, text: Seq<char>, case_sensitive: bool)
    ensures
        ({
            let lines = lines_of(text);
            let found = matching_lines(pattern, text, case_sensitive);
            let at = matching_positions(pattern, lines, case_sensitive);
            &&& at.len() == found.len()
            &&& forall|j: int| 0 <= j < at.len() ==> 0 <= #[trigger] at[j] < lines.len()
            &&& forall|j: int| 0 <= j < at.len() ==> #[trigger] found[j] == lines[at[j]]
            &&& forall|j: int, k: int| 0 <= j < k < at.len() ==> at[j] < at[k]
            &&& forall|i: int|
                0 <= i < lines.len() ==> (line_matches(pattern, #[trigger] lines[i], case_sensitive)
                    <==> at.contains(i))
        }),
{
    lemma_positions(pattern, lines_of(text), case_sensitive);
}

/// What `lemma_order_is_kept` states, of any sequence of lines.
proof fn lemma_positions(pattern: Seq<char>, lines: Seq<Seq<char>>, case_sensitive: bool)
    ensures
        ({
            let found = lines.filter(|line: Seq<char>| line_matches(pattern, line, case_sensitive));
            let at = matching_positions(pattern, lines, case_sensitive);
            &&& at.len() == found.len()
            &&& forall|j: int| 0 <= j < at.len() ==> 0 <= #[trigger] at[j] < lines.len()
            &&& forall|j: int| 0 <= j < at.len() ==> #[trigger] found[j] == lines[at[j]]
            &&& forall|j: int, k: int| 0 <= j < k < at.len() ==> at[j] < at[k]
            &&& forall|i: int|
                0 <= i < lines.len() ==> (line_matches(pattern, #[trigger] lines[i], case_sensitive)
                    <==> at.contains(i))
        }),
    decreases lines.len(),
{
    reveal(Seq::filter);
    let pred = |line: Seq<char>| line_matches(pattern, line, case_sensitive);
    let found = lines.filter(pred);
    let at = matching_positions(pattern, lines, case_sensitive);
    if lines.len() > 0 {
        let front = lines.drop_last();
        let last = lines.len() - 1;
        let found_front = front.filter(pred);
        let at_front = matching_positions(pattern, front, case_sensitive);
        lemma_positions(pattern, front, case_sensitive);
        assert forall|j: int| 0 <= j < at_front.len() implies lines[#[trigger] at_front[j]]
            == front[at_front[j]] by {}
        assert forall|i: int| 0 <= i < lines.len() implies (line_matches(
            pattern,
            #[trigger] lines[i],
            case_sensitive,
        ) <==> at.contains(i)) by {
            if i < last {
                assert(lines[i] == front[i]);
                if at_front.contains(i) {
                    let j = choose|j: int| 0 <= j < at_front.len() && at_front[j] == i;
                    assert(at[j] == i);
                }
                if at.contains(i) {
                    let j = choose|j: int| 0 <= j < at.len() && at[j] == i;
                    assert(at_front[j] == i);
                }
            } else {
                if pred(lines.last()) {
                    assert(at[at.len() - 1] == last);
                }
                if at.contains(i) {
                    let j = choose|j: int| 0 <= j < at.len() && at[j] == i;
                    if j < at_front.len() {
                        assert(at_front[j] < front.len());
                    }
                }
            }
        }
    }
}

/// Keeps the lines that `matcher` lets through, in their order.
pub fn keep_matching<'a>(matcher: &Matcher, lines: &Vec<&'a str>) -> (found: Vec<&'a str>)
    ensures
        found.deep_view() == lines.deep_view().filter(|line: Seq<char>| matcher.accepts(line)),
{
    let ghost all = lines.deep_view();
    let ghost pred = |line: Seq<char>| matcher.accepts(line);
    let mut found: Vec<&'a str> = Vec::new();
    let mut i: usize = 0;
    proof {
        reveal(Seq::filter);
        assert(all.take(0).filter(pred) =~= found.deep_view());
    }
    while i < lines.len()
        invariant
            i <= lines.len(),
            all == lines.deep_view(),
            pred == |line: Seq<char>| matcher.accepts(line),
            found.deep_view() == all.take(i as int).filter(pred),
        decreases lines.len() - i,
    {
        let line = lines[i];
        let ghost before = found.deep_view();
        let keep = matcher.matches(line);
        if keep {
            found.push(line);
        }
        proof {
            reveal(Seq::filter);
            let upto = all.take(i + 1);
            assert(upto.drop_last() =~= all.take(i as int));
            assert(upto.last() == line@);
            if keep {
                assert(found.deep_view() =~= before.push(line@));
            }
        }
        i += 1;
    }
    assert(all.take(i as int) =~= all);
    found
}

/// The lines of `text` that hold `pattern`. Where `case_sensitive` is false,
/// both the pattern and each line are lowered before they are compared. The
/// result shares the storage of `text`.
pub fn search_with<'a>(pattern: &str, text: &'a str, case_sensitive: bool) -> (found: Vec<&'a str>)
    ensures
        found.deep_view() == matching_lines(pattern@, text@, case_sensitive),
{
    let matcher = Matcher::new(pattern, case_sensitive);
    let lines = split_lines(text);
    let found = keep_matching(&matcher, &lines);
    proof {
        let by_matcher = |line: Seq<char>| matcher.accepts(line);
        let by_pattern = |line: Seq<char>| line_matches(pattern@, line, case_sensitive);
        assert(by_matcher =~= by_pattern);
    }
    found
}

/// The lines of `contents` that hold `pattern` exactly as it is written.
pub fn search<'a>(pattern: &String, contents: &'a String) -> (found: Vec<&'a str>)
    ensures
        found.deep_view() == matching_lines(pattern@, contents@, true),
{
    search_with(pattern.as_str(), contents.as_str(), true)
}

/// The lines of `contents` that hold `pattern` when case is left aside.
pub fn search_case_insensitive<'a>(pattern: &String, contents: &'a String) -> (found: Vec<
    &'a str,
>)
    ensures
        found.deep_view() == matching_lines(pattern@, contents@, false),
{
    search_with(pattern.as_str(), contents.as_str(), false)
}

} // verus!
