//! Splitting a text into its lines.
//!
//! A line is a maximal run of characters without a line feed. Line feeds
//! separate the lines and belong to none of them; a line feed at the very end
//! of the text closes the last line and opens no further, empty one. Only
//! the line feed parts lines: a carriage return is a character like any
//! other and stays in its line.

use vstd::prelude::*;
use crate::text::split_at_line_feed;

verus! {

/// The number of characters that stand before the first line feed of `text`:
/// the length of `text` where it holds none.
pub open spec fn first_line_len(text: Seq<char>) -> nat
    decreases text.len(),
{
    if text.len() == 0 || text[0] == '\n' {
        0
    } else {
        1 + first_line_len(text.drop_first())
    }
}

/// The lines of `text`, in order. The empty text has no lines.
pub open spec fn lines_of(text: Seq<char>) -> Seq<Seq<char>>
    decreases text.len(),
{
    if text.len() == 0 {
        Seq::empty()
    } else {
        let k = first_line_len(text) as int;
        if k < text.len() {
            seq![text.take(k)] + lines_of(text.skip(k + 1))
        } else {
            seq![text]
        }
    }
}

/// `first_line_len` stays within the text and counts no line feed; where it
/// stops short of the end, it stops at a line feed.
pub proof fn lemma_first_line_len(text: Seq<char>)
    ensures
        first_line_len(text) <= text.len(),
        forall|i: int| 0 <= i < first_line_len(text) ==> text[i] != '\n',
        first_line_len(text) < text.len() ==> text[first_line_len(text) as int] == '\n',
    decreases text.len(),
{
    if text.len() == 0 || text[0] == '\n' {
    } else {
        let rest = text.drop_first();
        lemma_first_line_len(rest);
        assert forall|i: int| 0 <= i < first_line_len(text) implies text[i] != '\n' by {
            if i > 0 {
                assert(text[i] == rest[i - 1]);
            }
        }
        if first_line_len(text) < text.len() {
            assert(text[first_line_len(text) as int] == rest[first_line_len(rest) as int]);
        }
    }
}

/// A text without a line feed is its own first line.
pub proof fn lemma_first_line_whole(text: Seq<char>)
    requires
        !text.contains('\n'),
    ensures
        first_line_len(text) == text.len(),
{
    lemma_first_line_len(text);
    if first_line_len(text) < text.len() {
        assert(text.contains(text[first_line_len(text) as int]));
    }
}

/// Where a line feed follows a run without line feeds, that run is the first
/// line and the lines of what follows come after it.
pub proof fn lemma_lines_of_cut(head: Seq<char>, rest: Seq<char>)
    requires
        !head.contains('\n'),
    ensures
        lines_of(head + seq!['\n'] + rest) == seq![head] + lines_of(rest),
{
    let text = head + seq!['\n'] + rest;
    let k = first_line_len(text) as int;
    lemma_first_line_len(text);
    assert(text[head.len() as int] == '\n');
    if k < head.len() {
        assert(head[k] == text[k]);
        assert(head.contains(head[k]));
    }
    assert(k == head.len());
    assert(text.take(k) =~= head);
    assert(text.skip(k + 1) =~= rest);
}

/// A text that is not empty has a first line.
pub proof fn lemma_some_text_some_line(text: Seq<char>)
    requires
        text.len() > 0,
    ensures
        lines_of(text).len() > 0,
{
}

/// No line holds a line feed.
pub proof fn lemma_lines_hold_no_line_feed(text: Seq<char>, i: int)
    requires
        0 <= i < lines_of(text).len(),
    ensures
        !lines_of(text)[i].contains('\n'),
    decreases text.len(),
{
    let k = first_line_len(text) as int;
    lemma_first_line_len(text);
    if i == 0 {
        let line = lines_of(text)[0];
        assert(line =~= text.take(k));
        if line.contains('\n') {
            let j = choose|j: int| 0 <= j < line.len() && line[j] == '\n';
            assert(text[j] == '\n');
        }
    } else {
        let rest = text.skip(k + 1);
        assert(lines_of(text)[i] == lines_of(rest)[i - 1]);
        lemma_lines_hold_no_line_feed(rest, i - 1);
    }
}

/// The lines of `text`, each a view into `text`.
pub fn split_lines<'a>(text: &'a str) -> (lines: Vec<&'a str>)
    ensures
        lines.deep_view() == lines_of(text@),
{
    let mut lines: Vec<&'a str> = Vec::new();
    let mut rest: &'a str = text;
    assert(lines.deep_view() + lines_of(rest@) =~= lines_of(text@));
    while !rest.is_empty()
        invariant
            lines.deep_view() + lines_of(rest@) == lines_of(text@),
        decreases rest@.len(),
    {
        let ghost before = lines.deep_view();
        let ghost whole = rest@;
        let (line, after) = split_at_line_feed(rest);
        lines.push(line);
        assert(lines.deep_view() =~= before + seq![line@]);
        match after {
            Some(tail) => {
                proof {
                    lemma_lines_of_cut(line@, tail@);
                    assert(lines.deep_view() + lines_of(tail@) =~= before + lines_of(whole));
                }
                rest = tail;
            },
            None => {
                proof {
                    lemma_first_line_whole(whole);
                    assert(lines_of(whole) =~= seq![line@]);
                }
                assert(lines.deep_view() =~= lines_of(text@));
                return lines;
            },
        }
    }
    assert(lines.deep_view() =~= lines_of(text@));
    lines
}

} // verus!
