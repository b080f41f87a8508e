//! Laying out the matching lines for where they go: line by line for the
//! console, as one text for a file.

use vstd::prelude::*;
use vstd::string::StringExecFns;
use crate::config::{Cli, OutputTarget};
use crate::lines::{
    first_line_len, lemma_first_line_len, lemma_first_line_whole, lemma_lines_of_cut,
    lemma_some_text_some_line, lines_of,
};
use crate::search::{matching_lines, search_with};

verus! {

/// The lines put together with one line feed between each two of them, and
/// none after the last.
pub open spec fn joined(lines: Seq<Seq<char>>) -> Seq<char>
    decreases lines.len(),
{
    if lines.len() == 0 {
        Seq::empty()
    } else if lines.len() == 1 {
        lines[0]
    } else {
        joined(lines.drop_last()) + seq!['\n'] + lines.last()
    }
}

/// Joining a line in front of others puts it and a line feed before their
/// joined text.
pub proof fn lemma_joined_front(head: Seq<char>, rest: Seq<Seq<char>>)
    requires
        rest.len() > 0,
    ensures
        joined(seq![head] + rest) == head + seq!['\n'] + joined(rest),
    decreases rest.len(),
{
    let all = seq![head] + rest;
    assert(all.last() == rest.last());
    if rest.len() == 1 {
        assert(all.drop_last() =~= seq![head]);
        assert(joined(all.drop_last()) == head);
    } else {
        assert(all.drop_last() =~= seq![head] + rest.drop_last());
        lemma_joined_front(head, rest.drop_last());
        assert(joined(all) =~= head + seq!['\n'] + joined(rest));
    }
}

/// Joined lines split back into the same lines, with no line lost, none
/// added and none changed, provided that no line holds a line feed and that
/// the last line is not empty. (An empty last line leaves no trace in the
/// joined text.)
pub proof fn lemma_joined_splits_back(lines: Seq<Seq<char>>)
    requires
        forall|i: int| 0 <= i < lines.len() ==> !(#[trigger] lines[i]).contains('\n'),
        lines.len() > 0 ==> lines.last().len() > 0,
    ensures
        lines_of(joined(lines)) == lines,
    decreases lines.len(),
{
    if lines.len() == 0 {
    } else if lines.len() == 1 {
        lemma_first_line_whole(lines[0]);
        assert(lines =~= seq![lines[0]]);
    } else {
        let head = lines[0];
        let rest = lines.drop_first();
        assert(lines =~= seq![head] + rest);
        assert(rest.last() == lines.last());
        assert forall|i: int| 0 <= i < rest.len() implies !(#[trigger] rest[i]).contains('\n') by {
            assert(rest[i] == lines[i + 1]);
        }
        lemma_joined_front(head, rest);
        lemma_lines_of_cut(head, joined(rest));
        lemma_joined_splits_back(rest);
    }
}

/// The lines of a text, joined, give the text back, but for the line feed
/// that may close it.
pub proof fn lemma_lines_rebuild_text(text: Seq<char>)
    ensures
        text == joined(lines_of(text)) + (if text.len() > 0 && text.last() == '\n' {
            seq!['\n']
        } else {
            Seq::empty()
        }),
    decreases text.len(),
{
    let closing = if text.len() > 0 && text.last() == '\n' {
        seq!['\n']
    } else {
        Seq::empty()
    };
    if text.len() == 0 {
        assert(text =~= joined(lines_of(text)) + closing);
    } else {
        let k = first_line_len(text) as int;
        lemma_first_line_len(text);
        if k == text.len() {
            assert(text =~= joined(lines_of(text)) + closing);
        } else {
            let head = text.take(k);
            let rest = text.skip(k + 1);
            assert(text =~= head + seq!['\n'] + rest);
            if rest.len() == 0 {
                assert(lines_of(text) =~= seq![head]);
                assert(text =~= joined(lines_of(text)) + closing);
            } else {
                lemma_some_text_some_line(rest);
                lemma_joined_front(head, lines_of(rest));
                lemma_lines_rebuild_text(rest);
                assert(rest.last() == text.last());
                assert(text =~= joined(lines_of(text)) + closing);
            }
        }
    }
}

/// The text that a file takes for these lines.
pub fn join_lines(lines: &Vec<&str>) -> (content: String)
    ensures
        content@ == joined(lines.deep_view()),
{
    let ghost all = lines.deep_view();
    let mut content = String::new();
    let mut i: usize = 0;
    while i < lines.len()
        invariant
            i <= lines.len(),
            all == lines.deep_view(),
            content@ == joined(all.take(i as int)),
        decreases lines.len() - i,
    {
        let ghost before = content@;
        if i > 0 {
            content.append("\n");
        }
        content.append(lines[i]);
        proof {
            reveal_strlit("\n");
            let upto = all.take(i + 1);
            assert(upto.drop_last() =~= all.take(i as int));
            assert(upto.last() == lines[i as int]@);
            if i > 0 {
                assert("\n"@ =~= seq!['\n']);
            } else {
                assert(content@ =~= upto[0]);
            }
        }
        i += 1;
    }
    assert(all.take(i as int) =~= all);
    content
}

/// What is to be done with the result of a search.
#[derive(Debug)]
pub enum Rendered<'a> {
    /// Each of these lines goes to the console as a record of its own.
    Console(Vec<&'a str>),
    /// `content` is written in one piece to a new file at `path`, in place
    /// of whatever was there.
    File { path: String, content: String },
}

/// Searches `contents`, the text of the file that `args` names, as `args`
/// asks, and lays the matching lines out for the target that `args` gives.
pub fn run<'a>(args: &Cli, contents: &'a str) -> (rendered: Rendered<'a>)
    ensures
        match rendered {
            Rendered::Console(lines) => {
                &&& args@.output is None
                &&& lines.deep_view() == matching_lines(
                    args@.pattern,
                    contents@,
                    !args@.ignore_case,
                )
            },
            Rendered::File { path, content } => {
                &&& args@.output == Some(path@)
                &&& content@ == joined(
                    matching_lines(args@.pattern, contents@, !args@.ignore_case),
                )
            },
        },
{
    let found = search_with(args.pattern(), contents, args.case_sensitive());
    match args.target() {
        OutputTarget::Console => Rendered::Console(found),
        OutputTarget::File(path) => {
            let content = join_lines(&found);
            Rendered::File { path, content }
        },
    }
}

} // verus!
