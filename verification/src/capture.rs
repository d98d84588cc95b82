//! Finding the link command line in what a build has printed.

use vstd::prelude::*;
use crate::text::{chars_of, contains, occurs_in, string_of};

verus! {

/// The place where the last line of `body` begins: behind its last line
/// feed, or at its start where it holds none.
pub open spec fn last_line_start(body: Seq<char>) -> int
    decreases body.len(),
{
    if body.len() == 0 {
        0
    } else if body.last() == '\n' {
        body.len() as int
    } else {
        last_line_start(body.drop_last())
    }
}

/// The last line of `output`, without its line ending.
///
/// Lines end with a line feed, or with a carriage return and a line feed;
/// the last line need not end at all. Text without a character has no line.
pub open spec fn last_line(output: Seq<char>) -> Option<Seq<char>> {
    if output.len() == 0 {
        None
    } else if output.last() == '\n' {
        let body = output.drop_last();
        let line = body.skip(last_line_start(body));
        if line.len() > 0 && line.last() == '\r' {
            Some(line.drop_last())
        } else {
            Some(line)
        }
    } else {
        Some(output.skip(last_line_start(output)))
    }
}

/// Whether `line` names a module-definition file: only such a line is a
/// link command line to rewrite.
pub open spec fn mentions_definition(line: Seq<char>) -> bool {
    occurs_in(".def"@, line)
}

/// `last_line_start` is the place behind which there is no line feed and
/// before which there is one, unless the text begins there.
pub proof fn lemma_last_line_start(body: Seq<char>, start: int)
    requires
        0 <= start <= body.len(),
        forall|i: int| start <= i < body.len() ==> body[i] != '\n',
        start > 0 ==> body[start - 1] == '\n',
    ensures
        last_line_start(body) == start,
    decreases body.len(),
{
    if body.len() > 0 && start < body.len() {
        lemma_last_line_start(body.drop_last(), start);
    }
}

/// Behind a line feed the last line begins where it begins in what follows
/// the line feed.
proof fn lemma_last_line_start_behind(head: Seq<char>, rest: Seq<char>)
    ensures
        last_line_start(head + seq!['\n'] + rest) == head.len() + 1 + last_line_start(rest),
    decreases rest.len(),
{
    let body = head + seq!['\n'] + rest;
    if rest.len() == 0 {
        assert(body.last() == '\n');
    } else {
        assert(body.last() == rest.last());
        if rest.last() != '\n' {
            lemma_last_line_start_behind(head, rest.drop_last());
            assert(body.drop_last() =~= head + seq!['\n'] + rest.drop_last());
        }
    }
}

/// Only the last line counts: whatever stands before a line feed, the last
/// line is that of what follows the line feed, if anything follows.
pub proof fn lemma_earlier_lines_do_not_count(head: Seq<char>, tail: Seq<char>)
    requires
        tail.len() > 0,
    ensures
        last_line(head + seq!['\n'] + tail) == last_line(tail),
{
    let output = head + seq!['\n'] + tail;
    assert(output.last() == tail.last());
    if tail.last() == '\n' {
        let rest = tail.drop_last();
        let body = head + seq!['\n'] + rest;
        assert(output.drop_last() =~= body);
        lemma_last_line_start_behind(head, rest);
        lemma_last_line_start_bounds(rest);
        assert(body.skip(last_line_start(body)) =~= rest.skip(last_line_start(rest)));
    } else {
        lemma_last_line_start_behind(head, tail);
        lemma_last_line_start_bounds(tail);
        assert(output.skip(last_line_start(output)) =~= tail.skip(last_line_start(tail)));
    }
}

/// The last line begins inside the text or at its end.
proof fn lemma_last_line_start_bounds(body: Seq<char>)
    ensures
        0 <= last_line_start(body) <= body.len(),
    decreases body.len(),
{
    if body.len() > 0 && body.last() != '\n' {
        lemma_last_line_start_bounds(body.drop_last());
    }
}

/// The last line of what a process has printed, without its line ending.
pub fn last_line_of(output: &str) -> (line: Option<String>)
    ensures
        (line is Some) == (last_line(output@) is Some),
        line matches Some(text) ==> last_line(output@) == Some(text@),
{
    let chars = chars_of(output);
    let text = chars.as_slice();
    if text.len() == 0 {
        return None;
    }
    let terminated = text[text.len() - 1] == '\n';
    let mut end = text.len();
    if terminated {
        end = end - 1;
    }
    let mut start = end;
    while start > 0 && text[start - 1] != '\n'
        invariant
            start <= end <= text.len(),
            forall|i: int| start <= i < end ==> text@[i] != '\n',
        decreases start,
    {
        start -= 1;
    }
    proof {
        lemma_last_line_start(text@.take(end as int), start as int);
        assert(text@.take(text.len() as int) =~= text@);
        assert(text@.drop_last() =~= text@.take(text.len() - 1));
    }
    if terminated && start < end && text[end - 1] == '\r' {
        end = end - 1;
    }
    let line = string_of(&text[start..end]);
    proof {
        assert(last_line(output@) == Some(line@)) by {
            let body = if terminated {
                text@.drop_last()
            } else {
                text@
            };
            assert(text@.subrange(start as int, end as int) =~= if terminated && body.skip(
                start as int,
            ).len() > 0 && body.skip(start as int).last() == '\r' {
                body.skip(start as int).drop_last()
            } else {
                body.skip(start as int)
            });
        }
    }
    Some(line)
}

/// Whether `line` names a module-definition file.
pub fn names_definition(line: &str) -> (named: bool)
    ensures
        named == mentions_definition(line@),
{
    contains(chars_of(line).as_slice(), ".def")
}

} // verus!
