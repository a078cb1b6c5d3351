//! The lines of a text: where each one ends, and how a text is read line by
//! line.

use crate::text::{is_substring, split_at_newline, strip_carriage_return};
use vstd::prelude::*;

verus! {

/// The length of the first line of `text`, its line ending not counted: the
/// position of the first newline, or the length of `text` where it holds none.
pub open spec fn line_break(text: Seq<char>) -> nat
    decreases text.len(),
{
    if text.len() == 0 || text[0] == '\n' {
        0
    } else {
        1 + line_break(text.drop_first())
    }
}

/// `line` without the carriage return that it ends in, if it ends in one.
pub open spec fn without_carriage_return(line: Seq<char>) -> Seq<char> {
    if line.len() > 0 && line.last() == '\r' {
        line.drop_last()
    } else {
        line
    }
}

/// The first line of a text that is not empty. A line ends at a newline; a
/// carriage return directly before that newline belongs to the line ending. The
/// last line needs no newline, and is then taken as it stands.
pub open spec fn first_line(text: Seq<char>) -> Seq<char> {
    let end = line_break(text) as int;
    if end < text.len() {
        without_carriage_return(text.take(end))
    } else {
        text
    }
}

/// What follows the first line of `text` and its line ending.
pub open spec fn after_first_line(text: Seq<char>) -> Seq<char> {
    let end = line_break(text) as int;
    if end < text.len() {
        text.skip(end + 1)
    } else {
        Seq::empty()
    }
}

/// The lines of `text`, in order and without their line endings. The empty
/// text has no line, and a newline at the very end opens no further line.
pub open spec fn lines_of(text: Seq<char>) -> Seq<Seq<char>>
    decreases text.len(),
{
    if text.len() == 0 {
        Seq::empty()
    } else {
        seq![first_line(text)] + lines_of(after_first_line(text))
    }
}

/// The lines one after the other, a newline behind each.
pub open spec fn joined(lines: Seq<Seq<char>>) -> Seq<char>
    decreases lines.len(),
{
    if lines.len() == 0 {
        Seq::empty()
    } else {
        lines.first() + seq!['\n'] + joined(lines.drop_first())
    }
}

/// `text` with a newline behind its last line, where that line has none.
pub open spec fn terminated(text: Seq<char>) -> Seq<char> {
    if text.len() > 0 && text.last() != '\n' {
        text.push('\n')
    } else {
        text
    }
}

/// `line_break` is the least position of a newline, or the length of the text.
pub proof fn lemma_line_break(text: Seq<char>)
    ensures
        line_break(text) <= text.len(),
        forall|i: int| 0 <= i < line_break(text) ==> text[i] != '\n',
        line_break(text) < text.len() ==> text[line_break(text) as int] == '\n',
    decreases text.len(),
{
    if text.len() > 0 && text[0] != '\n' {
        let rest = text.drop_first();
        lemma_line_break(rest);
        assert forall|i: int| 0 <= i < line_break(text) implies text[i] != '\n' by {
            if i > 0 {
                assert(text[i] == rest[i - 1]);
            }
        }
    }
}

/// A position that holds a newline, with none before it, is the line break.
proof fn lemma_line_break_at(text: Seq<char>, end: int)
    requires
        0 <= end <= text.len(),
        forall|i: int| 0 <= i < end ==> text[i] != '\n',
        end < text.len() ==> text[end] == '\n',
    ensures
        line_break(text) == end,
{
    lemma_line_break(text);
    let found = line_break(text) as int;
    if found < end {
        assert(text[found] != '\n');
    } else if end < found {
        assert(text[end] == '\n');
    }
}

/// Every line of a text is a part of the text, and holds no newline.
pub proof fn lemma_lines_are_parts_of_text(text: Seq<char>)
    ensures
        forall|i: int|
            0 <= i < lines_of(text).len() ==> is_substring(#[trigger] lines_of(text)[i], text)
                && !lines_of(text)[i].contains('\n'),
    decreases text.len(),
{
    if text.len() > 0 {
        let end = line_break(text) as int;
        let first = first_line(text);
        let rest = after_first_line(text);
        lemma_line_break(text);
        lemma_lines_are_parts_of_text(rest);
        assert forall|i: int| 0 <= i < lines_of(text).len() implies is_substring(
            #[trigger] lines_of(text)[i],
            text,
        ) && !lines_of(text)[i].contains('\n') by {
            let line = lines_of(text)[i];
            if i == 0 {
                assert(text.subrange(0int, 0int + first.len()) == first);
            } else {
                assert(line == lines_of(rest)[i - 1]);
                let found = choose|k: int|
                    0 <= k && k + line.len() <= rest.len() && #[trigger] rest.subrange(
                        k,
                        k + line.len(),
                    ) == line;
                let shifted = found + end + 1;
                assert(text.subrange(shifted, shifted + line.len()) == line);
            }
        }
    }
}

/// The lines of a text without carriage returns are the text cut at its
/// newlines and nothing else: put back one after the other, a newline behind
/// each, they give the text again, up to the newline that its last line may
/// lack.
pub proof fn lemma_lines_rebuild_text(text: Seq<char>)
    requires
        !text.contains('\r'),
    ensures
        joined(lines_of(text)) == terminated(text),
    decreases text.len(),
{
    if text.len() > 0 {
        let end = line_break(text) as int;
        let rest = after_first_line(text);
        let lines = lines_of(text);
        lemma_line_break(text);
        assert(lines.first() == first_line(text));
        assert(lines.drop_first() == lines_of(rest));
        if end < text.len() {
            let head = text.take(end);
            assert(first_line(text) == head) by {
                if head.len() > 0 {
                    assert(text.contains(text[end - 1]));
                }
            }
            assert(!rest.contains('\r')) by {
                assert forall|i: int| 0 <= i < rest.len() implies rest[i] != '\r' by {
                    assert(text.contains(text[end + 1 + i]));
                }
            }
            lemma_lines_rebuild_text(rest);
            assert(text == head + seq!['\n'] + rest);
            assert(terminated(text) == head + seq!['\n'] + terminated(rest)) by {
                if rest.len() > 0 {
                    assert(text.last() == rest.last());
                }
            }
        } else {
            assert(joined(lines_of(rest)) == Seq::<char>::empty());
            assert(text + seq!['\n'] + Seq::<char>::empty() == text.push('\n'));
        }
    }
}

/// Splits the first line off a text that is not empty: the line without its
/// line ending, and what follows that ending.
pub(crate) fn take_line<'a>(text: &'a str) -> (parts: (&'a str, &'a str))
    requires
        text@.len() > 0,
    ensures
        parts.0@ == first_line(text@),
        parts.1@ == after_first_line(text@),
{
    match split_at_newline(text) {
        Some((head, tail)) => {
            proof {
                let end = head@.len() as int;
                assert forall|i: int| 0 <= i < end implies text@[i] != '\n' by {
                    assert(head@.contains(head@[i]));
                }
                lemma_line_break_at(text@, end);
                assert(text@.take(end) == head@);
                assert(text@.skip(end + 1) == tail@);
            }
            match strip_carriage_return(head) {
                Some(line) => {
                    assert(head@.drop_last() == line@);
                    (line, tail)
                },
                None => (head, tail),
            }
        },
        None => {
            proof {
                reveal_strlit("");
                assert forall|i: int| 0 <= i < text@.len() implies text@[i] != '\n' by {
                    assert(text@.contains(text@[i]));
                }
                lemma_line_break_at(text@, text@.len() as int);
            }
            (text, "")
        },
    }
}

} // verus!
