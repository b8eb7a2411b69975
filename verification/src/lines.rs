//! Splitting text into lines and counting the lines of interest.
//!
//! A line ends at a line feed. The line feed is not part of the line, and
//! neither is a carriage return that stands directly before it. Text after the
//! last line feed forms one more line, taken as it is; an empty rest forms none.

use crate::text::char_count_bound;
use vstd::prelude::*;

verus! {

/// Position of the first line feed in `text`, or `text.len()` when it has none.
pub open spec fn first_line_feed(text: Seq<char>) -> int
    decreases text.len(),
{
    if text.len() == 0 {
        0
    } else if text[0] == '\n' {
        0
    } else {
        1 + first_line_feed(text.drop_first())
    }
}

/// A terminated line without the carriage return that preceded its line feed.
pub open spec fn strip_carriage_return(line: Seq<char>) -> Seq<char> {
    if line.len() > 0 && line.last() == '\r' {
        line.drop_last()
    } else {
        line
    }
}

/// The lines of `text`, in order.
pub open spec fn lines_of(text: Seq<char>) -> Seq<Seq<char>>
    decreases text.len(),
{
    let k = first_line_feed(text);
    if text.len() == 0 {
        Seq::empty()
    } else if 0 <= k < text.len() {
        seq![strip_carriage_return(text.take(k))] + lines_of(text.skip(k + 1))
    } else {
        seq![text]
    }
}

/// A line that holds at least one character.
pub open spec fn is_nonempty_line(line: Seq<char>) -> bool {
    line.len() > 0
}

/// A line whose first character is `marker`.
pub open spec fn line_starts_with(line: Seq<char>, marker: char) -> bool {
    line.len() > 0 && line[0] == marker
}

/// How many lines of `text` are not empty.
pub open spec fn nonempty_line_count(text: Seq<char>) -> nat {
    lines_of(text).filter(|line: Seq<char>| is_nonempty_line(line)).len()
}

/// How many lines of `text` begin with `marker`.
pub open spec fn marked_line_count(text: Seq<char>, marker: char) -> nat {
    lines_of(text).filter(|line: Seq<char>| line_starts_with(line, marker)).len()
}

/// `first_line_feed` finds the least position that holds a line feed.
pub proof fn lemma_first_line_feed(text: Seq<char>)
    ensures
        0 <= first_line_feed(text) <= text.len(),
        forall|j: int| 0 <= j < first_line_feed(text) ==> text[j] != '\n',
        first_line_feed(text) < text.len() ==> text[first_line_feed(text)] == '\n',
    decreases text.len(),
{
    if text.len() > 0 && text[0] != '\n' {
        let rest = text.drop_first();
        lemma_first_line_feed(rest);
        assert forall|j: int| 0 <= j < first_line_feed(text) implies text[j] != '\n' by {
            if j > 0 {
                assert(text[j] == rest[j - 1]);
            }
        }
        assert(first_line_feed(rest) < rest.len() ==> rest[first_line_feed(rest)] == text[first_line_feed(text)]);
    }
}

/// A position is the first line feed when it holds one and nothing before it does.
pub proof fn lemma_first_line_feed_at(text: Seq<char>, k: int)
    requires
        0 <= k <= text.len(),
        forall|j: int| 0 <= j < k ==> text[j] != '\n',
        k < text.len() ==> text[k] == '\n',
    ensures
        first_line_feed(text) == k,
{
    lemma_first_line_feed(text);
    let f = first_line_feed(text);
    if f < k {
        assert(text[f] == '\n');
    } else if k < f {
        assert(text[k] != '\n');
    }
}

/// The lines of a text whose first line feed stands at `k`: the line before
/// it, then the lines of what follows it.
pub proof fn lemma_lines_of_terminated(text: Seq<char>, k: int)
    requires
        0 <= k < text.len(),
        text[k] == '\n',
        forall|j: int| 0 <= j < k ==> text[j] != '\n',
    ensures
        lines_of(text) == seq![strip_carriage_return(text.take(k))] + lines_of(text.skip(k + 1)),
{
    lemma_first_line_feed_at(text, k);
}

/// A text without a line feed is empty or a single line.
pub proof fn lemma_lines_of_unterminated(text: Seq<char>)
    requires
        forall|j: int| 0 <= j < text.len() ==> text[j] != '\n',
    ensures
        lines_of(text) == if text.len() == 0 {
            Seq::<Seq<char>>::empty()
        } else {
            seq![text]
        },
{
    lemma_first_line_feed_at(text, text.len() as int);
}

/// Taking the first line off a text takes it off each count.
pub proof fn lemma_counts_terminated(text: Seq<char>, k: int, marker: char)
    requires
        0 <= k < text.len(),
        text[k] == '\n',
        forall|j: int| 0 <= j < k ==> text[j] != '\n',
    ensures
        nonempty_line_count(text) == nonempty_line_count(text.skip(k + 1)) + if is_nonempty_line(
            strip_carriage_return(text.take(k)),
        ) {
            1nat
        } else {
            0nat
        },
        marked_line_count(text, marker) == marked_line_count(text.skip(k + 1), marker)
            + if line_starts_with(strip_carriage_return(text.take(k)), marker) {
            1nat
        } else {
            0nat
        },
{
    lemma_lines_of_terminated(text, k);
    let line = strip_carriage_return(text.take(k));
    let tail = lines_of(text.skip(k + 1));
    tail.lemma_filter_prepend(line, |line: Seq<char>| is_nonempty_line(line));
    tail.lemma_filter_prepend(line, |line: Seq<char>| line_starts_with(line, marker));
}

/// The counts of a text that holds no line feed.
pub proof fn lemma_counts_unterminated(text: Seq<char>, marker: char)
    requires
        forall|j: int| 0 <= j < text.len() ==> text[j] != '\n',
    ensures
        nonempty_line_count(text) == if text.len() > 0 {
            1nat
        } else {
            0nat
        },
        marked_line_count(text, marker) == if text.len() > 0 && text[0] == marker {
            1nat
        } else {
            0nat
        },
{
    lemma_lines_of_unterminated(text);
    let none = Seq::<Seq<char>>::empty();
    let keep_nonempty = |line: Seq<char>| is_nonempty_line(line);
    let keep_marked = |line: Seq<char>| line_starts_with(line, marker);
    none.lemma_filter_len(keep_nonempty);
    none.lemma_filter_len(keep_marked);
    if text.len() > 0 {
        assert(lines_of(text) == seq![text] + none);
        none.lemma_filter_prepend(text, keep_nonempty);
        none.lemma_filter_prepend(text, keep_marked);
    }
}

/// Length of the line that runs from `start` up to the line feed at `end`,
/// without a carriage return that stands directly before that line feed.
pub open spec fn closed_line_len(whole: Seq<char>, start: int, end: int) -> int {
    if end > start && whole[end - 1] == '\r' {
        end - start - 1
    } else {
        end - start
    }
}

/// Closing the line that runs from `start` to the line feed at `end` adds that
/// line to the counts of what follows it.
pub proof fn lemma_line_closed(whole: Seq<char>, start: int, end: int, marker: char)
    requires
        0 <= start <= end < whole.len(),
        whole[end] == '\n',
        forall|j: int| start <= j < end ==> whole[j] != '\n',
    ensures
        nonempty_line_count(whole.skip(start)) == nonempty_line_count(whole.skip(end + 1))
            + if closed_line_len(whole, start, end) > 0 {
            1nat
        } else {
            0nat
        },
        marked_line_count(whole.skip(start), marker) == marked_line_count(
            whole.skip(end + 1),
            marker,
        ) + if closed_line_len(whole, start, end) > 0 && whole[start] == marker {
            1nat
        } else {
            0nat
        },
{
    let rest = whole.skip(start);
    let k = end - start;
    assert(rest[k] == whole[end]);
    assert forall|j: int| 0 <= j < k implies rest[j] != '\n' by {
        assert(rest[j] == whole[start + j]);
    }
    lemma_counts_terminated(rest, k, marker);
    assert(rest.skip(k + 1) == whole.skip(end + 1));
    let raw = rest.take(k);
    let line = strip_carriage_return(raw);
    assert(raw.len() == k);
    if k > 0 {
        assert(raw.last() == whole[end - 1]);
        assert(raw[0] == whole[start]);
    }
    assert(line.len() == closed_line_len(whole, start, end));
    if line.len() > 0 {
        assert(line[0] == raw[0]);
    }
}

/// The counts of a last line that runs from `start` to the end of the text.
pub proof fn lemma_line_open(whole: Seq<char>, start: int, marker: char)
    requires
        0 <= start <= whole.len(),
        forall|j: int| start <= j < whole.len() ==> whole[j] != '\n',
    ensures
        nonempty_line_count(whole.skip(start)) == if start < whole.len() {
            1nat
        } else {
            0nat
        },
        marked_line_count(whole.skip(start), marker) == if start < whole.len() && whole[start]
            == marker {
            1nat
        } else {
            0nat
        },
{
    let rest = whole.skip(start);
    assert forall|j: int| 0 <= j < rest.len() implies rest[j] != '\n' by {
        assert(rest[j] == whole[start + j]);
    }
    lemma_counts_unterminated(rest, marker);
    if rest.len() > 0 {
        assert(rest[0] == whole[start]);
    }
}

/// Counts of the lines of one text, taken in a single pass.
#[derive(Clone, Copy, Debug, PartialEq, Eq)]
pub struct LineTally {
    /// Lines that are not empty.
    pub nonempty: usize,
    /// Lines that begin with `>`.
    pub incoming: usize,
    /// Lines that begin with `<`.
    pub outgoing: usize,
}

/// Reads `text` once and counts its non-empty lines and those that begin with `>` or `<`.
pub fn tally_lines(text: &str) -> (tally: LineTally)
    ensures
        tally.nonempty == nonempty_line_count(text@),
        tally.incoming == marked_line_count(text@, '>'),
        tally.outgoing == marked_line_count(text@, '<'),
{
    let bound = char_count_bound(text);
    let mut nonempty: usize = 0;
    let mut incoming: usize = 0;
    let mut outgoing: usize = 0;
    // The line being read: its length so far, its first character, and
    // whether its latest character is a carriage return.
    let mut line_len: usize = 0;
    let mut first: char = ' ';
    let mut ends_in_cr: bool = false;
    let ghost mut start: int = 0;
    let ghost whole = text@;
    proof {
        assert(whole.skip(0) == whole);
    }
    for c in it: text.chars()
        invariant
            it.seq() == whole,
            whole.len() <= bound,
            0 <= start <= it.index(),
            line_len == it.index() - start,
            forall|j: int| start <= j < it.index() ==> whole[j] != '\n',
            line_len > 0 ==> first == whole[start],
            line_len > 0 ==> ends_in_cr == (whole[it.index() - 1] == '\r'),
            nonempty <= start,
            incoming <= start,
            outgoing <= start,
            nonempty + nonempty_line_count(whole.skip(start)) == nonempty_line_count(whole),
            incoming + marked_line_count(whole.skip(start), '>') == marked_line_count(whole, '>'),
            outgoing + marked_line_count(whole.skip(start), '<') == marked_line_count(whole, '<'),
    {
        let ghost i = it.index() as int;
        if c == '\n' {
            proof {
                lemma_line_closed(whole, start, i, '>');
                lemma_line_closed(whole, start, i, '<');
            }
            let content_len = if ends_in_cr && line_len > 0 {
                line_len - 1
            } else {
                line_len
            };
            if content_len > 0 {
                nonempty = nonempty + 1;
                if first == '>' {
                    incoming = incoming + 1;
                }
                if first == '<' {
                    outgoing = outgoing + 1;
                }
            }
            line_len = 0;
            ends_in_cr = false;
            proof {
                start = i + 1;
            }
        } else {
            if line_len == 0 {
                first = c;
            }
            ends_in_cr = c == '\r';
            line_len = line_len + 1;
        }
    }
    proof {
        lemma_line_open(whole, start, '>');
        lemma_line_open(whole, start, '<');
    }
    if line_len > 0 {
        nonempty = nonempty + 1;
        if first == '>' {
            incoming = incoming + 1;
        }
        if first == '<' {
            outgoing = outgoing + 1;
        }
    }
    LineTally { nonempty, incoming, outgoing }
}

} // verus!
