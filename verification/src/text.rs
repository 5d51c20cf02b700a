//! Text building: characters and decimal numbers appended to a string.

use vstd::prelude::*;

verus! {

/// `String::push` of the standard library appends one character to the
/// end of the string and leaves the rest as it was.
pub assume_specification[ String::push ](text: &mut String, c: char)
    ensures
        final(text)@ == old(text)@.push(c),
;

/// The decimal digit for a number below 10.
pub open spec fn digit(d: nat) -> char {
    if d == 0 {
        '0'
    } else if d == 1 {
        '1'
    } else if d == 2 {
        '2'
    } else if d == 3 {
        '3'
    } else if d == 4 {
        '4'
    } else if d == 5 {
        '5'
    } else if d == 6 {
        '6'
    } else if d == 7 {
        '7'
    } else if d == 8 {
        '8'
    } else {
        '9'
    }
}

/// `n` in decimal digits, without sign and without leading zeros.
pub open spec fn decimal(n: nat) -> Seq<char>
    decreases n,
{
    if n < 10 {
        seq![digit(n)]
    } else {
        decimal(n / 10).push(digit(n % 10))
    }
}

/// The decimal digit for a number below 10.
fn digit_of(d: u8) -> (c: char)
    requires
        d < 10,
    ensures
        c == digit(d as nat),
{
    if d == 0 {
        '0'
    } else if d == 1 {
        '1'
    } else if d == 2 {
        '2'
    } else if d == 3 {
        '3'
    } else if d == 4 {
        '4'
    } else if d == 5 {
        '5'
    } else if d == 6 {
        '6'
    } else if d == 7 {
        '7'
    } else if d == 8 {
        '8'
    } else {
        '9'
    }
}

/// Appends `n` in decimal digits.
pub fn push_decimal(out: &mut String, n: u128)
    ensures
        final(out)@ == old(out)@ + decimal(n as nat),
    decreases n,
{
    if n >= 10 {
        push_decimal(out, n / 10);
    }
    out.push(digit_of((n % 10) as u8));
}

/// The lines that `line` gives for each of `items`, one after the other.
pub open spec fn joined<T>(items: Seq<T>, line: spec_fn(T) -> Seq<char>) -> Seq<char>
    decreases items.len(),
{
    if items.len() == 0 {
        Seq::empty()
    } else {
        joined(items.drop_last(), line) + line(items.last())
    }
}

/// Looking one item further: the lines of a longer front of `items` are
/// the lines of the shorter front and then the line of the new item.
pub proof fn lemma_joined_step<T>(items: Seq<T>, line: spec_fn(T) -> Seq<char>, i: int)
    requires
        0 <= i < items.len(),
    ensures
        joined(items.subrange(0, i + 1), line) == joined(items.subrange(0, i), line) + line(
            items[i],
        ),
{
    assert(items.subrange(0, i + 1).drop_last() =~= items.subrange(0, i));
}

/// `n` in decimal digits.
pub fn decimal_string(n: u128) -> (text: String)
    ensures
        text@ == decimal(n as nat),
{
    let mut text = String::new();
    push_decimal(&mut text, n);
    text
}

/// The place of the first line feed in `text`; the length of `text` if it
/// holds none.
pub open spec fn first_line_feed(text: Seq<char>) -> int
    decreases text.len(),
{
    if text.len() == 0 {
        0
    } else if text.first() == '\n' {
        0
    } else {
        1 + first_line_feed(text.drop_first())
    }
}

/// A line without the carriage return at its end, if it has one there.
pub open spec fn without_carriage_return(line: Seq<char>) -> Seq<char> {
    if line.len() > 0 && line.last() == '\r' {
        line.drop_last()
    } else {
        line
    }
}

/// The lines of a text. A line ends at a line feed; a carriage return
/// directly before the line feed belongs to the line ending. What stands
/// behind the last line feed is a line too, as it stands, unless it is
/// empty.
pub open spec fn lines_of(text: Seq<char>) -> Seq<Seq<char>>
    decreases text.len(),
{
    let at = first_line_feed(text);
    if text.len() == 0 {
        Seq::empty()
    } else if 0 <= at < text.len() {
        seq![without_carriage_return(text.subrange(0, at))] + lines_of(
            text.subrange(at + 1, text.len() as int),
        )
    } else {
        seq![text]
    }
}

/// The first line feed lies within the text or at its end, and no line
/// feed stands before it.
pub proof fn lemma_first_line_feed(text: Seq<char>)
    ensures
        0 <= first_line_feed(text) <= text.len(),
        first_line_feed(text) < text.len() ==> text[first_line_feed(text)] == '\n',
        forall|i: int| 0 <= i < first_line_feed(text) ==> text[i] != '\n',
    decreases text.len(),
{
    if text.len() > 0 && text.first() != '\n' {
        let rest = text.drop_first();
        lemma_first_line_feed(rest);
        assert forall|i: int| 0 <= i < first_line_feed(text) implies text[i] != '\n' by {
            if i > 0 {
                assert(rest[i - 1] == text[i]);
            }
        }
    }
}

/// No line of a text holds a line feed.
pub proof fn lemma_lines_hold_no_line_feed(text: Seq<char>)
    ensures
        forall|i: int, j: int|
            0 <= i < lines_of(text).len() && 0 <= j < lines_of(text)[i].len() ==> lines_of(
                text,
            )[i][j] != '\n',
    decreases text.len(),
{
    let at = first_line_feed(text);
    lemma_first_line_feed(text);
    if text.len() > 0 && at < text.len() {
        let rest = text.subrange(at + 1, text.len() as int);
        let first = without_carriage_return(text.subrange(0, at));
        lemma_lines_hold_no_line_feed(rest);
        assert forall|i: int, j: int|
            0 <= i < lines_of(text).len() && 0 <= j < lines_of(text)[i].len() implies lines_of(
            text,
        )[i][j] != '\n' by {
            if i == 0 {
                assert(lines_of(text)[0] == first);
                assert(first[j] == text[j]);
            } else {
                assert(lines_of(text)[i] == lines_of(rest)[i - 1]);
            }
        }
    }
}

/// Behind a front without line feed the first line feed is that of the
/// rest.
proof fn lemma_line_feed_behind(front: Seq<char>, rest: Seq<char>)
    requires
        first_line_feed(front) == front.len(),
    ensures
        first_line_feed(front + rest) == front.len() + first_line_feed(rest),
    decreases front.len(),
{
    if front.len() > 0 {
        assert((front + rest).drop_first() =~= front.drop_first() + rest);
        lemma_line_feed_behind(front.drop_first(), rest);
    }
}

/// The lines of a text, each as a string of its own.
pub fn source_lines(text: &str) -> (lines: Vec<String>)
    ensures
        lines@.len() == lines_of(text@).len(),
        forall|i: int| 0 <= i < lines@.len() ==> lines@[i]@ == lines_of(text@)[i],
{
    let ghost all = text@;
    let mut lines: Vec<String> = Vec::new();
    let mut current = String::new();
    let mut pending: bool = false;
    proof {
        assert(Seq::<char>::empty() + all.subrange(0, all.len() as int) =~= all);
    }
    for c in it: text.chars()
        invariant
            it.seq() == all,
            !pending ==> (current@.len() == 0 || current@.last() != '\r'),
            first_line_feed(line_so_far(current@, pending)) == line_so_far(current@, pending).len(),
            lines_of(all) == lines@.map_values(|line: String| line@) + lines_of(
                line_so_far(current@, pending) + all.subrange(it.index(), all.len() as int),
            ),
    {
        let ghost at = it.index();
        let ghost so_far = line_so_far(current@, pending);
        let ghost rest = all.subrange(at, all.len() as int);
        proof {
            assert(rest.drop_first() =~= all.subrange(at + 1, all.len() as int));
            lemma_line_feed_behind(so_far, rest);
            lemma_line_feed_behind(so_far, seq![c]);
            assert(seq![c].drop_first() =~= Seq::<char>::empty());
        }
        if c == '\n' {
            proof {
                let whole = so_far + rest;
                assert(whole.subrange(0, so_far.len() as int) =~= so_far);
                assert(whole.subrange(so_far.len() as int + 1, whole.len() as int)
                    =~= rest.drop_first());
                assert(without_carriage_return(so_far) =~= current@);
            }
            lines.push(current);
            current = String::new();
            pending = false;
        } else {
            if pending {
                current.push('\r');
            }
            if c == '\r' {
                pending = true;
            } else {
                current.push(c);
                pending = false;
            }
            proof {
                assert(so_far.push(c) =~= so_far + seq![c]);
                assert(first_line_feed(Seq::<char>::empty()) == 0);
                assert(so_far.push(c) + rest.drop_first() =~= so_far + rest);
            }
        }
    }
    if pending {
        current.push('\r');
    }
    if !current.as_str().is_empty() {
        lines.push(current);
    }
    lines
}

/// The line that is being read: what was kept of it, and the carriage
/// return that waits to see whether a line feed follows it.
spec fn line_so_far(kept: Seq<char>, pending: bool) -> Seq<char> {
    if pending {
        kept.push('\r')
    } else {
        kept
    }
}

} // verus!
