//! Tracking the cursor's row through the characters written to a
//! terminal: a line feed moves it one row down, the control sequence
//! `ESC [ n A` moves it `n` rows up, and every other character or
//! sequence leaves its row as it is.

use vstd::prelude::*;
use crate::model::frame_bytes;
use crate::term::{cursor_up_text, ESCAPE};
use crate::text::{decimal, digit, repeated};

verus! {

/// Where a reader of terminal output stands: in plain text, behind an
/// escape character, or inside a control sequence whose parameter reads
/// `value` so far.
pub enum Reading {
    Plain,
    Escape,
    Control { value: nat },
}

/// The value of a decimal digit; below zero for any other character.
pub open spec fn digit_value(c: char) -> int {
    if '0' <= c <= '9' {
        c as int - '0' as int
    } else {
        -1
    }
}

/// The state after reading `c`, and the rows the cursor moves down by it.
pub open spec fn read_char(state: Reading, c: char) -> (Reading, int) {
    match state {
        Reading::Plain => if c == ESCAPE {
            (Reading::Escape, 0)
        } else if c == '\n' {
            (Reading::Plain, 1)
        } else {
            (Reading::Plain, 0)
        },
        Reading::Escape => if c == '[' {
            (Reading::Control { value: 0 }, 0)
        } else {
            (Reading::Plain, 0)
        },
        Reading::Control { value } => if digit_value(c) >= 0 {
            (Reading::Control { value: (value * 10 + digit_value(c)) as nat }, 0)
        } else if c == ';' {
            (Reading::Control { value: 0 }, 0)
        } else if c == 'A' {
            (Reading::Plain, -(value as int))
        } else {
            (Reading::Plain, 0)
        },
    }
}

/// The state after reading `text` from `state`, and the rows the cursor
/// has moved down in all.
pub open spec fn read_from(state: Reading, text: Seq<char>) -> (Reading, int)
    decreases text.len(),
{
    if text.len() == 0 {
        (state, 0)
    } else {
        let (before, rows) = read_from(state, text.drop_last());
        let (after, step) = read_char(before, text.last());
        (after, rows + step)
    }
}

/// The rows the cursor has moved down when `text` was written.
pub open spec fn rows_moved(text: Seq<char>) -> int {
    read_from(Reading::Plain, text).1
}

/// `text` ends outside any control sequence.
pub open spec fn is_closed(text: Seq<char>) -> bool {
    read_from(Reading::Plain, text).0 is Plain
}

/// Reading two texts in a row is reading the second from where the first
/// ended.
pub proof fn lemma_read_concat(state: Reading, a: Seq<char>, b: Seq<char>)
    ensures
        read_from(state, a + b).0 == read_from(read_from(state, a).0, b).0,
        read_from(state, a + b).1 == read_from(state, a).1 + read_from(
            read_from(state, a).0,
            b,
        ).1,
    decreases b.len(),
{
    if b.len() == 0 {
        assert(a + b =~= a);
    } else {
        assert((a + b).drop_last() =~= a + b.drop_last());
        assert((a + b).last() == b.last());
        lemma_read_concat(state, a, b.drop_last());
    }
}

/// Reading a single character.
pub proof fn lemma_read_one(state: Reading, c: char)
    ensures
        read_from(state, seq![c]) == read_char(state, c),
{
    let s = seq![c];
    assert(s.drop_last() =~= Seq::<char>::empty());
    assert(s.last() == c);
    reveal_with_fuel(read_from, 2);
}

/// `k` line feeds move the cursor `k` rows down.
pub proof fn lemma_read_line_feeds(k: nat)
    ensures
        read_from(Reading::Plain, repeated("\n"@, k)) == (Reading::Plain, k as int),
    decreases k,
{
    reveal_strlit("\n");
    if k > 0 {
        lemma_read_line_feeds((k - 1) as nat);
        lemma_read_concat(Reading::Plain, repeated("\n"@, (k - 1) as nat), "\n"@);
        assert("\n"@ =~= seq!['\n']);
        lemma_read_one(Reading::Plain, '\n');
    }
}

/// One digit read as a parameter.
proof fn lemma_read_digit(value: nat, d: nat)
    requires
        d < 10,
    ensures
        read_from(Reading::Control { value }, digit(d)) == (
            Reading::Control { value: value * 10 + d },
            0int,
        ),
{
    reveal_strlit("0");
    reveal_strlit("1");
    reveal_strlit("2");
    reveal_strlit("3");
    reveal_strlit("4");
    reveal_strlit("5");
    reveal_strlit("6");
    reveal_strlit("7");
    reveal_strlit("8");
    reveal_strlit("9");
    let c = digit(d)[0];
    assert(digit(d) =~= seq![c]);
    lemma_read_one(Reading::Control { value }, c);
}

/// A numeral read as a parameter gives its number.
pub proof fn lemma_read_decimal(n: nat)
    ensures
        read_from(Reading::Control { value: 0 }, decimal(n)) == (
            Reading::Control { value: n },
            0int,
        ),
    decreases n,
{
    if n < 10 {
        lemma_read_digit(0, n);
    } else {
        lemma_read_decimal(n / 10);
        lemma_read_concat(Reading::Control { value: 0 }, decimal(n / 10), digit(n % 10));
        lemma_read_digit(n / 10, n % 10);
    }
}

/// The sequence that moves the cursor up by `rows` moves it up by `rows`.
pub proof fn lemma_read_cursor_up(rows: nat)
    ensures
        read_from(Reading::Plain, cursor_up_text(rows)) == (Reading::Plain, -(rows as int)),
{
    reveal_strlit("\x1b[");
    reveal_strlit("A");
    let open = "\x1b["@;
    assert(open =~= seq![ESCAPE] + seq!['[']);
    lemma_read_one(Reading::Plain, ESCAPE);
    lemma_read_one(Reading::Escape, '[');
    lemma_read_concat(Reading::Plain, seq![ESCAPE], seq!['[']);
    assert(read_from(Reading::Plain, open) == (Reading::Control { value: 0 }, 0int));
    lemma_read_decimal(rows);
    lemma_read_concat(Reading::Plain, open, decimal(rows));
    assert("A"@ =~= seq!['A']);
    lemma_read_one(Reading::Control { value: rows }, 'A');
    lemma_read_concat(Reading::Plain, open + decimal(rows), "A"@);
}

/// Writing a frame to a terminal leaves the cursor on the row it was on,
/// whatever the bar's line offset: the bytes around the frame's text move
/// it down to the bar's line and up again by as much. So the rows moved
/// in all are those that the text itself moves, and a text that moves
/// none leaves the rows of every other bar alone.
pub proof fn lemma_frame_returns_cursor(position: nat, text: Seq<char>)
    requires
        is_closed(text),
    ensures
        is_closed(frame_bytes(false, position, text)),
        rows_moved(frame_bytes(false, position, text)) == rows_moved(text),
{
    if position == 0 {
        reveal_strlit("\r");
        assert("\r"@ =~= seq!['\r']);
        lemma_read_one(Reading::Plain, '\r');
        lemma_read_concat(Reading::Plain, "\r"@, text);
    } else {
        let down = repeated("\n"@, position);
        let up = cursor_up_text(position);
        lemma_read_line_feeds(position);
        lemma_read_concat(Reading::Plain, down, text);
        lemma_read_cursor_up(position);
        lemma_read_concat(Reading::Plain, down + text, up);
    }
}

} // verus!
