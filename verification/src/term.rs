//! Terminal control: colour escape sequences and cursor movement.

use vstd::prelude::*;
use vstd::string::*;
use crate::text::{decimal, push_decimal};

verus! {

/// The escape character that opens every control sequence.
pub const ESCAPE: char = '\x1b';

/// Sequence that ends a coloured run.
pub const COLOUR_RESET: &'static str = "\x1b[0m";

/// Whether two texts hold the same characters.
pub fn same_text(a: &str, b: &str) -> (same: bool)
    ensures
        same == (a@ == b@),
{
    String::from_str(a) == String::from_str(b)
}

/// Value of a hexadecimal digit of either case; below zero for any other
/// character.
pub open spec fn hex_value(c: char) -> int {
    if '0' <= c <= '9' {
        c as int - '0' as int
    } else if 'a' <= c <= 'f' {
        c as int - 'a' as int + 10
    } else if 'A' <= c <= 'F' {
        c as int - 'A' as int + 10
    } else {
        -1
    }
}

/// A hash sign and six hexadecimal digits.
pub open spec fn is_hex_colour(name: Seq<char>) -> bool {
    &&& name.len() == 7
    &&& name[0] == '#'
    &&& hex_value(name[1]) >= 0
    &&& hex_value(name[2]) >= 0
    &&& hex_value(name[3]) >= 0
    &&& hex_value(name[4]) >= 0
    &&& hex_value(name[5]) >= 0
    &&& hex_value(name[6]) >= 0
}

/// The byte written by the two hexadecimal digits at `i` and `i + 1`.
pub open spec fn hex_pair(name: Seq<char>, i: int) -> nat {
    (16 * hex_value(name[i]) + hex_value(name[i + 1])) as nat
}

/// Foreground code of a named colour; below zero for an unknown name.
pub open spec fn named_code(name: Seq<char>) -> int {
    if name == "black"@ {
        30
    } else if name == "red"@ {
        31
    } else if name == "green"@ {
        32
    } else if name == "yellow"@ {
        33
    } else if name == "blue"@ {
        34
    } else if name == "magenta"@ {
        35
    } else if name == "cyan"@ {
        36
    } else if name == "white"@ {
        37
    } else {
        -1
    }
}

/// Whether `name` is an escape sequence already.
pub open spec fn is_resolved(name: Seq<char>) -> bool {
    name.len() > 0 && name[0] == ESCAPE
}

/// The escape sequence that switches the foreground to the colour that
/// `name` stands for: a sequence is kept as it is, `#rrggbb` selects a
/// 24-bit colour, one of the eight basic names selects its code, and any
/// other name selects nothing.
pub open spec fn colour_code(name: Seq<char>) -> Seq<char> {
    if is_resolved(name) {
        name
    } else if is_hex_colour(name) {
        "\x1b[38;2;"@ + decimal(hex_pair(name, 1)) + ";"@ + decimal(hex_pair(name, 3)) + ";"@
            + decimal(hex_pair(name, 5)) + "m"@
    } else if named_code(name) >= 0 {
        "\x1b["@ + decimal(named_code(name) as nat) + "m"@
    } else {
        Seq::empty()
    }
}

/// The value of a hexadecimal digit, if `c` is one.
fn hex_digit(c: char) -> (v: Option<u8>)
    ensures
        match v {
            Some(d) => d == hex_value(c) && hex_value(c) >= 0,
            None => hex_value(c) < 0,
        },
{
    if '0' <= c && c <= '9' {
        Some((c as u32 - '0' as u32) as u8)
    } else if 'a' <= c && c <= 'f' {
        Some((c as u32 - 'a' as u32 + 10) as u8)
    } else if 'A' <= c && c <= 'F' {
        Some((c as u32 - 'A' as u32 + 10) as u8)
    } else {
        None
    }
}

/// Reads `#rrggbb`.
fn parse_hex(name: &str) -> (rgb: Option<(u8, u8, u8)>)
    ensures
        match rgb {
            Some(v) => is_hex_colour(name@) && v.0 == hex_pair(name@, 1) && v.1 == hex_pair(
                name@,
                3,
            ) && v.2 == hex_pair(name@, 5),
            None => !is_hex_colour(name@),
        },
{
    if name.unicode_len() != 7 {
        return None;
    }
    if name.get_char(0) != '#' {
        return None;
    }
    match (
        hex_digit(name.get_char(1)),
        hex_digit(name.get_char(2)),
        hex_digit(name.get_char(3)),
        hex_digit(name.get_char(4)),
        hex_digit(name.get_char(5)),
        hex_digit(name.get_char(6)),
    ) {
        (Some(r1), Some(r0), Some(g1), Some(g0), Some(b1), Some(b0)) => Some(
            (16 * r1 + r0, 16 * g1 + g0, 16 * b1 + b0),
        ),
        _ => None,
    }
}

/// The foreground code of a named colour, if `name` is one.
fn named(name: &str) -> (code: Option<u8>)
    ensures
        match code {
            Some(c) => c == named_code(name@),
            None => named_code(name@) < 0,
        },
{
    if same_text(name, "black") {
        Some(30)
    } else if same_text(name, "red") {
        Some(31)
    } else if same_text(name, "green") {
        Some(32)
    } else if same_text(name, "yellow") {
        Some(33)
    } else if same_text(name, "blue") {
        Some(34)
    } else if same_text(name, "magenta") {
        Some(35)
    } else if same_text(name, "cyan") {
        Some(36)
    } else if same_text(name, "white") {
        Some(37)
    } else {
        None
    }
}

/// Resolves a colour name to the escape sequence that selects it.
pub fn colour(name: &str) -> (code: String)
    ensures
        code@ == colour_code(name@),
{
    if name.unicode_len() > 0 && name.get_char(0) == ESCAPE {
        return String::from_str(name);
    }
    let mut code = String::new();
    match parse_hex(name) {
        Some((r, g, b)) => {
            code.append("\x1b[38;2;");
            push_decimal(&mut code, r as u128);
            code.append(";");
            push_decimal(&mut code, g as u128);
            code.append(";");
            push_decimal(&mut code, b as u128);
            code.append("m");
        },
        None => {
            match named(name) {
                Some(c) => {
                    code.append("\x1b[");
                    push_decimal(&mut code, c as u128);
                    code.append("m");
                },
                None => {},
            }
        },
    }
    code
}

/// The sequence that moves the cursor up by `rows` lines.
pub open spec fn cursor_up_text(rows: nat) -> Seq<char> {
    "\x1b["@ + decimal(rows) + "A"@
}

/// Appends `cursor_up_text(rows)` to `buf`.
pub fn push_cursor_up(buf: &mut String, rows: u16)
    ensures
        final(buf)@ == old(buf)@ + cursor_up_text(rows as nat),
{
    buf.append("\x1b[");
    push_decimal(buf, rows as u128);
    buf.append("A");
}

} // verus!
