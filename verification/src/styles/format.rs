//! Functions for formatting values.
//!
//! Quantities that are not whole numbers are held as exact fractions
//! `num / den`, and rounded to the decimal places shown, ties to even.

use vstd::prelude::*;
use vstd::string::*;
use crate::text::{decimal, lemma_decimal_digits, push_decimal};

verus! {

/// Nanoseconds in a second: the unit of every time span in this crate.
pub const NANOS_PER_SEC: u64 = 1_000_000_000;

/// Returns floor division and modulus of two values.
pub fn divmod(x: usize, y: usize) -> (r: (usize, usize))
    requires
        y != 0,
    ensures
        r.0 == x / y,
        r.1 == x % y,
{
    (x / y, x % y)
}

/// The numeral of `n`, with a leading zero below ten.
pub open spec fn two_digits(n: nat) -> Seq<char> {
    if n < 10 {
        "0"@ + decimal(n)
    } else {
        decimal(n)
    }
}

/// A number of seconds as a clock time: `MM:SS`, `HH:MM:SS` from one hour
/// on, or `SSs` for less than a minute when `human` is set.
pub open spec fn interval_text(seconds: nat, human: bool) -> Seq<char> {
    if human && seconds < 60 {
        decimal(seconds) + "s"@
    } else if seconds / 60 / 60 == 0 {
        two_digits(seconds / 60 % 60) + ":"@ + two_digits(seconds % 60)
    } else {
        two_digits(seconds / 60 / 60) + ":"@ + two_digits(seconds / 60 % 60) + ":"@ + two_digits(
            seconds % 60,
        )
    }
}

/// Appends `two_digits(n)` to `buf`.
fn push_two_digits(buf: &mut String, n: u64)
    ensures
        final(buf)@ == old(buf)@ + two_digits(n as nat),
{
    if n < 10 {
        buf.append("0");
    }
    push_decimal(buf, n as u128);
}

/// Appends `interval_text(seconds, human)` to `buf`.
pub fn push_interval(buf: &mut String, seconds: u64, human: bool)
    ensures
        final(buf)@ == old(buf)@ + interval_text(seconds as nat, human),
{
    if human && seconds < 60 {
        push_decimal(buf, seconds as u128);
        buf.append("s");
    } else {
        let minutes = seconds / 60;
        let hours = minutes / 60;
        if hours != 0 {
            push_two_digits(buf, hours);
            buf.append(":");
        }
        push_two_digits(buf, minutes % 60);
        buf.append(":");
        push_two_digits(buf, seconds % 60);
    }
}

/// Formats a number of seconds as a clock time, \[H:\]MM:SS and SSs.
pub fn format_interval(seconds: usize, human: bool) -> (s: String)
    ensures
        s@ == interval_text(seconds as nat, human),
{
    let mut s = String::new();
    if human && seconds < 60 {
        push_decimal(&mut s, seconds as u128);
        s.append("s");
        return s;
    }
    let (minutes, seconds) = divmod(seconds, 60);
    let (hours, minutes) = divmod(minutes, 60);
    if hours != 0 {
        push_two_digits(&mut s, hours as u64);
        s.append(":");
    }
    push_two_digits(&mut s, minutes as u64);
    s.append(":");
    push_two_digits(&mut s, seconds as u64);
    s
}

/// `num * scale / den` rounded to the nearest whole number, a tie going to
/// the even neighbour.
pub open spec fn rounded(num: nat, den: nat, scale: nat) -> nat
    recommends
        den > 0,
{
    let q = num * scale / den;
    let r = num * scale % den;
    if 2 * r > den || (2 * r == den && q % 2 == 1) {
        q + 1
    } else {
        q
    }
}

/// The fraction `num / den` in decimal notation with `places` digits after
/// the point (none, and no point, for `places == 0`; two for any
/// `places` above one).
pub open spec fn fixed_text(num: nat, den: nat, places: nat) -> Seq<char>
    recommends
        den > 0,
{
    if places == 0 {
        decimal(rounded(num, den, 1))
    } else if places == 1 {
        decimal(rounded(num, den, 10) / 10) + "."@ + decimal(rounded(num, den, 10) % 10)
    } else {
        decimal(rounded(num, den, 100) / 100) + "."@ + two_digits(rounded(num, den, 100) % 100)
    }
}

/// The largest numerator `push_fixed` takes.
pub const FIXED_NUM_MAX: u128 = 0xffff_ffff_ffff_ffff_ffff_ffff_ffff;

/// The largest denominator `push_fixed` takes.
pub const FIXED_DEN_MAX: u128 = 0x7fff_ffff_ffff_ffff_ffff_ffff_ffff_ffff;

/// `rounded(num, den, scale)`, without overflow.
fn round_scaled(num: u128, den: u128, scale: u128) -> (r: u128)
    requires
        0 < den <= FIXED_DEN_MAX,
        num <= FIXED_NUM_MAX,
        scale <= 100,
    ensures
        r == rounded(num as nat, den as nat, scale as nat),
{
    assert(num * scale <= FIXED_NUM_MAX * 100) by (nonlinear_arith)
        requires
            num <= FIXED_NUM_MAX,
            scale <= 100,
    ;
    let scaled = num * scale;
    let q = scaled / den;
    let r = scaled % den;
    if 2 * r > den || (2 * r == den && q % 2 == 1) {
        q + 1
    } else {
        q
    }
}

/// Appends `fixed_text(num, den, places)` to `buf`.
pub fn push_fixed(buf: &mut String, num: u128, den: u128, places: u8)
    requires
        0 < den <= FIXED_DEN_MAX,
        num <= FIXED_NUM_MAX,
    ensures
        final(buf)@ == old(buf)@ + fixed_text(num as nat, den as nat, places as nat),
{
    if places == 0 {
        push_decimal(buf, round_scaled(num, den, 1));
    } else if places == 1 {
        let r = round_scaled(num, den, 10);
        push_decimal(buf, r / 10);
        buf.append(".");
        push_decimal(buf, r % 10);
    } else {
        let r = round_scaled(num, den, 100);
        push_decimal(buf, r / 100);
        buf.append(".");
        push_two_digits(buf, (r % 100) as u64);
    }
}

/// The metric prefix after `step` divisions.
pub open spec fn si_prefix(step: nat) -> Seq<char> {
    if step == 0 {
        ""@
    } else if step == 1 {
        "k"@
    } else if step == 2 {
        "M"@
    } else if step == 3 {
        "G"@
    } else if step == 4 {
        "T"@
    } else if step == 5 {
        "P"@
    } else if step == 6 {
        "E"@
    } else {
        "Z"@
    }
}

/// `num / den` shown with three significant digits: two decimal places
/// below 9.995, one below 99.95, none above.
pub open spec fn three_digits_text(num: nat, den: nat) -> Seq<char>
    recommends
        den > 0,
{
    if 200 * num < 1999 * den {
        fixed_text(num, den, 2)
    } else if 20 * num < 1999 * den {
        fixed_text(num, den, 1)
    } else {
        fixed_text(num, den, 0)
    }
}

/// The magnitude `num / den` after `step` divisions by `divisor`, scaled
/// down further until it is below 999.5 and then shown with its prefix.
/// After eight divisions the prefix is `Y` whatever is left. A
/// denominator of zero stands for a division by zero: the magnitude is
/// then without bound.
pub open spec fn sizeof_text(num: nat, den: nat, divisor: nat, step: nat) -> Seq<char>
    decreases 8 - step,
{
    if step >= 8 {
        if den == 0 {
            "inf"@ + "Y"@
        } else {
            fixed_text(num, den, 1) + "Y"@
        }
    } else if den != 0 && 2 * num < 1999 * den {
        three_digits_text(num, den) + si_prefix(step)
    } else {
        sizeof_text(num, den * divisor, divisor, step + 1)
    }
}

/// The metric prefix after `step` divisions.
fn si_prefix_str(step: u8) -> (s: &'static str)
    ensures
        s@ == si_prefix(step as nat),
{
    if step == 0 {
        ""
    } else if step == 1 {
        "k"
    } else if step == 2 {
        "M"
    } else if step == 3 {
        "G"
    } else if step == 4 {
        "T"
    } else if step == 5 {
        "P"
    } else if step == 6 {
        "E"
    } else {
        "Z"
    }
}

/// The bound under which a denominator stays while the magnitude is not
/// yet below 999.5.
pub const SIZEOF_DEN_MAX: u128 = 0x80_0000_0000_0000;

/// Whether `factor * num < 1999 * den`, without overflow.
fn below_1999(num: u64, factor: u8, den: u128) -> (b: bool)
    requires
        factor <= 200,
    ensures
        b == (factor * num < 1999 * den),
{
    assert(factor * num <= 200 * 0xffff_ffff_ffff_ffff) by (nonlinear_arith)
        requires
            factor <= 200,
            num <= 0xffff_ffff_ffff_ffff,
    ;
    let scaled: u128 = (factor as u128) * (num as u128);
    den > scaled || scaled < 1999 * den
}

/// Appends `sizeof_text(num, den, divisor, 0)` to `buf`: the magnitude
/// `num / den` with its metric prefix.
pub fn push_sizeof_fraction(buf: &mut String, num: u64, den: u64, divisor: u64)
    ensures
        final(buf)@ == old(buf)@ + sizeof_text(num as nat, den as nat, divisor as nat, 0),
{
    let mut scale: u128 = den as u128;
    let mut step: u8 = 0;
    while step < 8
        invariant
            step <= 8,
            buf@ == old(buf)@,
            scale < SIZEOF_DEN_MAX * 0x1_0000_0000_0000_0000,
            sizeof_text(num as nat, den as nat, divisor as nat, 0) == sizeof_text(
                num as nat,
                scale as nat,
                divisor as nat,
                step as nat,
            ),
        decreases 8 - step,
    {
        if scale != 0 && below_1999(num, 2, scale) {
            if below_1999(num, 200, scale) {
                push_fixed(buf, num as u128, scale, 2);
            } else if below_1999(num, 20, scale) {
                push_fixed(buf, num as u128, scale, 1);
            } else {
                push_fixed(buf, num as u128, scale, 0);
            }
            buf.append(si_prefix_str(step));
            assert(buf@ == old(buf)@ + (three_digits_text(num as nat, scale as nat) + si_prefix(
                step as nat,
            )));
            return ;
        }
        assert(scale < SIZEOF_DEN_MAX);
        assert(scale * divisor < SIZEOF_DEN_MAX * 0x1_0000_0000_0000_0000) by (nonlinear_arith)
            requires
                scale < SIZEOF_DEN_MAX,
                divisor < 0x1_0000_0000_0000_0000,
        ;
        scale = scale * (divisor as u128);
        step = step + 1;
    }
    if scale == 0 {
        buf.append("inf");
        buf.append("Y");
        assert(buf@ == old(buf)@ + ("inf"@ + "Y"@));
    } else {
        push_fixed(buf, num as u128, scale, 1);
        buf.append("Y");
        assert(buf@ == old(buf)@ + (fixed_text(num as nat, scale as nat, 1) + "Y"@));
    }
}

/// Appends `sizeof_text(num, 1, divisor, 0)` to `buf`.
pub fn push_sizeof(buf: &mut String, num: u64, divisor: u64)
    ensures
        final(buf)@ == old(buf)@ + sizeof_text(num as nat, 1, divisor as nat, 0),
{
    push_sizeof_fraction(buf, num, 1, divisor);
}

/// Formats a number (greater than unity) with SI order of magnitude prefixes.
pub fn format_sizeof(num: u64, divisor: u64) -> (s: String)
    ensures
        s@ == sizeof_text(num as nat, 1, divisor as nat, 0),
{
    let mut s = String::new();
    push_sizeof(&mut s, num, divisor);
    s
}

/// Formats the magnitude `num / den`, which need not be a whole number,
/// with SI order of magnitude prefixes. A denominator of zero stands for
/// a magnitude without bound.
pub fn format_sizeof_fraction(num: u64, den: u64, divisor: u64) -> (s: String)
    ensures
        s@ == sizeof_text(num as nat, den as nat, divisor as nat, 0),
{
    let mut s = String::new();
    push_sizeof_fraction(&mut s, num, den, divisor);
    s
}

/// A decimal fraction ends in a digit.
pub proof fn lemma_fixed_ends_in_digit(num: nat, den: nat, places: nat)
    ensures
        fixed_text(num, den, places).len() >= 1,
        '0' <= fixed_text(num, den, places).last() <= '9',
{
    reveal_strlit("0");
    reveal_strlit(".");
    lemma_decimal_digits(rounded(num, den, 1));
    lemma_decimal_digits(rounded(num, den, 10) % 10);
    lemma_decimal_digits(rounded(num, den, 100) % 100);
    let last = if places == 0 {
        decimal(rounded(num, den, 1))
    } else if places == 1 {
        decimal(rounded(num, den, 10) % 10)
    } else {
        decimal(rounded(num, den, 100) % 100)
    };
    assert('0' <= last[last.len() - 1] <= '9');
}

/// The first prefix sets in at 999.5, not at the divisor: a magnitude
/// `num / den` below 999.5 is shown with three significant digits and no
/// suffix letter, and one from 999.5 on, while it is below 999.5 times the
/// divisor, is shown divided by the divisor, with three significant
/// digits and the suffix `k`.
pub proof fn lemma_sizeof_boundary(num: nat, den: nat, divisor: nat)
    requires
        den > 0,
        divisor > 0,
    ensures
        2 * num < 1999 * den ==> {
            &&& sizeof_text(num, den, divisor, 0) == three_digits_text(num, den)
            &&& '0' <= sizeof_text(num, den, divisor, 0).last() <= '9'
        },
        1999 * den <= 2 * num < 1999 * (den * divisor) ==> {
            &&& sizeof_text(num, den, divisor, 0) == three_digits_text(num, den * divisor) + "k"@
            &&& sizeof_text(num, den, divisor, 0).last() == 'k'
        },
{
    reveal_strlit("");
    reveal_strlit("k");
    lemma_fixed_ends_in_digit(num, den, 0);
    lemma_fixed_ends_in_digit(num, den, 1);
    lemma_fixed_ends_in_digit(num, den, 2);
    if 2 * num < 1999 * den {
        assert(three_digits_text(num, den) + ""@ =~= three_digits_text(num, den));
    } else if 2 * num < 1999 * (den * divisor) {
        assert(den * divisor > 0) by (nonlinear_arith)
            requires
                den > 0,
                divisor > 0,
        ;
        reveal_with_fuel(sizeof_text, 2);
        assert(sizeof_text(num, den, divisor, 0) == sizeof_text(num, den * divisor, divisor, 1));
    }
}

/// The unit after `step` divisions of a time span.
pub open spec fn time_unit(step: nat) -> Seq<char> {
    if step == 0 {
        "s"@
    } else if step == 1 {
        "min"@
    } else if step == 2 {
        "hr"@
    } else {
        "days"@
    }
}

/// A time span of `nanos` nanoseconds with two decimal places, in seconds
/// below 59.995 s, else in minutes below 59.995 min, else in hours below
/// 23.995 h, else in days.
pub open spec fn time_text(nanos: nat) -> Seq<char> {
    let second = NANOS_PER_SEC as nat;
    if 200 * nanos < 11999 * second {
        fixed_text(nanos, second, 2) + time_unit(0)
    } else if 200 * nanos < 11999 * (second * 60) {
        fixed_text(nanos, second * 60, 2) + time_unit(1)
    } else if 200 * nanos < 4799 * (second * 3600) {
        fixed_text(nanos, second * 3600, 2) + time_unit(2)
    } else {
        fixed_text(nanos, second * 86400, 2) + time_unit(3)
    }
}

/// Formats a time span with the largest unit that keeps it short.
pub fn format_time(nanos: u64) -> (s: String)
    ensures
        s@ == time_text(nanos as nat),
{
    let mut s = String::new();
    let n: u128 = nanos as u128;
    let second: u128 = NANOS_PER_SEC as u128;
    if 200 * n < 11999 * second {
        push_fixed(&mut s, n, second, 2);
        s.append("s");
    } else if 200 * n < 11999 * (second * 60) {
        push_fixed(&mut s, n, second * 60, 2);
        s.append("min");
    } else if 200 * n < 4799 * (second * 3600) {
        push_fixed(&mut s, n, second * 3600, 2);
        s.append("hr");
    } else {
        push_fixed(&mut s, n, second * 86400, 2);
        s.append("days");
    }
    s
}

} // verus!
