//! What holds of every bar: laws that relate the operations to each
//! other, proved over the model.

use vstd::prelude::*;
use crate::cursor::{
    is_closed,
    lemma_frame_returns_cursor,
    lemma_read_concat,
    lemma_read_decimal,
    lemma_read_one,
    read_char,
    read_from,
    rows_moved,
    Reading,
};
use crate::model::{
    block_units,
    clamp_width,
    count_text,
    desc_text,
    frame_bytes,
    glyph_at,
    lbar_text,
    lemma_advanced,
    lemma_framed,
    lemma_sized,
    lemma_started_at,
    no_colour,
    percent,
    progress_done,
    rate_text,
    rate_whole,
    remaining_secs,
    solid_cells,
    BarModel,
};
use crate::std_bar::fresh;
use crate::styles::format::{fixed_text, interval_text, rounded, sizeof_text, two_digits, NANOS_PER_SEC};
use crate::styles::{
    fillup_glyphs,
    joined,
    lemma_presets_len,
    tqdm_ascii_glyphs,
    tqdm_glyphs,
    Animation,
    Spinner,
};
use crate::term::{
    colour_code,
    hex_pair,
    is_hex_colour,
    is_resolved,
    named_code,
    COLOUR_RESET,
    ESCAPE,
};
use crate::progress::{lemma_meter_bounds, lemma_progress_bounds};
use crate::text::{
    decimal,
    lacks,
    lemma_decimal_lacks,
    lemma_lacks_repeated,
    lemma_repeated_len,
};

verus! {

/// The characters that the frame of a bar without a total never holds
/// of its own: the percent sign, the sign that stands before the time
/// left, the line feed and the escape character.
pub open spec fn is_foreign(c: char) -> bool {
    c == '%' || c == '<' || c == '\n' || c == ESCAPE
}

/// A two-digit numeral holds digits only.
proof fn lemma_two_digits_lacks(n: nat, c: char)
    requires
        is_foreign(c),
    ensures
        lacks(two_digits(n), c),
{
    reveal_strlit("0");
    lemma_decimal_lacks(n, c);
}

/// A clock time holds digits, colons and the letter `s` only.
proof fn lemma_interval_lacks(seconds: nat, human: bool, c: char)
    requires
        is_foreign(c),
    ensures
        lacks(interval_text(seconds, human), c),
{
    reveal_strlit("s");
    reveal_strlit(":");
    lemma_decimal_lacks(seconds, c);
    lemma_two_digits_lacks(seconds / 60 / 60, c);
    lemma_two_digits_lacks(seconds / 60 % 60, c);
    lemma_two_digits_lacks(seconds % 60, c);
}

/// A decimal fraction holds digits and a point only.
proof fn lemma_fixed_lacks(num: nat, den: nat, places: nat, c: char)
    requires
        is_foreign(c),
    ensures
        lacks(fixed_text(num, den, places), c),
{
    reveal_strlit(".");
    lemma_decimal_lacks(rounded(num, den, 1), c);
    lemma_decimal_lacks(rounded(num, den, 10) / 10, c);
    lemma_decimal_lacks(rounded(num, den, 10) % 10, c);
    lemma_decimal_lacks(rounded(num, den, 100) / 100, c);
    lemma_two_digits_lacks(rounded(num, den, 100) % 100, c);
}

/// A scaled magnitude holds a decimal fraction and letters only.
proof fn lemma_sizeof_lacks(num: nat, den: nat, divisor: nat, step: nat, c: char)
    requires
        is_foreign(c),
    ensures
        lacks(sizeof_text(num, den, divisor, step), c),
    decreases 8 - step,
{
    reveal_strlit("");
    reveal_strlit("k");
    reveal_strlit("M");
    reveal_strlit("G");
    reveal_strlit("T");
    reveal_strlit("P");
    reveal_strlit("E");
    reveal_strlit("Z");
    reveal_strlit("Y");
    reveal_strlit("inf");
    lemma_fixed_lacks(num, den, 0, c);
    lemma_fixed_lacks(num, den, 1, c);
    lemma_fixed_lacks(num, den, 2, c);
    if step < 8 && !(den != 0 && 2 * num < 1999 * den) {
        lemma_sizeof_lacks(num, den * divisor, divisor, step + 1, c);
    }
}

/// A count holds no foreign character.
proof fn lemma_count_lacks(count: nat, unit_scale: bool, divisor: nat, c: char)
    requires
        is_foreign(c),
    ensures
        lacks(count_text(count, unit_scale, divisor), c),
{
    lemma_sizeof_lacks(count, 1, divisor, 0, c);
    lemma_decimal_lacks(count, c);
}

/// A rate holds no foreign character.
proof fn lemma_rate_lacks(count: nat, elapsed: nat, unit_scale: bool, divisor: nat, c: char)
    requires
        is_foreign(c),
    ensures
        lacks(rate_text(count, elapsed, unit_scale, divisor), c),
{
    reveal_strlit("?");
    lemma_sizeof_lacks(rate_whole(count, elapsed), 1, divisor, 0, c);
    lemma_fixed_lacks(count * NANOS_PER_SEC as nat, elapsed, 2, c);
}

/// No glyph of a spinner is a foreign character.
proof fn lemma_spinner_lacks(spinner: Spinner, c: char)
    requires
        is_foreign(c),
    ensures
        lacks(spinner.current(), c),
{
    reveal_strlit("\\");
    reveal_strlit("|");
    reveal_strlit("/");
    reveal_strlit("-");
    reveal_strlit("\u{EE06}");
    reveal_strlit("\u{EE07}");
    reveal_strlit("\u{EE08}");
    reveal_strlit("\u{EE09}");
    reveal_strlit("\u{EE0A}");
    reveal_strlit("\u{EE0B}");
}

/// The delimiter behind a description is no foreign character.
proof fn lemma_desc_lacks(desc: Seq<char>, c: char)
    requires
        is_foreign(c),
        lacks(desc, c),
    ensures
        lacks(desc_text(desc), c),
{
    reveal_strlit(": ");
}

/// The frame of a bar without a total holds a percent sign, a sign of
/// time left, a line feed or an escape character only where its
/// description, unit or postfix holds one.
pub proof fn lemma_unknown_text_lacks(m: BarModel, i: nat, elapsed: nat, c: char)
    requires
        is_foreign(c),
        lacks(m.config.desc, c),
        lacks(m.config.unit, c),
        lacks(m.config.postfix, c),
    ensures
        lacks(m.unknown_text(i, elapsed), c),
{
    reveal_strlit(" ");
    reveal_strlit(" [");
    reveal_strlit(", ");
    reveal_strlit("/s");
    reveal_strlit("]");
    let count = count_text(i, m.config.unit_scale, m.config.unit_divisor);
    let spent = interval_text(elapsed / NANOS_PER_SEC as nat, false);
    let rate = rate_text(i, elapsed, m.config.unit_scale, m.config.unit_divisor);
    lemma_spinner_lacks(m.style.spinner, c);
    lemma_desc_lacks(m.config.desc, c);
    lemma_count_lacks(i, m.config.unit_scale, m.config.unit_divisor, c);
    lemma_interval_lacks(elapsed / NANOS_PER_SEC as nat, false, c);
    lemma_rate_lacks(i, elapsed, m.config.unit_scale, m.config.unit_divisor, c);
    let head = m.style.spinner.current() + " "@ + desc_text(m.config.desc) + count + " ["@;
    assert(lacks(head, c));
    let rates = head + spent + ", "@ + rate + m.config.unit + "/s"@;
    assert(lacks(rates, c));
    assert(m.unknown_text(i, elapsed) == rates + m.config.postfix + "]"@);
}

/// What is written for a frame holds a percent sign or a sign of time
/// left only where the frame's text holds one.
proof fn lemma_frame_bytes_lack_sign(file: bool, position: nat, text: Seq<char>, c: char)
    requires
        c == '%' || c == '<',
        lacks(text, c),
    ensures
        lacks(frame_bytes(file, position, text), c),
{
    reveal_strlit("\n");
    reveal_strlit("\r");
    reveal_strlit("\x1b[");
    reveal_strlit("A");
    lemma_lacks_repeated("\n"@, position, c);
    lemma_decimal_lacks(position, c);
}

/// A bar without a total shows neither percentage nor meter nor time
/// left: whenever an advance writes a frame, the frame is the spinner
/// with the statistics, the spinner has moved one place on, and neither a
/// percent sign nor the sign that stands before the time left is written
/// unless the description, the unit or the postfix holds one.
pub proof fn lemma_indefinite_frame(m: BarModel, inc: nat, now: nat, columns: nat)
    requires
        m.run.total == 0,
    ensures
        ({
            let due = m.started_at(now).counted(inc).paced(inc, now).settled();
            match m.advanced(inc, now, columns).1 {
                Some(bytes) => {
                    &&& bytes == frame_bytes(
                        m.config.file,
                        m.config.position,
                        due.unknown_text(due.run.n, due.elapsed_at(now)),
                    )
                    &&& due.style.spinner == m.started_at(now).style.spinner
                    &&& m.advanced(inc, now, columns).0.style.spinner
                        == due.style.spinner.advanced()
                    &&& lacks(m.config.desc, '%') && lacks(m.config.unit, '%') && lacks(
                        m.config.postfix,
                        '%',
                    ) ==> lacks(bytes, '%')
                    &&& lacks(m.config.desc, '<') && lacks(m.config.unit, '<') && lacks(
                        m.config.postfix,
                        '<',
                    ) ==> lacks(bytes, '<')
                },
                None => true,
            }
        }),
{
    let due = m.started_at(now).counted(inc).paced(inc, now).settled();
    lemma_started_at(m, now);
    lemma_framed(due, now, columns);
    assert(due.config == m.config && due.run.total == 0 && due.style == m.started_at(
        now,
    ).style) by {
        reveal(BarModel::counted);
        reveal(BarModel::paced);
        reveal(BarModel::settled);
    }
    assert(due.framed(now, columns).0.style.spinner == due.style.spinner.advanced()) by {
        reveal(BarModel::timed);
        reveal(BarModel::spun);
        reveal(BarModel::measured);
    }
    let text = due.unknown_text(due.run.n, due.elapsed_at(now));
    if lacks(m.config.desc, '%') && lacks(m.config.unit, '%') && lacks(m.config.postfix, '%') {
        lemma_unknown_text_lacks(due, due.run.n, due.elapsed_at(now), '%');
        lemma_frame_bytes_lack_sign(m.config.file, m.config.position, text, '%');
    }
    if lacks(m.config.desc, '<') && lacks(m.config.unit, '<') && lacks(m.config.postfix, '<') {
        lemma_unknown_text_lacks(due, due.run.n, due.elapsed_at(now), '<');
        lemma_frame_bytes_lack_sign(m.config.file, m.config.position, text, '<');
    }
}

/// A bar that asks for no spacing between its frames writes a frame at
/// every advance.
pub proof fn lemma_eager_bar_writes(m: BarModel, inc: nat, now: nat, columns: nat)
    requires
        m.config.mininterval == 0,
        m.config.delay == 0,
        m.run.miniters <= 1,
        !m.config.disable,
        m.run.started ==> m.run.elapsed_time <= m.elapsed_at(now),
    ensures
        m.advanced(inc, now, columns).1 is Some,
{
    lemma_started_at(m, now);
    reveal(BarModel::counted);
    reveal(BarModel::paced);
}

/// A bar that was reset starts anew at its next advance: the counter
/// resumes at the initial value, the total is the new one if one was
/// given, and time is measured from that advance on. A frame that this
/// advance writes is rendered with no time elapsed, and at any later
/// time the time elapsed is the time since this advance.
pub proof fn lemma_reset_restarts(
    m: BarModel,
    total: Option<u64>,
    inc: nat,
    now: nat,
    columns: nat,
)
    ensures
        ({
            let stopped = m.reset_to(total);
            let due = stopped.started_at(now).counted(inc).paced(inc, now).settled();
            let bar = stopped.advanced(inc, now, columns).0;
            &&& bar.run.started
            &&& bar.run.n == m.config.initial + inc
            &&& bar.run.timer == now
            &&& bar.run.total == match total {
                Some(t) => t as nat,
                None => m.run.total,
            }
            &&& forall|later: nat| later >= now ==> #[trigger] bar.elapsed_at(later) == later - now
            &&& due.elapsed_at(now) == 0
            &&& due.run.n == bar.run.n
            &&& due.run.total == bar.run.total
            &&& match stopped.advanced(inc, now, columns).1 {
                Some(bytes) => bytes == frame_bytes(
                    m.config.file,
                    m.config.position,
                    due.framed(now, columns).1,
                ),
                None => true,
            }
            &&& due.run.total == 0 ==> due.framed(now, columns).1 == due.unknown_text(
                due.run.n,
                0,
            )
            &&& due.run.total != 0 && (due.config.leave || due.run.n < due.run.total)
                ==> due.framed(now, columns).1 == lbar_text(
                due.config.desc,
                due.run.n,
                due.run.total,
            ) + due.rendered(due.run.n, now, columns).1.1 + due.rbar_text(
                progress_done(due.run.n, due.run.total),
                0,
            )
        }),
{
    let stopped = m.reset_to(total);
    assert(stopped.config == m.config && !stopped.run.started && stopped.run.total == match total
    {
        Some(t) => t as nat,
        None => m.run.total,
    }) by {
        reveal(BarModel::reset_to);
    }
    lemma_started_at(stopped, now);
    lemma_advanced(stopped, inc, now, columns);
    let run = stopped.started_at(now);
    let due = run.counted(inc).paced(inc, now).settled();
    assert(due.config == run.config && due.run.timer == run.run.timer && due.run.n == run.run.n
        + inc && due.run.total == run.run.total) by {
        reveal(BarModel::counted);
        reveal(BarModel::paced);
        reveal(BarModel::settled);
    }
    lemma_framed(due, now, columns);
}

/// Reaching the total writes a frame whatever the gates say: however
/// short the time since the last frame, whatever the iteration interval
/// and the delay. Where the bar stays on screen the frame shows 100% and
/// the total as the count.
pub proof fn lemma_total_reached_writes(m: BarModel, inc: nat, now: nat, columns: nat)
    requires
        !m.config.disable,
        m.started_at(now).run.n + inc == m.run.total,
    ensures
        ({
            let due = m.started_at(now).counted(inc).paced(inc, now).settled();
            &&& m.advanced(inc, now, columns).1 == Some(
                frame_bytes(m.config.file, m.config.position, due.framed(now, columns).1),
            )
            &&& m.advanced(inc, now, columns).0.run.n == m.run.total
            &&& m.run.total > 0 && m.config.leave ==> due.framed(now, columns).1 == desc_text(
                m.config.desc,
            ) + "100%"@ + due.rendered(m.run.total, now, columns).1.1 + due.rbar_text(
                m.run.total,
                due.elapsed_at(now),
            )
            &&& due.run.total == m.run.total
            &&& due.config == m.config
        }),
{
    lemma_started_at(m, now);
    lemma_advanced(m, inc, now, columns);
    let run = m.started_at(now);
    let paced = run.counted(inc).paced(inc, now);
    let due = paced.settled();
    assert(paced.run.n == m.run.total && paced.run.total == m.run.total && due.run.n
        == m.run.total && due.run.total == m.run.total && due.config == m.config && paced.config
        == m.config) by {
        reveal(BarModel::counted);
        reveal(BarModel::paced);
        reveal(BarModel::settled);
    }
    lemma_framed(due, now, columns);
    if m.run.total > 0 && m.config.leave {
        let total = m.run.total;
        lemma_progress_bounds(total, total);
        reveal_strlit("");
        reveal_strlit("0");
        reveal_strlit("1");
        reveal_strlit("%");
        reveal_strlit("100%");
        reveal_with_fuel(decimal, 3);
        let head = desc_text(m.config.desc);
        assert(decimal(100) + "%"@ =~= "100%"@);
        assert(lbar_text(m.config.desc, total, total) =~= head + "100%"@);
    }
}

/// The glyph run fills the meter: with glyphs and fill of one character
/// each, it is as wide as the meter, at every stage of the work and in
/// every family.
pub proof fn lemma_meter_run_width(m: BarModel, done: nat)
    requires
        m.wf(),
        m.width.ncols > 0,
        m.run.total > 0,
        done <= m.run.total,
        m.style.fill.len() == 1,
        !m.style.animation.is_block() ==> m.style.charset.len() == 1,
    ensures
        m.meter_run(done).len() == m.width.ncols,
{
    reveal_strlit(">");
    let ncols = m.width.ncols as nat;
    if m.style.animation.is_block() {
        let nsyms = (m.style.charset_len - 1) as nat;
        lemma_meter_bounds(done, m.run.total, ncols, nsyms);
        let units = block_units(done, m.run.total, ncols, nsyms);
        let full = units / nsyms;
        let part = units % nsyms;
        assert(part < nsyms) by (nonlinear_arith)
            requires
                part == units % nsyms,
                nsyms > 0,
        ;
        let last = glyph_at(m.style.charset, m.style.charset.len() - 1);
        lemma_repeated_len(last, full);
        assert(full * last.len() == full) by (nonlinear_arith)
            requires
                last.len() == 1,
        ;
        if full < ncols {
            let rest = (ncols - full - 1) as nat;
            lemma_repeated_len(m.style.fill, rest);
            assert(rest * m.style.fill.len() == rest) by (nonlinear_arith)
                requires
                    m.style.fill.len() == 1,
            ;
        }
    } else {
        lemma_meter_bounds(done, m.run.total, ncols, 1);
        let cells = solid_cells(done, m.run.total, ncols);
        lemma_repeated_len(m.style.charset, cells);
        assert(cells * m.style.charset.len() == cells) by (nonlinear_arith)
            requires
                m.style.charset.len() == 1,
        ;
        let rest = (ncols - cells) as nat;
        lemma_repeated_len(m.style.fill, rest);
        assert(rest * m.style.fill.len() == rest) by (nonlinear_arith)
            requires
                m.style.fill.len() == 1,
        ;
        if cells < ncols {
            let tail = (ncols - cells - 1) as nat;
            lemma_repeated_len(m.style.fill, tail);
            assert(tail * m.style.fill.len() == tail) by (nonlinear_arith)
                requires
                    m.style.fill.len() == 1,
            ;
        }
    }
}

/// Setting a colour twice gives what setting it once gives, whatever the
/// colour was before.
pub proof fn lemma_set_colour_idempotent(m: BarModel, name: Seq<char>)
    ensures
        m.with_colour(name).with_colour(name) == m.with_colour(name),
        m.with_colour(name).style.colour == if name == no_colour() {
            no_colour()
        } else {
            colour_code(name)
        },
{
    reveal(BarModel::with_colour);
}

/// No name resolves to the sentinel for "no colour", and a resolved
/// colour resolves to itself: resolving the colour of a bar again, as
/// each start of the bar does, changes nothing.
pub proof fn lemma_colour_resolution_stable(name: Seq<char>)
    ensures
        colour_code(name) != no_colour(),
        colour_code(colour_code(name)) == colour_code(name),
{
    reveal_strlit("default");
    reveal_strlit("\x1b[38;2;");
    reveal_strlit("\x1b[");
    reveal_strlit("black");
    reveal_strlit("red");
    reveal_strlit("green");
    reveal_strlit("yellow");
    reveal_strlit("blue");
    reveal_strlit("magenta");
    reveal_strlit("cyan");
    reveal_strlit("white");
    let code = colour_code(name);
    if is_resolved(name) {
        assert(code[0] == ESCAPE);
    } else if is_hex_colour(name) {
        assert(code[0] == ESCAPE);
        assert(is_resolved(code));
    } else if named_code(name) >= 0 {
        assert(code[0] == ESCAPE);
        assert(is_resolved(code));
    } else {
        assert(code.len() == 0);
        assert(!is_hex_colour(code));
        assert(named_code(code) < 0);
    }
}

/// The resolved colour of a bar stays as it is when the bar resolves it
/// again.
pub proof fn lemma_recoloured_idempotent(m: BarModel)
    ensures
        m.recoloured().recoloured() == m.recoloured(),
{
    reveal(BarModel::with_colour);
    lemma_colour_resolution_stable(m.style.colour);
    reveal_strlit("default");
}

/// Two advances less than the minimum interval apart write at most one
/// frame, unless the second one reaches the total. This holds of a bar
/// that is not forced to render, and whose first frame, if it finished
/// the bar, stayed on screen: the blanks that wipe a finished bar do not
/// count as a render.
pub proof fn lemma_throttle(
    m: BarModel,
    inc1: nat,
    now1: nat,
    columns1: nat,
    inc2: nat,
    now2: nat,
    columns2: nat,
)
    requires
        !m.run.force_refresh,
        m.run.started || !m.config.max_fps,
        now1 <= now2 < now1 + m.config.mininterval,
        m.run.total == 0 || m.config.leave || m.advanced(inc1, now1, columns1).0.run.n
            < m.run.total,
    ensures
        ({
            let (first, frame1) = m.advanced(inc1, now1, columns1);
            let (second, frame2) = first.advanced(inc2, now2, columns2);
            frame1 is Some && frame2 is Some ==> second.run.n == second.run.total
        }),
{
    let (first, frame1) = m.advanced(inc1, now1, columns1);
    let (second, frame2) = first.advanced(inc2, now2, columns2);
    lemma_started_at(m, now1);
    lemma_advanced(m, inc1, now1, columns1);
    lemma_started_at(first, now2);
    lemma_advanced(first, inc2, now2, columns2);
    if frame1 is Some && frame2 is Some {
        let due1 = m.started_at(now1).counted(inc1).paced(inc1, now1).settled();
        lemma_framed(due1, now1, columns1);
        assert(due1.config == m.config && due1.run.total == m.run.total && due1.run.timer
            == m.started_at(now1).run.timer && due1.run.n == first.run.n) by {
            reveal(BarModel::counted);
            reveal(BarModel::paced);
            reveal(BarModel::settled);
        }
        assert(first.run.elapsed_time == due1.elapsed_at(now1));
        let counted2 = first.counted(inc2);
        let paced2 = counted2.paced(inc2, now2);
        assert(paced2.run.timer == first.run.timer && paced2.run.elapsed_time
            == first.run.elapsed_time && paced2.config == first.config && paced2.run.force_refresh
            == first.run.force_refresh && paced2.run.n == second.run.n && paced2.run.total
            == second.run.total) by {
            reveal(BarModel::counted);
            reveal(BarModel::paced);
            reveal(BarModel::settled);
            lemma_framed(paced2.settled(), now2, columns2);
        }
        assert(!paced2.time_gate(now2));
    }
}

/// `text` holds neither an escape character nor a line feed.
pub open spec fn is_inert(text: Seq<char>) -> bool {
    lacks(text, ESCAPE) && lacks(text, '\n')
}

/// Writing `text` leaves the cursor on its row, and ends outside any
/// control sequence.
pub open spec fn is_still(text: Seq<char>) -> bool {
    read_from(Reading::Plain, text) == (Reading::Plain, 0int)
}

/// A text without escape character and line feed leaves the cursor on
/// its row.
pub proof fn lemma_inert_is_still(text: Seq<char>)
    requires
        is_inert(text),
    ensures
        is_still(text),
    decreases text.len(),
{
    if text.len() > 0 {
        lemma_inert_is_still(text.drop_last());
    }
}

/// Two texts that leave the cursor on its row do so one after the other.
pub proof fn lemma_still_concat(a: Seq<char>, b: Seq<char>)
    requires
        is_still(a),
        is_still(b),
    ensures
        is_still(a + b),
{
    lemma_read_concat(Reading::Plain, a, b);
}

/// Reading one character more.
proof fn lemma_read_push(state: Reading, text: Seq<char>, c: char)
    ensures
        read_from(state, text.push(c)).0 == read_char(
            read_from(state, text).0,
            c,
        ).0,
        read_from(state, text.push(c)).1 == read_from(state, text).1 + read_char(
            read_from(state, text).0,
            c,
        ).1,
{
    assert(text.push(c).drop_last() =~= text);
}

/// The opening of a 24-bit colour sequence leaves the reader inside a
/// control sequence, before its next parameter.
proof fn lemma_read_rgb_open()
    ensures
        read_from(Reading::Plain, "\x1b[38;2;"@) == (Reading::Control { value: 0 }, 0int),
{
    reveal_strlit("\x1b[38;2;");
    let s0 = Seq::<char>::empty();
    let s1 = s0.push(ESCAPE);
    let s2 = s1.push('[');
    let s3 = s2.push('3');
    let s4 = s3.push('8');
    let s5 = s4.push(';');
    let s6 = s5.push('2');
    let s7 = s6.push(';');
    lemma_read_push(Reading::Plain, s0, ESCAPE);
    lemma_read_push(Reading::Plain, s1, '[');
    lemma_read_push(Reading::Plain, s2, '3');
    lemma_read_push(Reading::Plain, s3, '8');
    lemma_read_push(Reading::Plain, s4, ';');
    lemma_read_push(Reading::Plain, s5, '2');
    lemma_read_push(Reading::Plain, s6, ';');
    assert("\x1b[38;2;"@ =~= s7);
}

/// A parameter and the character behind it, read inside a control
/// sequence.
proof fn lemma_read_parameter(before: Seq<char>, n: nat, end: Seq<char>)
    requires
        read_from(Reading::Plain, before) == (Reading::Control { value: 0 }, 0int),
        end.len() == 1,
    ensures
        read_from(Reading::Plain, before + decimal(n) + end) == read_char(
            Reading::Control { value: n },
            end[0],
        ),
{
    lemma_read_decimal(n);
    lemma_read_concat(Reading::Plain, before, decimal(n));
    assert(end =~= seq![end[0]]);
    lemma_read_one(Reading::Control { value: n }, end[0]);
    lemma_read_concat(Reading::Plain, before + decimal(n), end);
}

/// The sequence that a colour name resolves to leaves the cursor on its
/// row.
pub proof fn lemma_colour_code_still(name: Seq<char>)
    requires
        !is_resolved(name),
    ensures
        is_still(colour_code(name)),
{
    reveal_strlit(";");
    reveal_strlit("m");
    if is_hex_colour(name) {
        let r = hex_pair(name, 1);
        let g = hex_pair(name, 3);
        let b = hex_pair(name, 5);
        lemma_read_rgb_open();
        lemma_read_parameter("\x1b[38;2;"@, r, ";"@);
        lemma_read_parameter("\x1b[38;2;"@ + decimal(r) + ";"@, g, ";"@);
        lemma_read_parameter("\x1b[38;2;"@ + decimal(r) + ";"@ + decimal(g) + ";"@, b, "m"@);
    } else if named_code(name) >= 0 {
        reveal_strlit("\x1b[");
        let s1 = Seq::<char>::empty().push(ESCAPE);
        lemma_read_push(Reading::Plain, Seq::<char>::empty(), ESCAPE);
        lemma_read_push(Reading::Plain, s1, '[');
        assert("\x1b["@ =~= s1.push('['));
        lemma_read_parameter("\x1b["@, named_code(name) as nat, "m"@);
    } else {
    }
}

/// The sequence that ends a coloured run leaves the cursor on its row.
pub proof fn lemma_colour_reset_still()
    ensures
        is_still(COLOUR_RESET@),
{
    reveal_strlit("\x1b[0m");
    let s0 = Seq::<char>::empty();
    let s1 = s0.push(ESCAPE);
    let s2 = s1.push('[');
    let s3 = s2.push('0');
    lemma_read_push(Reading::Plain, s0, ESCAPE);
    lemma_read_push(Reading::Plain, s1, '[');
    lemma_read_push(Reading::Plain, s2, '0');
    lemma_read_push(Reading::Plain, s3, 'm');
    assert(COLOUR_RESET@ =~= s3.push('m'));
}

/// The texts that a bar takes from its owner hold neither escape
/// character nor line feed, and its colour, where it is an escape
/// sequence of the owner's, leaves the cursor on its row.
pub open spec fn is_tidy(m: BarModel) -> bool {
    &&& is_inert(m.config.desc)
    &&& is_inert(m.config.unit)
    &&& is_inert(m.config.postfix)
    &&& is_inert(m.style.fill)
    &&& is_inert(m.style.charset)
    &&& is_resolved(m.style.colour) ==> is_still(m.style.colour)
}

/// A tidy bar whose colour is resolved.
pub open spec fn is_ready(m: BarModel) -> bool {
    &&& is_tidy(m)
    &&& m.style.colour == no_colour() || is_still(m.style.colour)
}

/// The left segment holds an escape character or a line feed only where
/// the description holds one.
proof fn lemma_lbar_inert(desc: Seq<char>, n: nat, total: nat)
    requires
        is_inert(desc),
    ensures
        is_inert(lbar_text(desc, n, total)),
{
    reveal_strlit("");
    reveal_strlit(" ");
    reveal_strlit("  ");
    reveal_strlit("%");
    lemma_desc_lacks(desc, ESCAPE);
    lemma_desc_lacks(desc, '\n');
    lemma_decimal_lacks(percent(n, total), ESCAPE);
    lemma_decimal_lacks(percent(n, total), '\n');
}

/// The right segment holds a foreign character only where the unit or
/// the postfix holds one.
proof fn lemma_rbar_lacks(m: BarModel, i: nat, elapsed: nat, c: char)
    requires
        is_foreign(c),
        c != '<',
        lacks(m.config.unit, c),
        lacks(m.config.postfix, c),
    ensures
        lacks(m.rbar_text(i, elapsed), c),
{
    reveal_strlit(" ");
    reveal_strlit("/");
    reveal_strlit(" [");
    reveal_strlit("<");
    reveal_strlit(", ");
    reveal_strlit("/s");
    reveal_strlit("]");
    let count = count_text(i, m.config.unit_scale, m.config.unit_divisor);
    let total = count_text(m.run.total, m.config.unit_scale, m.config.unit_divisor);
    let spent = interval_text(elapsed / NANOS_PER_SEC as nat, false);
    let left = interval_text(remaining_secs(i, m.run.total, elapsed), false);
    let rate = rate_text(i, elapsed, m.config.unit_scale, m.config.unit_divisor);
    lemma_count_lacks(i, m.config.unit_scale, m.config.unit_divisor, c);
    lemma_count_lacks(m.run.total, m.config.unit_scale, m.config.unit_divisor, c);
    lemma_interval_lacks(elapsed / NANOS_PER_SEC as nat, false, c);
    lemma_interval_lacks(remaining_secs(i, m.run.total, elapsed), false, c);
    lemma_rate_lacks(i, elapsed, m.config.unit_scale, m.config.unit_divisor, c);
    let counts = " "@ + count + "/"@ + total + " ["@;
    assert(lacks(counts, c));
    let times = counts + spent + "<"@ + left + ", "@;
    assert(lacks(times, c));
    let rates = times + rate + m.config.unit + "/s"@;
    assert(lacks(rates, c));
    assert(m.rbar_text(i, elapsed) == rates + m.config.postfix + "]"@);
}

/// The glyph run holds an escape character or a line feed only where the
/// glyph set or the fill holds one.
proof fn lemma_meter_run_lacks(m: BarModel, done: nat, c: char)
    requires
        c == ESCAPE || c == '\n',
        lacks(m.style.fill, c),
        lacks(m.style.charset, c),
        m.wf(),
        m.width.ncols > 0,
        m.run.total > 0,
        done <= m.run.total,
    ensures
        lacks(m.meter_run(done), c),
{
    reveal_strlit(">");
    let ncols = m.width.ncols as nat;
    if m.style.animation.is_block() {
        let nsyms = (m.style.charset_len - 1) as nat;
        let units = block_units(done, m.run.total, ncols, nsyms);
        let full = units / nsyms;
        let part = units % nsyms;
        let last = glyph_at(m.style.charset, m.style.charset.len() - 1);
        let glyph = glyph_at(m.style.charset, (part + 1) as int);
        assert(part < nsyms) by (nonlinear_arith)
            requires
                part == units % nsyms,
                nsyms > 0,
        ;
        assert(lacks(last, c));
        assert(lacks(glyph, c));
        lemma_lacks_repeated(last, full, c);
        lemma_lacks_repeated(m.style.fill, (ncols - full - 1) as nat, c);
    } else {
        let cells = solid_cells(done, m.run.total, ncols);
        lemma_lacks_repeated(m.style.charset, cells, c);
        lemma_lacks_repeated(m.style.fill, (ncols - cells) as nat, c);
        lemma_lacks_repeated(m.style.fill, (ncols - cells - 1) as nat, c);
    }
}

/// The meter of a ready bar leaves the cursor on its row.
proof fn lemma_meter_still(m: BarModel, done: nat)
    requires
        is_ready(m),
        m.wf(),
        m.width.ncols > 0,
        m.run.total > 0,
        done <= m.run.total,
    ensures
        is_still(m.meter_text(done)),
{
    reveal_strlit("|");
    reveal_strlit("[");
    reveal_strlit("]");
    reveal_strlit("\u{EE03}");
    reveal_strlit("\u{EE05}");
    reveal_strlit("\u{EE02}");
    lemma_meter_run_lacks(m, done, ESCAPE);
    lemma_meter_run_lacks(m, done, '\n');
    let run = m.meter_run(done);
    lemma_inert_is_still(run);
    if m.style.colour != no_colour() {
        lemma_colour_reset_still();
        lemma_still_concat(m.style.colour, run);
        lemma_still_concat(m.style.colour + run, COLOUR_RESET@);
    }
    let body = m.coloured_run(done);
    assert(is_still(body));
    let (open, close) = match m.style.animation {
        Animation::TqdmAscii
        | Animation::Tqdm
        | Animation::FillUp => ("|"@, "|"@),
        Animation::Classic | Animation::Arrow => ("["@, "]"@),
        Animation::FiraCode => (
            "\u{EE03}"@,
            if done >= m.run.total {
                "\u{EE05}"@
            } else {
                "\u{EE02}"@
            },
        ),
    };
    lemma_inert_is_still(open);
    lemma_inert_is_still(close);
    lemma_still_concat(open, body);
    lemma_still_concat(open + body, close);
    assert(m.meter_text(done) == open + body + close);
}

/// The frame of a ready bar leaves the cursor on its row.
proof fn lemma_framed_still(m: BarModel, now: nat, columns: nat)
    requires
        is_ready(m),
        m.wf(),
    ensures
        is_still(m.framed(now, columns).1),
{
    if m.run.total != 0 {
        let i = m.run.n;
        if i >= m.run.total && !m.config.leave {
            reveal_strlit(" ");
            reveal_strlit("");
            reveal_strlit("\r");
            lemma_lacks_repeated(" "@, if m.width.bar_length > 0 {
                m.width.bar_length as nat
            } else {
                0
            }, ESCAPE);
            lemma_lacks_repeated(" "@, if m.width.bar_length > 0 {
                m.width.bar_length as nat
            } else {
                0
            }, '\n');
            lemma_inert_is_still(m.blank_text() + ""@ + "\r"@);
        } else {
            let shown = progress_done(i, m.run.total);
            let lbar = lbar_text(m.config.desc, i, m.run.total);
            let rbar = m.rbar_text(shown, m.elapsed_at(now));
            let len = clamp_width((1 + lbar.len() + rbar.len()) as int);
            let sized = m.timed(shown, now).with_ncols(len, columns);
            lemma_sized(m, shown, now, len, columns);
            lemma_lbar_inert(m.config.desc, i, m.run.total);
            lemma_rbar_lacks(m, shown, m.elapsed_at(now), ESCAPE);
            lemma_rbar_lacks(m, shown, m.elapsed_at(now), '\n');
            lemma_inert_is_still(lbar);
            lemma_inert_is_still(rbar);
            if sized.width.ncols <= 0 {
                reveal_strlit("");
                lemma_inert_is_still(""@);
                lemma_still_concat(lbar, ""@);
                lemma_still_concat(lbar + ""@, rbar);
            } else {
                lemma_meter_still(sized, shown);
                lemma_still_concat(lbar, sized.meter_text(shown));
                lemma_still_concat(lbar + sized.meter_text(shown), rbar);
            }
        }
    } else {
        lemma_unknown_text_lacks(m, m.run.n, m.elapsed_at(now), ESCAPE);
        lemma_unknown_text_lacks(m, m.run.n, m.elapsed_at(now), '\n');
        lemma_inert_is_still(m.unknown_text(m.run.n, m.elapsed_at(now)));
    }
}

/// What joined pieces lack when each piece lacks it.
proof fn lemma_joined_lacks(pieces: Seq<&str>, c: char)
    requires
        forall|i: int| 0 <= i < pieces.len() ==> lacks((#[trigger] pieces[i])@, c),
    ensures
        lacks(joined(pieces), c),
    decreases pieces.len(),
{
    if pieces.len() > 0 {
        lemma_joined_lacks(pieces.drop_last(), c);
    }
}

/// Starting a tidy bar gives a ready bar.
proof fn lemma_started_ready(m: BarModel, now: nat)
    requires
        is_tidy(m),
        m.run.started ==> is_ready(m),
    ensures
        is_ready(m.started_at(now)),
{
    if !m.run.started {
        reveal(BarModel::rewound);
        reveal(BarModel::with_colour);
        reveal(BarModel::styled);
        reveal(BarModel::with_charset);
        reveal(BarModel::primed);
        reveal(BarModel::clocked);
        reveal_strlit("\u{258F}");
        reveal_strlit("\u{258E}");
        reveal_strlit("\u{258D}");
        reveal_strlit("\u{258C}");
        reveal_strlit("\u{258B}");
        reveal_strlit("\u{258A}");
        reveal_strlit("\u{2589}");
        reveal_strlit("\u{2588}");
        reveal_strlit("\u{2581}");
        reveal_strlit("\u{2582}");
        reveal_strlit("\u{2583}");
        reveal_strlit("\u{2584}");
        reveal_strlit("\u{2585}");
        reveal_strlit("\u{2586}");
        reveal_strlit("\u{2587}");
        reveal_strlit("1");
        reveal_strlit("2");
        reveal_strlit("3");
        reveal_strlit("4");
        reveal_strlit("5");
        reveal_strlit("6");
        reveal_strlit("7");
        reveal_strlit("8");
        reveal_strlit("9");
        reveal_strlit("#");
        reveal_strlit(".");
        reveal_strlit("=");
        reveal_strlit("\u{EE04}");
        reveal_strlit("\u{EE01}");
        lemma_joined_lacks(tqdm_glyphs(), ESCAPE);
        lemma_joined_lacks(tqdm_glyphs(), '\n');
        lemma_joined_lacks(tqdm_ascii_glyphs(), ESCAPE);
        lemma_joined_lacks(tqdm_ascii_glyphs(), '\n');
        lemma_joined_lacks(fillup_glyphs(), ESCAPE);
        lemma_joined_lacks(fillup_glyphs(), '\n');
        if !is_resolved(m.style.colour) {
            lemma_colour_code_still(m.style.colour);
        }
    }
}

/// Stacked bars keep to their rows: whatever an advance of a tidy bar
/// writes to a terminal, at any line offset, moves the cursor down to the
/// bar's line and back by as much, and ends outside any control sequence.
/// So the rows moved over any number of frames of any number of bars add
/// up to none, and each frame lands on the line of its own bar.
pub proof fn lemma_frames_keep_rows(m: BarModel, inc: nat, now: nat, columns: nat)
    requires
        m.wf(),
        is_tidy(m),
        m.run.started ==> is_ready(m),
        !m.config.file,
    ensures
        match m.advanced(inc, now, columns).1 {
            Some(bytes) => is_closed(bytes) && rows_moved(bytes) == 0,
            None => true,
        },
        is_tidy(m.advanced(inc, now, columns).0),
        is_ready(m.advanced(inc, now, columns).0),
{
    let run = m.started_at(now);
    lemma_started_at(m, now);
    lemma_started_ready(m, now);
    let counted = run.counted(inc);
    let paced = counted.paced(inc, now);
    let due = paced.settled();
    assert(due.config == run.config && due.style == run.style && paced.config == run.config
        && paced.style == run.style && counted.style == run.style && counted.config
        == run.config) by {
        reveal(BarModel::counted);
        reveal(BarModel::paced);
        reveal(BarModel::settled);
    }
    assert(is_ready(due) && due.wf());
    lemma_framed(due, now, columns);
    lemma_framed_still(due, now, columns);
    let (bar, text) = due.framed(now, columns);
    assert(bar.style.fill == due.style.fill && bar.style.charset == due.style.charset
        && bar.style.colour == due.style.colour) by {
        reveal(BarModel::timed);
        reveal(BarModel::with_ncols);
        reveal(BarModel::spun);
        reveal(BarModel::measured);
    }
    lemma_frame_returns_cursor(m.config.position, text);
}

/// A bar as it is made is well formed and tidy.
pub proof fn lemma_fresh_is_tidy(total: nat)
    ensures
        fresh(total).wf(),
        is_tidy(fresh(total)),
{
    reveal_strlit("");
    reveal_strlit("it");
    reveal_strlit(" ");
    reveal_strlit("default");
    reveal_strlit("\u{258F}");
    reveal_strlit("\u{258E}");
    reveal_strlit("\u{258D}");
    reveal_strlit("\u{258C}");
    reveal_strlit("\u{258B}");
    reveal_strlit("\u{258A}");
    reveal_strlit("\u{2589}");
    reveal_strlit("\u{2588}");
    lemma_joined_lacks(tqdm_glyphs(), ESCAPE);
    lemma_joined_lacks(tqdm_glyphs(), '\n');
    lemma_presets_len();
}

} // verus!
