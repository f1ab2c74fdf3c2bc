//! The mathematical model of a progress bar: its state as plain values,
//! the text of each segment, the throttle gates and the state after each
//! operation.
//!
//! Time is counted in nanoseconds. A timestamp `now` is a reading of any
//! clock that does not run backwards; only differences of readings matter.
//!
//! Each step that changes the state is a function of its own, and opaque:
//! the operations are compositions of steps, and a proof unfolds a step
//! with `reveal` only where it needs what the step does.

use vstd::prelude::*;
use crate::styles::{
    fillup_glyphs,
    joined,
    tqdm_ascii_glyphs,
    tqdm_glyphs,
    Animation,
    Output,
    Spinner,
    SpinnerFrames,
};
use crate::styles::format::{fixed_text, interval_text, sizeof_text, NANOS_PER_SEC};
use crate::term::{colour_code, cursor_up_text, COLOUR_RESET};
use crate::text::{decimal, repeated};

verus! {

/// What the owner of a bar sets and the bar itself leaves as it is.
pub struct ConfigModel {
    pub desc: Seq<char>,
    pub leave: bool,
    pub file: bool,
    pub mininterval: nat,
    pub dynamic_miniters: bool,
    pub ascii: bool,
    pub disable: bool,
    pub unit: Seq<char>,
    pub unit_scale: bool,
    pub dynamic_ncols: bool,
    pub initial: nat,
    pub position: nat,
    pub postfix: Seq<char>,
    pub unit_divisor: nat,
    pub delay: nat,
    pub output: Output,
    pub max_fps: bool,
}

/// The look of the meter: colour, glyphs and spinner.
pub struct StyleModel {
    pub colour: Seq<char>,
    pub fill: Seq<char>,
    pub animation: Animation,
    pub charset: Seq<char>,
    pub charset_len: nat,
    pub spinner: Spinner,
}

/// Widths: of the meter, of the meter as fixed (-1 for none), and of the
/// last frame.
pub struct WidthModel {
    pub ncols: int,
    pub user_ncols: int,
    pub bar_length: int,
}

/// Counters and clock.
pub struct RunModel {
    pub total: nat,
    pub n: nat,
    pub miniters: nat,
    pub started: bool,
    pub timer: nat,
    pub elapsed_time: nat,
    pub its_per: nat,
    pub force_refresh: bool,
}

/// The state of a bar.
pub struct BarModel {
    pub config: ConfigModel,
    pub style: StyleModel,
    pub width: WidthModel,
    pub run: RunModel,
}

/// `x` brought into the range of a 16-bit signed width.
pub open spec fn clamp_width(x: int) -> int {
    if x < i16::MIN {
        i16::MIN as int
    } else if x > i16::MAX {
        i16::MAX as int
    } else {
        x
    }
}

/// `x`, or the largest 64-bit count if `x` is above it.
pub open spec fn clamp_count(x: nat) -> nat {
    if x > u64::MAX {
        u64::MAX as nat
    } else {
        x
    }
}

/// A glyph set with an empty glyph, a full glyph, and a character for
/// each of its `len` glyphs.
pub open spec fn charset_valid(charset: Seq<char>, len: nat) -> bool {
    2 <= len <= charset.len() && len <= u64::MAX
}

/// The sentinel that stands for "no colour".
pub open spec fn no_colour() -> Seq<char> {
    "default"@
}

/// The part of the work that is done, as the numerator of a fraction over
/// `total`: never above `total`, and `total` itself from `n == total` on.
pub open spec fn progress_done(n: nat, total: nat) -> nat {
    if n >= total {
        total
    } else {
        n
    }
}

/// The whole percentage of the work that is done.
pub open spec fn percent(n: nat, total: nat) -> nat
    recommends
        total > 0,
{
    progress_done(n, total) * 100 / total
}

/// The description with its delimiter; nothing for an empty description.
pub open spec fn desc_text(desc: Seq<char>) -> Seq<char> {
    if desc.len() == 0 {
        desc
    } else {
        desc + ": "@
    }
}

/// The left segment: description and percentage, padded to three places
/// below 100%.
pub open spec fn lbar_text(desc: Seq<char>, n: nat, total: nat) -> Seq<char>
    recommends
        total > 0,
{
    desc_text(desc) + (if n >= total {
        ""@
    } else if percent(n, total) >= 10 {
        " "@
    } else {
        "  "@
    }) + decimal(percent(n, total)) + "%"@
}

/// A count as it is displayed: scaled with a metric prefix, or in full.
pub open spec fn count_text(count: nat, unit_scale: bool, divisor: nat) -> Seq<char> {
    if unit_scale {
        sizeof_text(count, 1, divisor, 0)
    } else {
        decimal(count)
    }
}

/// Whole iterations per second after `count` iterations in `elapsed`
/// nanoseconds; zero while no rate can be told.
pub open spec fn rate_whole(count: nat, elapsed: nat) -> nat {
    if count == 0 || elapsed == 0 {
        0
    } else {
        clamp_count(count * NANOS_PER_SEC as nat / elapsed)
    }
}

/// The rate as it is displayed: a question mark while no rate can be
/// told, else iterations per second, scaled or with two decimal places.
pub open spec fn rate_text(count: nat, elapsed: nat, unit_scale: bool, divisor: nat) -> Seq<
    char,
> {
    if count == 0 || elapsed == 0 {
        "?"@
    } else if unit_scale {
        sizeof_text(rate_whole(count, elapsed), 1, divisor, 0)
    } else {
        fixed_text(count * NANOS_PER_SEC as nat, elapsed, 2)
    }
}

/// Whole seconds the rest of the work takes at the rate seen so far;
/// zero before the first iteration.
pub open spec fn remaining_secs(count: nat, total: nat, elapsed: nat) -> nat
    recommends
        count <= total,
{
    if count == 0 {
        0
    } else {
        clamp_count(((total - count) * elapsed / ((count * NANOS_PER_SEC as nat) as int)) as nat)
    }
}

/// The glyph at place `i` of a glyph set.
pub open spec fn glyph_at(charset: Seq<char>, i: int) -> Seq<char> {
    charset.subrange(i, i + 1)
}

/// Sub-cell units filled when `done` of `total` is shown on `ncols` cells
/// of `nsyms` units each.
pub open spec fn block_units(done: nat, total: nat, ncols: nat, nsyms: nat) -> nat
    recommends
        total > 0,
{
    done * ncols * nsyms / total
}

/// Whole cells filled when `done` of `total` is shown on `ncols` cells.
pub open spec fn solid_cells(done: nat, total: nat, ncols: nat) -> nat
    recommends
        total > 0,
{
    ncols * done / total
}

/// The bytes that put `text` on the line `position` rows below the cursor
/// and bring the cursor back; for a file, `text` as a line of its own.
pub open spec fn frame_bytes(file: bool, position: nat, text: Seq<char>) -> Seq<char> {
    if file {
        text + "\n"@
    } else if position == 0 {
        "\r"@ + text
    } else {
        repeated("\n"@, position) + text + cursor_up_text(position)
    }
}

/// The widths after the meter width was resolved for a frame whose other
/// text is `len` characters long, on a terminal `columns` wide (zero if
/// it has no width). A fixed width wins. Else the terminal is asked when
/// the frame would be wider than the last one, or always in dynamic
/// mode: the meter gets what the terminal leaves free, or ten where the
/// terminal has no width, which is then fixed unless in dynamic mode.
pub open spec fn resolved_width(
    width: WidthModel,
    dynamic: bool,
    len: int,
    columns: nat,
) -> WidthModel {
    if width.user_ncols != -1 {
        WidthModel { ncols: width.user_ncols, ..width }
    } else if dynamic || len + width.ncols + 2 - width.bar_length > 0 {
        if columns != 0 {
            if columns - len - 3 >= 0 {
                WidthModel { ncols: clamp_width(columns - len - 3), ..width }
            } else {
                width
            }
        } else {
            WidthModel {
                ncols: 10,
                user_ncols: if dynamic {
                    width.user_ncols
                } else {
                    10
                },
                ..width
            }
        }
    } else {
        width
    }
}

impl BarModel {
    /// What every operation asks of a bar: a block family has a glyph set
    /// to draw from.
    pub open spec fn wf(self) -> bool {
        self.style.animation.is_block() ==> charset_valid(
            self.style.charset,
            self.style.charset_len,
        )
    }

    /// The bar with `glyphs` as its glyph set; the family becomes a block
    /// family.
    #[verifier::opaque]
    pub open spec fn with_charset(self, glyphs: Seq<&str>) -> BarModel {
        BarModel {
            style: StyleModel {
                charset: joined(glyphs),
                charset_len: glyphs.len(),
                animation: Animation::TqdmAscii,
                ..self.style
            },
            ..self
        }
    }

    /// The bar with the colour that `name` stands for.
    #[verifier::opaque]
    pub open spec fn with_colour(self, name: Seq<char>) -> BarModel {
        BarModel {
            style: StyleModel {
                colour: if name == no_colour() {
                    no_colour()
                } else {
                    colour_code(name)
                },
                ..self.style
            },
            ..self
        }
    }

    /// The bar with `desc` as its description.
    #[verifier::opaque]
    pub open spec fn described(self, desc: Seq<char>) -> BarModel {
        BarModel { config: ConfigModel { desc, ..self.config }, ..self }
    }

    /// The bar with `postfix` shown after a comma behind its statistics.
    #[verifier::opaque]
    pub open spec fn with_postfix(self, postfix: Seq<char>) -> BarModel {
        BarModel { config: ConfigModel { postfix: ", "@ + postfix, ..self.config }, ..self }
    }

    /// The bar with its own colour resolved.
    pub open spec fn recoloured(self) -> BarModel {
        self.with_colour(self.style.colour)
    }

    /// The bar with the glyphs of its animation family in place.
    #[verifier::opaque]
    pub open spec fn styled(self) -> BarModel {
        if self.config.ascii {
            self.with_charset(tqdm_ascii_glyphs())
        } else {
            match self.style.animation {
                Animation::Tqdm => self.with_charset(tqdm_glyphs()),
                Animation::FillUp => self.with_charset(fillup_glyphs()),
                Animation::Classic => BarModel {
                    style: StyleModel { charset: "#"@, fill: "."@, ..self.style },
                    ..self
                },
                Animation::Arrow => BarModel {
                    style: StyleModel { charset: "="@, ..self.style },
                    ..self
                },
                Animation::FiraCode => BarModel {
                    style: StyleModel {
                        charset: "\u{EE04}"@,
                        fill: "\u{EE01}"@,
                        spinner: Spinner { frames: SpinnerFrames::FiraCode, turn: 0 },
                        ..self.style
                    },
                    ..self
                },
                Animation::TqdmAscii => self,
            }
        }
    }

    /// The bar with its counter at the initial value, and with its width
    /// taken as fixed if it is not the default.
    #[verifier::opaque]
    pub open spec fn rewound(self) -> BarModel {
        BarModel {
            run: RunModel { n: self.config.initial, ..self.run },
            width: WidthModel {
                user_ncols: if self.width.ncols != 10 {
                    self.width.ncols
                } else {
                    self.width.user_ncols
                },
                ..self.width
            },
            ..self
        }
    }

    /// The bar with its next render forced if every call is to render.
    #[verifier::opaque]
    pub open spec fn primed(self) -> BarModel {
        BarModel {
            run: RunModel {
                force_refresh: self.run.force_refresh || self.config.max_fps,
                ..self.run
            },
            ..self
        }
    }

    /// The bar made ready for its first advance: the counter at its
    /// initial value, a width other than the default taken as fixed, colour
    /// and glyphs resolved, and the next render forced if every call is to
    /// render.
    pub open spec fn initialised(self) -> BarModel {
        self.rewound().recoloured().styled().primed()
    }

    /// The bar with its clock started at `now`.
    #[verifier::opaque]
    pub open spec fn clocked(self, now: nat) -> BarModel {
        BarModel {
            run: RunModel { timer: now, elapsed_time: 0, started: true, ..self.run },
            ..self
        }
    }

    /// The bar running: unchanged if it runs already, else initialised with
    /// its clock started at `now`.
    pub open spec fn started_at(self, now: nat) -> BarModel {
        if self.run.started {
            self
        } else {
            self.initialised().clocked(now)
        }
    }

    /// The bar with `inc` more on its counter.
    #[verifier::opaque]
    pub open spec fn counted(self, inc: nat) -> BarModel {
        BarModel { run: RunModel { n: self.run.n + inc, ..self.run }, ..self }
    }

    /// Nanoseconds since the clock was started.
    pub open spec fn elapsed_at(self, now: nat) -> nat {
        if now >= self.run.timer {
            (now - self.run.timer) as nat
        } else {
            0
        }
    }

    /// The time gate: the minimum interval has passed since the last render.
    pub open spec fn time_gate(self, now: nat) -> bool {
        self.config.mininterval <= self.elapsed_at(now) - self.run.elapsed_time
    }

    /// The iteration gate: the counter is a multiple of the minimum
    /// iteration interval, or that interval is at most one.
    pub open spec fn iter_gate(self) -> bool {
        self.run.miniters <= 1 || self.run.n % self.run.miniters == 0
    }

    /// The startup delay has passed.
    pub open spec fn delay_gate(self, now: nat) -> bool {
        self.config.delay <= self.elapsed_at(now)
    }

    /// Whether a render is due: all three gates pass, or the counter has
    /// reached the total, or a refresh is forced.
    pub open spec fn render_due(self, now: nat) -> bool {
        (self.time_gate(now) && self.iter_gate() && self.delay_gate(now)) || self.run.n == self.run.total
            || self.run.force_refresh
    }

    /// The bar with its iteration interval widened by `inc` if it adjusts
    /// itself and the time gate fails at `now`.
    #[verifier::opaque]
    pub open spec fn paced(self, inc: nat, now: nat) -> BarModel {
        if self.config.dynamic_miniters && !self.time_gate(now) {
            BarModel { run: RunModel { miniters: self.run.miniters + inc, ..self.run }, ..self }
        } else {
            self
        }
    }

    /// The bar with its iteration interval back at zero if it adjusts
    /// itself.
    #[verifier::opaque]
    pub open spec fn settled(self) -> BarModel {
        if self.config.dynamic_miniters {
            BarModel { run: RunModel { miniters: 0, ..self.run }, ..self }
        } else {
            self
        }
    }

    /// The bar with the time of a render at `now` noted, and the rate after
    /// `count` iterations.
    #[verifier::opaque]
    pub open spec fn timed(self, count: nat, now: nat) -> BarModel {
        BarModel {
            run: RunModel {
                elapsed_time: self.elapsed_at(now),
                its_per: rate_whole(count, self.elapsed_at(now)),
                ..self.run
            },
            ..self
        }
    }

    /// The right segment for the count `i` after `elapsed` nanoseconds.
    pub open spec fn rbar_text(self, i: nat, elapsed: nat) -> Seq<char> {
        " "@ + count_text(i, self.config.unit_scale, self.config.unit_divisor) + "/"@ + count_text(
            self.run.total,
            self.config.unit_scale,
            self.config.unit_divisor,
        ) + " ["@ + interval_text(elapsed / NANOS_PER_SEC as nat, false) + "<"@ + interval_text(
            remaining_secs(i, self.run.total, elapsed),
            false,
        ) + ", "@ + rate_text(i, elapsed, self.config.unit_scale, self.config.unit_divisor) + self.config.unit + "/s"@
            + self.config.postfix + "]"@
    }

    /// The whole frame of a bar without a total: spinner glyph,
    /// description, count, and the statistics in brackets.
    pub open spec fn unknown_text(self, i: nat, elapsed: nat) -> Seq<char> {
        self.style.spinner.current() + " "@ + desc_text(self.config.desc) + count_text(
            i,
            self.config.unit_scale,
            self.config.unit_divisor,
        ) + " ["@ + interval_text(elapsed / NANOS_PER_SEC as nat, false) + ", "@ + rate_text(
            i,
            elapsed,
            self.config.unit_scale,
            self.config.unit_divisor,
        ) + self.config.unit + "/s"@ + self.config.postfix + "]"@
    }

    /// The bar with its spinner moved one place on.
    #[verifier::opaque]
    pub open spec fn spun(self) -> BarModel {
        BarModel {
            style: StyleModel { spinner: self.style.spinner.advanced(), ..self.style },
            ..self
        }
    }

    /// The bar with its meter width resolved for a frame whose other text
    /// is `len` characters long, on a terminal `columns` wide (zero if it
    /// has no width).
    #[verifier::opaque]
    pub open spec fn with_ncols(self, len: int, columns: nat) -> BarModel {
        BarModel {
            width: resolved_width(self.width, self.config.dynamic_ncols, len, columns),
            ..self
        }
    }

    /// The bar with `width` noted as the width of its last frame.
    #[verifier::opaque]
    pub open spec fn measured(self, width: int) -> BarModel {
        BarModel { width: WidthModel { bar_length: clamp_width(width), ..self.width }, ..self }
    }

    /// The glyph run of the meter when `done` of the total is shown.
    pub open spec fn meter_run(self, done: nat) -> Seq<char>
        recommends
            self.width.ncols > 0,
            self.run.total > 0,
            done <= self.run.total,
            self.wf(),
    {
        let ncols = self.width.ncols as nat;
        match self.style.animation {
            Animation::TqdmAscii | Animation::Tqdm | Animation::FillUp => {
                let nsyms = (self.style.charset_len - 1) as nat;
                let units = block_units(done, self.run.total, ncols, nsyms);
                let full = units / nsyms;
                let part = units % nsyms;
                repeated(glyph_at(self.style.charset, self.style.charset.len() - 1), full) + (if full
                    < ncols {
                    glyph_at(self.style.charset, (part + 1) as int) + repeated(
                        self.style.fill,
                        (ncols - full - 1) as nat,
                    )
                } else {
                    Seq::empty()
                })
            },
            Animation::Classic | Animation::FiraCode => {
                let cells = solid_cells(done, self.run.total, ncols);
                repeated(self.style.charset, cells) + repeated(self.style.fill, (ncols - cells) as nat)
            },
            Animation::Arrow => {
                let cells = solid_cells(done, self.run.total, ncols);
                repeated(self.style.charset, cells) + (if cells < ncols {
                    ">"@ + repeated(self.style.fill, (ncols - cells - 1) as nat)
                } else {
                    Seq::empty()
                })
            },
        }
    }

    /// The glyph run, wrapped in the colour sequence and its reset when a
    /// colour is set.
    pub open spec fn coloured_run(self, done: nat) -> Seq<char> {
        if self.style.colour == no_colour() {
            self.meter_run(done)
        } else {
            self.style.colour + self.meter_run(done) + COLOUR_RESET@
        }
    }

    /// The meter segment: the glyph run between the brackets of its family.
    pub open spec fn meter_text(self, done: nat) -> Seq<char> {
        match self.style.animation {
            Animation::TqdmAscii | Animation::Tqdm | Animation::FillUp => "|"@
                + self.coloured_run(done) + "|"@,
            Animation::Classic | Animation::Arrow => "["@ + self.coloured_run(done) + "]"@,
            Animation::FiraCode => "\u{EE03}"@ + self.coloured_run(done) + (if done
                >= self.run.total {
                "\u{EE05}"@
            } else {
                "\u{EE02}"@
            }),
        }
    }

    /// Blanks as wide as the last frame.
    pub open spec fn blank_text(self) -> Seq<char> {
        repeated(
            " "@,
            if self.width.bar_length > 0 {
                self.width.bar_length as nat
            } else {
                0
            },
        )
    }

    /// The bar after rendering the count `i` at `now`, and the left, meter
    /// and right segments. A finished bar that is not to be left on screen
    /// renders blanks over its last frame instead. The meter is left out
    /// where no cell is left for it.
    pub open spec fn rendered(self, i: nat, now: nat, columns: nat) -> (
        BarModel,
        (Seq<char>, Seq<char>, Seq<char>),
    )
        recommends
            self.run.total > 0,
    {
        if i >= self.run.total && !self.config.leave {
            (self, (self.blank_text(), ""@, "\r"@))
        } else {
            let shown = progress_done(i, self.run.total);
            let lbar = lbar_text(self.config.desc, i, self.run.total);
            let rbar = self.rbar_text(shown, self.elapsed_at(now));
            let sized = self.timed(shown, now).with_ncols(
                clamp_width((1 + lbar.len() + rbar.len()) as int),
                columns,
            );
            if sized.width.ncols <= 0 {
                (sized, (lbar, ""@, rbar))
            } else {
                (sized, (lbar, sized.meter_text(shown), rbar))
            }
        }
    }

    /// The bar after rendering a frame at `now`, and the text of the frame.
    pub open spec fn framed(self, now: nat, columns: nat) -> (BarModel, Seq<char>) {
        if self.run.total != 0 {
            let (bar, (lbar, mbar, rbar)) = self.rendered(self.run.n, now, columns);
            (bar.measured(lbar.len() + rbar.len() + bar.width.ncols + 2), lbar + mbar + rbar)
        } else {
            let text = self.unknown_text(self.run.n, self.elapsed_at(now));
            (self.timed(self.run.n, now).spun().measured(text.len() as int), text)
        }
    }

    /// The bytes that put `text` on this bar's line.
    pub open spec fn positioned(self, text: Seq<char>) -> Seq<char> {
        frame_bytes(self.config.file, self.config.position, text)
    }

    /// Whether the counter can take `inc` more at `now` within 64 bits,
    /// and the iteration interval too where it grows with it.
    pub open spec fn can_advance(self, inc: nat, now: nat) -> bool {
        &&& (if self.run.started {
            self.run.n
        } else {
            self.config.initial
        }) + inc <= u64::MAX
        &&& !self.config.disable && self.config.dynamic_miniters && !(if self.run.started {
            self.time_gate(now)
        } else {
            self.config.mininterval == 0
        }) ==> self.run.miniters + inc <= u64::MAX
    }

    /// The bar after an advance by `inc` at `now`, and the text of the
    /// frame to write, if any. The first advance starts the bar. The
    /// counter moves in any case; a frame is rendered when one is due.
    /// With dynamic adjustment a failed time gate widens the iteration
    /// interval by `inc`, and a render resets it.
    pub open spec fn advanced(self, inc: nat, now: nat, columns: nat) -> (
        BarModel,
        Option<Seq<char>>,
    ) {
        let counted = self.started_at(now).counted(inc);
        if counted.config.disable {
            (counted, None)
        } else {
            let paced = counted.paced(inc, now);
            if paced.render_due(now) {
                let (bar, text) = paced.settled().framed(now, columns);
                (bar, Some(bar.positioned(text)))
            } else {
                (paced, None)
            }
        }
    }

    /// The bar with its next render forced, or not.
    #[verifier::opaque]
    pub open spec fn forced(self, force: bool) -> BarModel {
        BarModel { run: RunModel { force_refresh: force, ..self.run }, ..self }
    }

    /// The bar after a forced refresh at `now`, and the bytes to write.
    pub open spec fn refreshed(self, now: nat, columns: nat) -> (BarModel, Option<Seq<char>>) {
        let (bar, out) = self.forced(true).advanced(0, now, columns);
        (bar.forced(false), out)
    }

    /// The bytes that blank the bar's line and return the cursor to its
    /// first column: as wide as the last frame, or as the terminal where
    /// no frame was written yet. Nothing for a file.
    pub open spec fn cleared(self, columns: nat) -> Option<Seq<char>> {
        if self.config.file {
            None
        } else {
            Some(
                "\r"@ + repeated(
                    " "@,
                    if self.width.bar_length > 0 {
                        self.width.bar_length as nat
                    } else {
                        columns
                    },
                ) + "\r"@,
            )
        }
    }

    /// The bar stopped, to start anew at its next advance, with a new
    /// total if one is given.
    #[verifier::opaque]
    pub open spec fn reset_to(self, total: Option<u64>) -> BarModel {
        BarModel {
            run: RunModel {
                started: false,
                total: match total {
                    Some(t) => t as nat,
                    None => self.run.total,
                },
                ..self.run
            },
            ..self
        }
    }

    /// The bar after a redraw that follows an interjection: a refresh if
    /// the bar is to be left on screen, else nothing.
    pub open spec fn resumed(self, now: nat, columns: nat) -> (BarModel, Option<Seq<char>>) {
        if self.config.leave {
            self.refreshed(now, columns)
        } else {
            (self, None)
        }
    }

    /// The bar with its counter at `position`.
    #[verifier::opaque]
    pub open spec fn placed(self, position: nat) -> BarModel {
        BarModel { run: RunModel { n: position, ..self.run }, ..self }
    }

    /// The bar with its counter at `position`, whatever it was before, and
    /// advanced by nothing: a bar that does not run yet is started first,
    /// so that the start does not undo the move.
    pub open spec fn moved_to(self, position: nat, now: nat, columns: nat) -> (
        BarModel,
        Option<Seq<char>>,
    ) {
        self.started_at(now).placed(position).advanced(0, now, columns)
    }

    /// Whether the counter has reached the total.
    pub open spec fn completed(self) -> bool {
        self.run.n == self.run.total
    }
}

/// Starting a bar leaves its configuration, total and iteration interval
/// as they are, puts the counter at its initial value and the clock at
/// `now`, and keeps a bar well formed. A bar that runs already stays as
/// it is.
pub proof fn lemma_started_at(m: BarModel, now: nat)
    ensures
        m.run.started ==> m.started_at(now) == m,
        m.started_at(now).config == m.config,
        m.started_at(now).run.started,
        m.started_at(now).run.total == m.run.total,
        m.started_at(now).run.miniters == m.run.miniters,
        m.started_at(now).width.ncols == m.width.ncols,
        m.started_at(now).width.bar_length == m.width.bar_length,
        !m.run.started ==> {
            &&& m.started_at(now).run.n == m.config.initial
            &&& m.started_at(now).run.timer == now
            &&& m.started_at(now).run.elapsed_time == 0
            &&& m.started_at(now).run.force_refresh == (m.run.force_refresh || m.config.max_fps)
        },
        m.wf() ==> m.started_at(now).wf(),
{
    reveal(BarModel::rewound);
    reveal(BarModel::with_colour);
    reveal(BarModel::styled);
    reveal(BarModel::with_charset);
    reveal(BarModel::primed);
    reveal(BarModel::clocked);
    crate::styles::lemma_presets_len();
}

/// Noting the time of a render and resolving the width touch neither
/// configuration, look nor total.
pub proof fn lemma_sized(m: BarModel, count: nat, now: nat, len: int, columns: nat)
    ensures
        m.timed(count, now).with_ncols(len, columns).config == m.config,
        m.timed(count, now).with_ncols(len, columns).style == m.style,
        m.timed(count, now).with_ncols(len, columns).run.total == m.run.total,
        m.timed(count, now).with_ncols(len, columns).run.n == m.run.n,
        m.timed(count, now).with_ncols(len, columns).run.timer == m.run.timer,
        m.timed(count, now).with_ncols(len, columns).run.elapsed_time == m.elapsed_at(now),
        m.timed(count, now).with_ncols(len, columns).run.force_refresh == m.run.force_refresh,
        m.timed(count, now).with_ncols(len, columns).run.started == m.run.started,
        m.timed(count, now).with_ncols(len, columns).run.miniters == m.run.miniters,
{
    reveal(BarModel::timed);
    reveal(BarModel::with_ncols);
}

/// Rendering a frame touches neither configuration, counter, total nor
/// clock, and keeps a bar well formed.
pub proof fn lemma_framed(m: BarModel, now: nat, columns: nat)
    ensures
        m.framed(now, columns).0.config == m.config,
        m.framed(now, columns).0.run.total == m.run.total,
        m.framed(now, columns).0.run.n == m.run.n,
        m.framed(now, columns).0.run.timer == m.run.timer,
        m.framed(now, columns).0.run.started == m.run.started,
        m.framed(now, columns).0.run.miniters == m.run.miniters,
        m.framed(now, columns).0.run.force_refresh == m.run.force_refresh,
        m.framed(now, columns).0.style.animation == m.style.animation,
        m.framed(now, columns).0.style.charset == m.style.charset,
        m.framed(now, columns).0.style.charset_len == m.style.charset_len,
        m.framed(now, columns).0.style.colour == m.style.colour,
        m.wf() ==> m.framed(now, columns).0.wf(),
        m.run.total == 0 || m.config.leave || m.run.n < m.run.total ==> m.framed(
            now,
            columns,
        ).0.run.elapsed_time == m.elapsed_at(now),
{
    reveal(BarModel::timed);
    reveal(BarModel::with_ncols);
    reveal(BarModel::spun);
    reveal(BarModel::measured);
}

/// An advance touches neither configuration nor total, leaves a running
/// clock as it is, and keeps a bar well formed.
pub proof fn lemma_advanced(m: BarModel, inc: nat, now: nat, columns: nat)
    ensures
        m.advanced(inc, now, columns).0.config == m.config,
        m.advanced(inc, now, columns).0.run.total == m.run.total,
        m.advanced(inc, now, columns).0.run.started,
        m.advanced(inc, now, columns).0.run.n == m.started_at(now).run.n + inc,
        m.advanced(inc, now, columns).0.run.timer == m.started_at(now).run.timer,
        m.advanced(inc, now, columns).0.run.force_refresh == m.started_at(
            now,
        ).run.force_refresh,
        m.wf() ==> m.advanced(inc, now, columns).0.wf(),
{
    lemma_started_at(m, now);
    let counted = m.started_at(now).counted(inc);
    let paced = counted.paced(inc, now);
    lemma_framed(paced.settled(), now, columns);
    reveal(BarModel::counted);
    reveal(BarModel::paced);
    reveal(BarModel::settled);
}

} // verus!
