//! The progress bar: its state, and the operations that advance it and
//! render its frames.
//!
//! A bar neither reads a clock nor writes to a terminal. Each operation
//! takes the current time and the terminal's width as arguments and hands
//! back the bytes to write, so that every frame is a function of the
//! bar's state and of these two readings.

use vstd::prelude::*;
use vstd::string::*;
use crate::model::{
    charset_valid,
    clamp_width,
    count_text,
    desc_text,
    glyph_at,
    lbar_text,
    lemma_advanced,
    lemma_sized,
    lemma_started_at,
    no_colour,
    progress_done,
    rate_text,
    resolved_width,
    BarModel,
    ConfigModel,
    RunModel,
    StyleModel,
    WidthModel,
};
use crate::progress::{cells_of, done_of, percent_of, remaining, units_of, whole_rate};
use crate::styles::format::{push_fixed, push_interval, push_sizeof, NANOS_PER_SEC};
use crate::styles::{
    fillup_charset,
    join,
    joined,
    lemma_presets_len,
    tqdm_ascii_charset,
    tqdm_charset,
    tqdm_glyphs,
    Animation,
    Output,
    Spinner,
    SpinnerFrames,
};
use crate::term::{push_cursor_up, same_text, COLOUR_RESET};
use crate::text::{push_decimal, push_repeated, repeated};

verus! {

/// What a bar remembers between renders.
#[derive(Debug)]
pub struct BarInternal {
    /// Whether the bar was advanced since it was made or reset.
    pub started: bool,
    /// Nanoseconds on the bar's clock at its last render.
    pub elapsed_time: u64,
    /// Whole iterations per second at the last render.
    pub its_per: u64,
    /// Width of the last frame.
    pub bar_length: i16,
    /// The fixed meter width, or -1 for none.
    pub user_ncols: i16,
    /// The glyphs of the meter, one after another.
    pub charset: String,
    /// Number of glyphs in `charset`.
    pub charset_len: u64,
    /// Timestamp at which the bar's clock was started.
    pub timer: u64,
    /// Whether the next advance renders whatever the gates say.
    pub force_refresh: bool,
    /// The glyph cycle of a bar without a total.
    pub spinner: Spinner,
}

/// Standard progress bar.
///
/// With a total the bar shows percentage, meter, counts, elapsed and
/// remaining time and rate. With a total of zero it shows a spinner,
/// the count, elapsed time and rate.
#[derive(Debug)]
pub struct Bar {
    /// Prefix for the progress bar.
    /// (default: `""`)
    pub desc: String,
    /// The number of expected iterations.
    /// If 0, only basic progress statistics are displayed (no ETA, no progressbar).
    /// (default: `0`)
    pub total: u64,
    /// If true, keeps all traces of the progressbar upon termination of iteration.
    /// (default: `true`)
    pub leave: bool,
    /// If true, frames are lines for a file: no cursor movement is written.
    /// (default: `false`)
    pub file: bool,
    /// The width of the meter.
    /// If left at the default, the meter fills what the terminal leaves free,
    /// with a fallback of 10. If 0 or less, no meter is printed (only stats).
    /// (default: `10`)
    pub ncols: i16,
    /// Minimum progress display update interval, in nanoseconds.
    /// (default: 0.1 s)
    pub mininterval: u64,
    /// Minimum progress display update interval, in iterations.
    /// (default: `1`)
    pub miniters: u64,
    /// Automatically adjusts miniters to correspond to mininterval after long display update lag.
    /// (default: `false`)
    pub dynamic_miniters: bool,
    /// If false, use unicode (smooth blocks) to fill the meter.
    /// If true, use ASCII characters "123456789#" to fill the meter.
    /// (default: `false`)
    pub ascii: bool,
    /// Whether to disable the entire progress bar wrapper.
    /// (default: `false`)
    pub disable: bool,
    /// String that will be used to define the unit of each iteration.
    /// (default: `"it"`)
    pub unit: String,
    /// If true, the number of iterations will be scaled automatically
    /// and a metric prefix will be added (kilo, mega, etc.).
    /// (default: `false`)
    pub unit_scale: bool,
    /// If true, constantly alters ncols to the width of the terminal (allowing for window resizes).
    /// (default: `false`)
    pub dynamic_ncols: bool,
    /// The initial counter value. Useful when restarting a progress bar.
    /// (default: `0`)
    pub initial: u64,
    /// Specify the line offset to print this bar (starting from 0).
    /// Useful to manage multiple bars at once (eg, from threads).
    /// (default: `0`)
    pub position: u16,
    /// Specify additional stats to display at the end of the bar.
    /// (default: `""`)
    pub postfix: String,
    /// Ignored unless unit_scale is true.
    /// (default: `1000`)
    pub unit_divisor: u64,
    /// Bar colour (e.g. "green", "#00ff00"), or "default" for none.
    /// (default: `"default"`)
    pub colour: String,
    /// Don't display until this many nanoseconds have elapsed.
    /// (default: `0`)
    pub delay: u64,
    /// Fill incompleted progress bar with a character.
    /// (default: `" "`)
    pub fill: String,
    /// Defines the animation style to use with progress bar.
    /// (default: `Animation::TqdmAscii`)
    pub animation: Animation,
    /// Select where to display progress bar output between stdout and stderr.
    /// (default: `Output::Stderr`)
    pub output: Output,
    /// If true, each update method call will be rendered.
    /// (default: `false`)
    pub max_fps: bool,
    /// Counter of progress bar.
    /// (default: `0`)
    pub n: u64,
    /// Variables for internal use.
    pub internal: BarInternal,
}

impl View for Bar {
    type V = BarModel;

    /// The state of the bar as plain values.
    open spec fn view(&self) -> BarModel {
        BarModel {
            config: ConfigModel {
                desc: self.desc@,
                leave: self.leave,
                file: self.file,
                mininterval: self.mininterval as nat,
                dynamic_miniters: self.dynamic_miniters,
                ascii: self.ascii,
                disable: self.disable,
                unit: self.unit@,
                unit_scale: self.unit_scale,
                dynamic_ncols: self.dynamic_ncols,
                initial: self.initial as nat,
                position: self.position as nat,
                postfix: self.postfix@,
                unit_divisor: self.unit_divisor as nat,
                delay: self.delay as nat,
                output: self.output,
                max_fps: self.max_fps,
            },
            style: StyleModel {
                colour: self.colour@,
                fill: self.fill@,
                animation: self.animation,
                charset: self.internal.charset@,
                charset_len: self.internal.charset_len as nat,
                spinner: self.internal.spinner,
            },
            width: WidthModel {
                ncols: self.ncols as int,
                user_ncols: self.internal.user_ncols as int,
                bar_length: self.internal.bar_length as int,
            },
            run: RunModel {
                total: self.total as nat,
                n: self.n as nat,
                miniters: self.miniters as nat,
                started: self.internal.started,
                timer: self.internal.timer as nat,
                elapsed_time: self.internal.elapsed_time as nat,
                its_per: self.internal.its_per as nat,
                force_refresh: self.internal.force_refresh,
            },
        }
    }
}

/// What writing a message through a bar asks to be written: the bytes
/// that clear the bar's line, the message for standard output, and the
/// bytes that redraw the bar.
#[derive(Debug)]
pub struct Interjection {
    pub clear: Option<String>,
    pub message: String,
    pub redraw: Option<String>,
}

/// What one turn of monitor mode found.
#[derive(Debug)]
pub enum MonitorStep {
    /// The counter has reached the total.
    Finished,
    /// The bar was refreshed, with these bytes to write: by its owner's
    /// monitor because the counter stood still, by the monitor of a shared
    /// bar at every turn, whether the counter moved or not.
    Refreshed(Option<String>),
    /// The counter moved on, to this count.
    Moved(u64),
}

/// The characters of the bytes to write, if there are any.
pub open spec fn text_view(out: Option<String>) -> Option<Seq<char>> {
    match out {
        Some(text) => Some(text@),
        None => None,
    }
}

/// A bar as it is made: every option at its default, nothing counted yet.
pub open spec fn fresh(total: nat) -> BarModel {
    BarModel {
        config: ConfigModel {
            desc: ""@,
            leave: true,
            file: false,
            mininterval: 100_000_000,
            dynamic_miniters: false,
            ascii: false,
            disable: false,
            unit: "it"@,
            unit_scale: false,
            dynamic_ncols: false,
            initial: 0,
            position: 0,
            postfix: ""@,
            unit_divisor: 1000,
            delay: 0,
            output: Output::Stderr,
            max_fps: false,
        },
        style: StyleModel {
            colour: no_colour(),
            fill: " "@,
            animation: Animation::TqdmAscii,
            charset: joined(tqdm_glyphs()),
            charset_len: 8,
            spinner: Spinner { frames: SpinnerFrames::Classic, turn: 0 },
        },
        width: WidthModel { ncols: 10, user_ncols: -1, bar_length: 0 },
        run: RunModel {
            total,
            n: 0,
            miniters: 1,
            started: false,
            timer: 0,
            elapsed_time: 0,
            its_per: 0,
            force_refresh: false,
        },
    }
}

impl Default for BarInternal {
    /// What a bar that was never advanced remembers: nothing yet.
    fn default() -> (internal: BarInternal)
        ensures
            !internal.started,
            internal.elapsed_time == 0,
            internal.its_per == 0,
            internal.bar_length == 0,
            internal.user_ncols == -1,
            internal.charset@ == joined(tqdm_glyphs()),
            internal.charset_len == 8,
            internal.timer == 0,
            !internal.force_refresh,
            internal.spinner == (Spinner { frames: SpinnerFrames::Classic, turn: 0 }),
    {
        let glyphs = tqdm_charset();
        BarInternal {
            started: false,
            elapsed_time: 0,
            its_per: 0,
            bar_length: 0,
            user_ncols: -1,
            charset: join(&glyphs),
            charset_len: 8,
            timer: 0,
            force_refresh: false,
            spinner: Spinner::new(SpinnerFrames::Classic),
        }
    }
}

impl Default for Bar {
    /// A bar without a total, every option at its default.
    fn default() -> (bar: Bar)
        ensures
            bar@ == fresh(0),
            bar@.wf(),
    {
        Bar::new(0)
    }
}

impl Bar {
    /// Create a new bar with a total value.
    /// A total of zero stands for an unknown total.
    pub fn new(total: u64) -> (bar: Bar)
        ensures
            bar@ == fresh(total as nat),
            bar@.wf(),
    {
        proof {
            lemma_presets_len();
        }
        Bar {
            desc: String::from_str(""),
            total,
            leave: true,
            file: false,
            ncols: 10,
            mininterval: 100_000_000,
            miniters: 1,
            dynamic_miniters: false,
            ascii: false,
            disable: false,
            unit: String::from_str("it"),
            unit_scale: false,
            dynamic_ncols: false,
            initial: 0,
            position: 0,
            postfix: String::from_str(""),
            unit_divisor: 1000,
            colour: String::from_str("default"),
            delay: 0,
            fill: String::from_str(" "),
            animation: Animation::TqdmAscii,
            output: Output::Stderr,
            max_fps: false,
            n: 0,
            internal: BarInternal::default(),
        }
    }

    /// Set/Modify description of the progress bar.
    pub fn set_description(&mut self, desc: String)
        ensures
            final(self)@ == old(self)@.described(desc@),
            old(self)@.wf() ==> final(self)@.wf(),
    {
        proof {
            reveal(BarModel::described);
        }
        self.desc = desc;
    }

    /// Set/Modify postfix (additional stats): shown after a comma.
    pub fn set_postfix(&mut self, postfix: String)
        ensures
            final(self)@ == old(self)@.with_postfix(postfix@),
            old(self)@.wf() ==> final(self)@.wf(),
    {
        proof {
            reveal(BarModel::with_postfix);
        }
        let mut text = String::from_str(", ");
        text.append(postfix.as_str());
        self.postfix = text;
    }

    /// Set/Modify colour of the progress bar: "default" for none, else a
    /// name that is resolved to its escape sequence.
    pub fn set_colour(&mut self, colour: &str)
        ensures
            final(self)@ == old(self)@.with_colour(colour@),
            old(self)@.wf() ==> final(self)@.wf(),
    {
        proof {
            reveal(BarModel::with_colour);
        }
        if same_text(colour, "default") {
            self.colour = String::from_str("default");
        } else {
            self.colour = crate::term::colour(colour);
        }
    }

    /// Set/Modify charset of the progress bar.
    pub fn set_charset(&mut self, charset: &[&str])
        requires
            charset_valid(joined(charset@), charset@.len()),
        ensures
            final(self)@ == old(self)@.with_charset(charset@),
            final(self)@.wf(),
    {
        proof {
            reveal(BarModel::with_charset);
        }
        self.internal.charset = join(charset);
        self.internal.charset_len = charset.len() as u64;
        self.animation = Animation::TqdmAscii;
    }

    /// Resets to initial iterations for repeated use.
    /// Consider combining with `leave=true`.
    pub fn reset(&mut self, total: Option<u64>)
        ensures
            final(self)@ == old(self)@.reset_to(total),
            old(self)@.wf() ==> final(self)@.wf(),
    {
        proof {
            reveal(BarModel::reset_to);
        }
        self.internal.started = false;
        match total {
            Some(t) => {
                self.total = t;
            },
            None => {},
        }
    }

    /// Whether the counter has reached the total.
    pub fn completed(&self) -> (done: bool)
        ensures
            done == self@.completed(),
    {
        self.n == self.total
    }

    /// Puts the glyphs of the animation family in place.
    fn style(&mut self)
        ensures
            final(self)@ == old(self)@.styled(),
    {
        proof {
            reveal(BarModel::styled);
            lemma_presets_len();
        }
        if self.ascii {
            let glyphs = tqdm_ascii_charset();
            self.set_charset(&glyphs);
        } else {
            match self.animation {
                Animation::Tqdm => {
                    let glyphs = tqdm_charset();
                    self.set_charset(&glyphs);
                },
                Animation::FillUp => {
                    let glyphs = fillup_charset();
                    self.set_charset(&glyphs);
                },
                Animation::Classic => {
                    self.internal.charset = String::from_str("#");
                    self.fill = String::from_str(".");
                },
                Animation::Arrow => {
                    self.internal.charset = String::from_str("=");
                },
                Animation::FiraCode => {
                    self.internal.charset = String::from_str("\u{EE04}");
                    self.fill = String::from_str("\u{EE01}");
                    self.internal.spinner = Spinner::new(SpinnerFrames::FiraCode);
                },
                Animation::TqdmAscii => {},
            }
        }
    }

    /// Puts the counter back to its initial value, and takes a width
    /// other than the default as fixed.
    fn rewind(&mut self)
        ensures
            final(self)@ == old(self)@.rewound(),
    {
        proof {
            reveal(BarModel::rewound);
        }
        self.n = self.initial;
        if self.ncols != 10 {
            self.internal.user_ncols = self.ncols;
        }
    }

    /// Forces the next render if every call is to render.
    fn prime(&mut self)
        ensures
            final(self)@ == old(self)@.primed(),
    {
        proof {
            reveal(BarModel::primed);
        }
        if self.max_fps {
            self.internal.force_refresh = true;
        }
    }

    /// Initialize struct values.
    fn init(&mut self)
        ensures
            final(self)@ == old(self)@.initialised(),
    {
        self.rewind();
        let name = self.colour.clone();
        self.set_colour(name.as_str());
        self.style();
        self.prime();
    }

    /// Starts the clock at `now`.
    fn clock(&mut self, now: u64)
        ensures
            final(self)@ == old(self)@.clocked(now as nat),
    {
        proof {
            reveal(BarModel::clocked);
        }
        self.internal.timer = now;
        self.internal.elapsed_time = 0;
        self.internal.started = true;
    }

    /// Starts the bar at `now` unless it runs already.
    fn start(&mut self, now: u64)
        ensures
            final(self)@ == old(self)@.started_at(now as nat),
    {
        if !self.internal.started {
            self.init();
            self.clock(now);
        }
    }

    /// Adds `inc` to the counter.
    fn count(&mut self, inc: u64)
        requires
            old(self).n + inc <= u64::MAX,
        ensures
            final(self)@ == old(self)@.counted(inc as nat),
    {
        proof {
            reveal(BarModel::counted);
        }
        self.n = self.n + inc;
    }

    /// Nanoseconds since the clock was started.
    fn elapsed(&self, now: u64) -> (e: u64)
        ensures
            e == self@.elapsed_at(now as nat),
    {
        if now >= self.internal.timer {
            now - self.internal.timer
        } else {
            0
        }
    }

    /// Whether the minimum interval has passed since the last render.
    fn time_gate(&self, now: u64) -> (open: bool)
        ensures
            open == self@.time_gate(now as nat),
    {
        let e = self.elapsed(now);
        e >= self.internal.elapsed_time && self.mininterval <= e - self.internal.elapsed_time
    }

    /// Whether a render is due at `now`.
    fn render_due(&self, now: u64) -> (due: bool)
        ensures
            due == self@.render_due(now as nat),
    {
        let iter_gate = self.miniters <= 1 || self.n % self.miniters == 0;
        (self.time_gate(now) && iter_gate && self.delay <= self.elapsed(now)) || self.n
            == self.total || self.internal.force_refresh
    }

    /// Widens the iteration interval by `inc` where the bar adjusts it and
    /// the time gate fails.
    fn pace(&mut self, inc: u64, now: u64)
        requires
            old(self).dynamic_miniters && !old(self)@.time_gate(now as nat) ==> old(self).miniters
                + inc <= u64::MAX,
        ensures
            final(self)@ == old(self)@.paced(inc as nat, now as nat),
    {
        proof {
            reveal(BarModel::paced);
        }
        if self.dynamic_miniters && !self.time_gate(now) {
            self.miniters = self.miniters + inc;
        }
    }

    /// Puts the iteration interval back to zero where the bar adjusts it.
    fn settle(&mut self)
        ensures
            final(self)@ == old(self)@.settled(),
    {
        proof {
            reveal(BarModel::settled);
        }
        if self.dynamic_miniters {
            self.miniters = 0;
        }
    }

    /// Notes the time of a render at `now` and the rate after `count`
    /// iterations.
    fn time(&mut self, count: u64, now: u64)
        ensures
            final(self)@ == old(self)@.timed(count as nat, now as nat),
    {
        proof {
            reveal(BarModel::timed);
        }
        let e = self.elapsed(now);
        self.internal.elapsed_time = e;
        self.internal.its_per = whole_rate(count, e);
    }

    /// Notes `width` as the width of the last frame.
    fn measure(&mut self, width: i64)
        ensures
            final(self)@ == old(self)@.measured(width as int),
    {
        proof {
            reveal(BarModel::measured);
        }
        self.internal.bar_length = narrowed(width);
    }

    /// Forces the next render, or stops forcing it.
    fn force(&mut self, force: bool)
        ensures
            final(self)@ == old(self)@.forced(force),
    {
        proof {
            reveal(BarModel::forced);
        }
        self.internal.force_refresh = force;
    }

    /// The left segment for the count `i`, and the part of the total that
    /// it shows as done.
    pub fn render_lbar(&self, i: u64) -> (r: (u64, String))
        requires
            self.total > 0,
        ensures
            r.0 == progress_done(i as nat, self.total as nat),
            r.0 <= self.total,
            r.1@ == lbar_text(self.desc@, i as nat, self.total as nat),
    {
        let done = done_of(i, self.total);
        let pct = percent_of(i, self.total);
        let mut text = String::from_str("");
        push_desc(&mut text, self.desc.as_str());
        if i >= self.total {
            text.append("");
        } else if pct >= 10 {
            text.append(" ");
        } else {
            text.append("  ");
        }
        push_decimal(&mut text, pct as u128);
        text.append("%");
        proof {
            reveal_strlit("");
            assert(""@ + desc_text(self.desc@) =~= desc_text(self.desc@));
        }
        (done, text)
    }

    /// The right segment for the count `i` after `elapsed` nanoseconds.
    fn rbar(&self, i: u64, elapsed: u64) -> (text: String)
        requires
            i <= self.total,
        ensures
            text@ == self@.rbar_text(i as nat, elapsed as nat),
    {
        let mut text = String::from_str(" ");
        push_count(&mut text, i, self.unit_scale, self.unit_divisor);
        text.append("/");
        push_count(&mut text, self.total, self.unit_scale, self.unit_divisor);
        text.append(" [");
        push_interval(&mut text, elapsed / NANOS_PER_SEC, false);
        text.append("<");
        push_interval(&mut text, remaining(i, self.total, elapsed), false);
        text.append(", ");
        push_rate(&mut text, i, elapsed, self.unit_scale, self.unit_divisor);
        text.append(self.unit.as_str());
        text.append("/s");
        text.append(self.postfix.as_str());
        text.append("]");
        text
    }

    /// The right segment for the count `i` at `now`; the time of the
    /// render and the rate are noted.
    pub fn render_rbar(&mut self, i: u64, now: u64) -> (text: String)
        requires
            i <= old(self).total,
        ensures
            text@ == old(self)@.rbar_text(i as nat, old(self)@.elapsed_at(now as nat)),
            final(self)@ == old(self)@.timed(i as nat, now as nat),
            old(self)@.wf() ==> final(self)@.wf(),
    {
        proof {
            reveal(BarModel::timed);
        }
        let text = self.rbar(i, self.elapsed(now));
        self.time(i, now);
        text
    }

    /// The frame of a bar without a total for the count `i` at `now`; the
    /// time of the render and the rate are noted, and the spinner moves on.
    pub fn render_unknown(&mut self, i: u64, now: u64) -> (text: String)
        ensures
            text@ == old(self)@.unknown_text(i as nat, old(self)@.elapsed_at(now as nat)),
            final(self)@ == old(self)@.timed(i as nat, now as nat).spun(),
            old(self)@.wf() ==> final(self)@.wf(),
    {
        let elapsed = self.elapsed(now);
        self.time(i, now);
        proof {
            reveal(BarModel::timed);
            reveal(BarModel::spun);
        }
        let mut text = String::from_str(self.internal.spinner.next());
        text.append(" ");
        push_desc(&mut text, self.desc.as_str());
        push_count(&mut text, i, self.unit_scale, self.unit_divisor);
        text.append(" [");
        push_interval(&mut text, elapsed / NANOS_PER_SEC, false);
        text.append(", ");
        push_rate(&mut text, i, elapsed, self.unit_scale, self.unit_divisor);
        text.append(self.unit.as_str());
        text.append("/s");
        text.append(self.postfix.as_str());
        text.append("]");
        text
    }

    /// Resolves the width of the meter for a frame whose other text is
    /// `lbar_rbar_len` characters long, on a terminal `columns` wide.
    pub fn set_ncols(&mut self, lbar_rbar_len: i16, columns: u16)
        ensures
            final(self)@ == old(self)@.with_ncols(lbar_rbar_len as int, columns as nat),
            old(self)@.wf() ==> final(self)@.wf(),
    {
        proof {
            reveal(BarModel::with_ncols);
        }
        let (ncols, user_ncols) = resolve_ncols(
            self.ncols,
            self.internal.user_ncols,
            self.internal.bar_length,
            self.dynamic_ncols,
            lbar_rbar_len,
            columns,
        );
        self.ncols = ncols;
        self.internal.user_ncols = user_ncols;
    }

    /// Appends the glyph run of the meter with `done` of the total shown.
    fn push_run(&self, buf: &mut String, done: u64)
        requires
            self@.wf(),
            self.ncols > 0,
            self.total > 0,
            done <= self.total,
        ensures
            final(buf)@ == old(buf)@ + self@.meter_run(done as nat),
    {
        let ncols: u16 = self.ncols as u16;
        match self.animation {
            Animation::TqdmAscii | Animation::Tqdm | Animation::FillUp => {
                let nsyms = self.internal.charset_len - 1;
                let units = units_of(done, self.total, ncols, nsyms);
                let full = units / (nsyms as u128);
                let part = units % (nsyms as u128);
                assert(full <= ncols) by (nonlinear_arith)
                    requires
                        full == units / (nsyms as u128),
                        units <= ncols * nsyms,
                        nsyms > 0,
                ;
                let glyphs = self.internal.charset.as_str();
                let len = glyphs.unicode_len();
                push_repeated(buf, glyphs.substring_char(len - 1, len), full as usize);
                if full < ncols as u128 {
                    let at = (part + 1) as usize;
                    buf.append(glyphs.substring_char(at, at + 1));
                    push_repeated(buf, self.fill.as_str(), (ncols as u128 - full - 1) as usize);
                    assert(buf@ =~= old(buf)@ + (repeated(
                        glyph_at(self@.style.charset, self@.style.charset.len() - 1),
                        full as nat,
                    ) + (glyph_at(self@.style.charset, part + 1) + repeated(
                        self.fill@,
                        (ncols - full - 1) as nat,
                    ))));
                } else {
                    assert(buf@ =~= old(buf)@ + (repeated(
                        glyph_at(self@.style.charset, self@.style.charset.len() - 1),
                        full as nat,
                    ) + Seq::empty()));
                }
            },
            Animation::Classic | Animation::FiraCode => {
                let cells = cells_of(done, self.total, ncols);
                push_repeated(buf, self.internal.charset.as_str(), cells as usize);
                push_repeated(buf, self.fill.as_str(), (ncols - cells) as usize);
                assert(buf@ =~= old(buf)@ + (repeated(self@.style.charset, cells as nat)
                    + repeated(self.fill@, (ncols - cells) as nat)));
            },
            Animation::Arrow => {
                let cells = cells_of(done, self.total, ncols);
                push_repeated(buf, self.internal.charset.as_str(), cells as usize);
                if cells < ncols {
                    buf.append(">");
                    push_repeated(buf, self.fill.as_str(), (ncols - cells - 1) as usize);
                    assert(buf@ =~= old(buf)@ + (repeated(self@.style.charset, cells as nat) + (
                    ">"@ + repeated(self.fill@, (ncols - cells - 1) as nat))));
                } else {
                    assert(buf@ =~= old(buf)@ + (repeated(self@.style.charset, cells as nat)
                        + Seq::empty()));
                }
            },
        }
    }

    /// Appends the glyph run, coloured if a colour is set.
    fn push_coloured_run(&self, buf: &mut String, done: u64)
        requires
            self@.wf(),
            self.ncols > 0,
            self.total > 0,
            done <= self.total,
        ensures
            final(buf)@ == old(buf)@ + self@.coloured_run(done as nat),
    {
        if same_text(self.colour.as_str(), "default") {
            self.push_run(buf, done);
        } else {
            buf.append(self.colour.as_str());
            self.push_run(buf, done);
            buf.append(COLOUR_RESET);
            assert(buf@ =~= old(buf)@ + (self.colour@ + self@.meter_run(done as nat)
                + COLOUR_RESET@));
        }
    }

    /// The meter segment with `done` of the total shown.
    pub fn render_mbar(&self, done: u64) -> (text: String)
        requires
            self@.wf(),
            self.ncols > 0,
            self.total > 0,
            done <= self.total,
        ensures
            text@ == self@.meter_text(done as nat),
    {
        match self.animation {
            Animation::TqdmAscii | Animation::Tqdm | Animation::FillUp => {
                let mut text = String::from_str("|");
                self.push_coloured_run(&mut text, done);
                text.append("|");
                text
            },
            Animation::Classic | Animation::Arrow => {
                let mut text = String::from_str("[");
                self.push_coloured_run(&mut text, done);
                text.append("]");
                text
            },
            Animation::FiraCode => {
                let mut text = String::from_str("\u{EE03}");
                self.push_coloured_run(&mut text, done);
                if done >= self.total {
                    text.append("\u{EE05}");
                } else {
                    text.append("\u{EE02}");
                }
                text
            },
        }
    }

    /// Blanks as wide as the last frame.
    fn blanks(&self) -> (text: String)
        ensures
            text@ == self@.blank_text(),
    {
        let mut text = String::new();
        let width: usize = if self.internal.bar_length > 0 {
            self.internal.bar_length as usize
        } else {
            0
        };
        push_repeated(&mut text, " ", width);
        assert(text@ =~= repeated(" "@, width as nat));
        text
    }

    /// Render progress bar text using given value: the left, meter and
    /// right segments.
    pub fn render(&mut self, i: u64, now: u64, columns: u16) -> (r: (String, String, String))
        requires
            old(self)@.wf(),
            old(self).total > 0,
        ensures
            final(self)@ == old(self)@.rendered(i as nat, now as nat, columns as nat).0,
            r.0@ == old(self)@.rendered(i as nat, now as nat, columns as nat).1.0,
            r.1@ == old(self)@.rendered(i as nat, now as nat, columns as nat).1.1,
            r.2@ == old(self)@.rendered(i as nat, now as nat, columns as nat).1.2,
            final(self)@.wf(),
    {
        if i >= self.total && !self.leave {
            return (self.blanks(), String::from_str(""), String::from_str("\r"));
        }
        let (shown, lbar) = self.render_lbar(i);
        let rbar = self.render_rbar(shown, now);
        let len = narrowed(1 + width_of(lbar.as_str()) + width_of(rbar.as_str()));
        self.set_ncols(len, columns);
        proof {
            lemma_sized(old(self)@, shown as nat, now as nat, len as int, columns as nat);
        }
        if self.ncols <= 0 {
            return (lbar, String::from_str(""), rbar);
        }
        let mbar = self.render_mbar(shown);
        (lbar, mbar, rbar)
    }

    /// Renders a frame at `now`, and notes its width.
    fn frame(&mut self, now: u64, columns: u16) -> (text: String)
        requires
            old(self)@.wf(),
        ensures
            final(self)@ == old(self)@.framed(now as nat, columns as nat).0,
            text@ == old(self)@.framed(now as nat, columns as nat).1,
    {
        if self.total != 0 {
            let (lbar, mbar, rbar) = self.render(self.n, now, columns);
            let width = width_of(lbar.as_str()) + width_of(rbar.as_str()) + (self.ncols as i64)
                + 2;
            proof {
                reveal(BarModel::measured);
            }
            self.measure(width);
            let mut text = lbar;
            text.append(mbar.as_str());
            text.append(rbar.as_str());
            text
        } else {
            let text = self.render_unknown(self.n, now);
            proof {
                reveal(BarModel::measured);
            }
            self.measure(width_of(text.as_str()));
            text
        }
    }

    /// The bytes that put `text` on this bar's line: after a carriage
    /// return for a bar on the cursor's line, else between line feeds
    /// down to its line and a cursor movement back up.
    pub fn write_at(&self, text: String) -> (out: String)
        ensures
            out@ == self@.positioned(text@),
    {
        if self.file {
            let mut out = text;
            out.append("\n");
            out
        } else if self.position == 0 {
            let mut out = String::from_str("\r");
            out.append(text.as_str());
            out
        } else {
            let mut out = String::new();
            push_repeated(&mut out, "\n", self.position as usize);
            assert(out@ =~= repeated("\n"@, self.position as nat));
            out.append(text.as_str());
            push_cursor_up(&mut out, self.position);
            out
        }
    }

    /// Manually update the progress bar, useful for streams such as reading files.
    ///
    /// Advances the counter by `n` at the time `now`, on a terminal
    /// `columns` wide, and hands back the bytes to write if a frame is due.
    pub fn update(&mut self, n: u64, now: u64, columns: u16) -> (out: Option<String>)
        requires
            old(self)@.wf(),
            old(self)@.can_advance(n as nat, now as nat),
        ensures
            final(self)@ == old(self)@.advanced(n as nat, now as nat, columns as nat).0,
            text_view(out) == old(self)@.advanced(n as nat, now as nat, columns as nat).1,
            final(self)@.wf(),
    {
        proof {
            lemma_started_at(old(self)@, now as nat);
            lemma_advanced(old(self)@, n as nat, now as nat, columns as nat);
        }
        self.start(now);
        self.count(n);
        proof {
            reveal(BarModel::counted);
        }
        if self.disable {
            return None;
        }
        self.pace(n, now);
        if self.render_due(now) {
            self.settle();
            proof {
                reveal(BarModel::paced);
                reveal(BarModel::settled);
            }
            let text = self.frame(now, columns);
            Some(self.write_at(text))
        } else {
            None
        }
    }

    /// Whether a block family has a glyph set to draw from: what every
    /// operation asks of a bar whose fields were set by hand.
    pub fn well_formed(&self) -> (ok: bool)
        ensures
            ok == self@.wf(),
    {
        match self.animation {
            Animation::TqdmAscii | Animation::Tqdm | Animation::FillUp => {
                let len = self.internal.charset.as_str().unicode_len();
                2 <= self.internal.charset_len && self.internal.charset_len <= len as u64
            },
            Animation::Classic | Animation::Arrow | Animation::FiraCode => true,
        }
    }

    /// Whether the counter, and the iteration interval where it grows with
    /// it, can take `n` more at `now` within 64 bits: what `update` asks.
    pub fn can_update(&self, n: u64, now: u64) -> (ok: bool)
        ensures
            ok == self@.can_advance(n as nat, now as nat),
    {
        let from = if self.internal.started {
            self.n
        } else {
            self.initial
        };
        let gate = if self.internal.started {
            self.time_gate(now)
        } else {
            self.mininterval == 0
        };
        let grows = !self.disable && self.dynamic_miniters && !gate;
        n <= u64::MAX - from && (!grows || n <= u64::MAX - self.miniters)
    }

    /// Updates the bar where the counter can take `n` more, and leaves it
    /// as it is where it cannot: `None` then, else what `update` hands
    /// back.
    pub fn try_update(&mut self, n: u64, now: u64, columns: u16) -> (out: Option<Option<String>>)
        requires
            old(self)@.wf(),
        ensures
            final(self)@.wf(),
            out is Some <==> old(self)@.can_advance(n as nat, now as nat),
            out is None ==> final(self)@ == old(self)@,
            out matches Some(frame) ==> {
                &&& final(self)@ == old(self)@.advanced(n as nat, now as nat, columns as nat).0
                &&& text_view(frame) == old(self)@.advanced(
                    n as nat,
                    now as nat,
                    columns as nat,
                ).1
            },
    {
        if self.can_update(n, now) {
            Some(self.update(n, now, columns))
        } else {
            None
        }
    }

    /// Force refresh the display of this bar.
    pub fn refresh(&mut self, now: u64, columns: u16) -> (out: Option<String>)
        requires
            old(self)@.wf(),
        ensures
            final(self)@ == old(self)@.refreshed(now as nat, columns as nat).0,
            text_view(out) == old(self)@.refreshed(now as nat, columns as nat).1,
            final(self)@.wf(),
    {
        proof {
            reveal(BarModel::forced);
        }
        self.force(true);
        let out = self.update(0, now, columns);
        self.force(false);
        out
    }

    /// Clear current bar display: the bytes that blank its line.
    pub fn clear(&self, columns: u16) -> (out: Option<String>)
        ensures
            text_view(out) == self@.cleared(columns as nat),
    {
        if self.file {
            None
        } else {
            let width: usize = if self.internal.bar_length > 0 {
                self.internal.bar_length as usize
            } else {
                columns as usize
            };
            let mut out = String::from_str("\r");
            push_repeated(&mut out, " ", width);
            out.append("\r");
            Some(out)
        }
    }

    /// Redraws the bar after an interjection, if it is to be left on screen.
    pub fn resume(&mut self, now: u64, columns: u16) -> (out: Option<String>)
        requires
            old(self)@.wf(),
        ensures
            final(self)@ == old(self)@.resumed(now as nat, columns as nat).0,
            text_view(out) == old(self)@.resumed(now as nat, columns as nat).1,
            final(self)@.wf(),
    {
        if self.leave {
            self.refresh(now, columns)
        } else {
            None
        }
    }

    /// Print a message via bar (without overlap with bars).
    /// The message is for standard output, between the bytes that clear
    /// the bar and those that redraw it.
    pub fn write(&mut self, text: String, now: u64, columns: u16) -> (out: Interjection)
        requires
            old(self)@.wf(),
        ensures
            text_view(out.clear) == old(self)@.cleared(columns as nat),
            out.message@ == text@ + "\n"@,
            final(self)@ == old(self)@.resumed(now as nat, columns as nat).0,
            text_view(out.redraw) == old(self)@.resumed(now as nat, columns as nat).1,
            final(self)@.wf(),
    {
        let clear = self.clear(columns);
        let mut message = text;
        message.append("\n");
        let redraw = self.resume(now, columns);
        Interjection { clear, message, redraw }
    }

    /// Take input via bar (without overlap with bars).
    /// The prompt is for standard output, after the bytes that clear the
    /// bar; once the line is read, `resume` redraws the bar.
    pub fn input(&self, text: &str, columns: u16) -> (out: Interjection)
        ensures
            text_view(out.clear) == self@.cleared(columns as nat),
            out.message@ == text@,
            out.redraw is None,
    {
        Interjection { clear: self.clear(columns), message: String::from_str(text), redraw: None }
    }

    /// Puts the counter at `position`.
    fn place(&mut self, position: u64)
        ensures
            final(self)@ == old(self)@.placed(position as nat),
    {
        proof {
            reveal(BarModel::placed);
        }
        self.n = position;
    }

    /// Set/Modify position of the progress bar: the counter is put at
    /// `position`, on a bar that runs and on one that does not run yet.
    pub fn set_position(&mut self, position: u64, now: u64, columns: u16) -> (out: Option<
        String,
    >)
        requires
            old(self)@.wf(),
        ensures
            final(self)@ == old(self)@.moved_to(position as nat, now as nat, columns as nat).0,
            text_view(out) == old(self)@.moved_to(
                position as nat,
                now as nat,
                columns as nat,
            ).1,
            final(self)@.wf(),
    {
        proof {
            lemma_started_at(old(self)@, now as nat);
            reveal(BarModel::placed);
        }
        self.start(now);
        self.place(position);
        self.update(0, now, columns)
    }

    /// One turn of monitor mode: nothing is left to do once the counter
    /// has reached the total; else the bar is refreshed if its counter
    /// still stands at `seen`, and the new count is reported if it moved.
    pub fn monitor(&mut self, seen: u64, now: u64, columns: u16) -> (step: MonitorStep)
        requires
            old(self)@.wf(),
        ensures
            final(self)@.wf(),
            old(self)@.completed() ==> step is Finished && final(self)@ == old(self)@,
            !old(self)@.completed() && old(self).n != seen ==> step == MonitorStep::Moved(
                old(self).n,
            ) && final(self)@ == old(self)@,
            !old(self)@.completed() && old(self).n == seen ==> {
                &&& step matches MonitorStep::Refreshed(out)
                &&& text_view(out) == old(self)@.refreshed(now as nat, columns as nat).1
                &&& final(self)@ == old(self)@.refreshed(now as nat, columns as nat).0
            },
    {
        if self.n == self.total {
            MonitorStep::Finished
        } else if self.n == seen {
            MonitorStep::Refreshed(self.refresh(now, columns))
        } else {
            MonitorStep::Moved(self.n)
        }
    }
}

/// The meter width and the fixed width after the width was resolved.
fn resolve_ncols(
    ncols: i16,
    user_ncols: i16,
    bar_length: i16,
    dynamic: bool,
    len: i16,
    columns: u16,
) -> (r: (i16, i16))
    ensures
        (WidthModel { ncols: r.0 as int, user_ncols: r.1 as int, bar_length: bar_length as int })
            == resolved_width(
            WidthModel {
                ncols: ncols as int,
                user_ncols: user_ncols as int,
                bar_length: bar_length as int,
            },
            dynamic,
            len as int,
            columns as nat,
        ),
{
    if user_ncols != -1 {
        (user_ncols, user_ncols)
    } else if dynamic || (len as i32) + (ncols as i32) + 2 - (bar_length as i32) > 0 {
        if columns != 0 {
            let free: i32 = (columns as i32) - (len as i32) - 3;
            if free >= 0 {
                (narrowed(free as i64), user_ncols)
            } else {
                (ncols, user_ncols)
            }
        } else if dynamic {
            (10, user_ncols)
        } else {
            (10, 10)
        }
    } else {
        (ncols, user_ncols)
    }
}

/// Appends a description and its delimiter.
fn push_desc(buf: &mut String, desc: &str)
    ensures
        final(buf)@ == old(buf)@ + desc_text(desc@),
{
    buf.append(desc);
    if desc.unicode_len() != 0 {
        buf.append(": ");
        assert(buf@ =~= old(buf)@ + (desc@ + ": "@));
    }
}

/// Appends a count, scaled or in full.
fn push_count(buf: &mut String, count: u64, unit_scale: bool, divisor: u64)
    ensures
        final(buf)@ == old(buf)@ + count_text(count as nat, unit_scale, divisor as nat),
{
    if unit_scale {
        push_sizeof(buf, count, divisor);
    } else {
        push_decimal(buf, count as u128);
    }
}

/// Appends the rate after `count` iterations in `elapsed` nanoseconds.
fn push_rate(buf: &mut String, count: u64, elapsed: u64, unit_scale: bool, divisor: u64)
    ensures
        final(buf)@ == old(buf)@ + rate_text(
            count as nat,
            elapsed as nat,
            unit_scale,
            divisor as nat,
        ),
{
    if count == 0 || elapsed == 0 {
        buf.append("?");
    } else if unit_scale {
        push_sizeof(buf, whole_rate(count, elapsed), divisor);
    } else {
        assert(count * NANOS_PER_SEC <= 0xffff_ffff_ffff_ffff * 1_000_000_000) by (nonlinear_arith)
            requires
                count <= 0xffff_ffff_ffff_ffff,
                NANOS_PER_SEC == 1_000_000_000,
        ;
        push_fixed(buf, (count as u128) * (NANOS_PER_SEC as u128), elapsed as u128, 2);
    }
}

/// A width brought into 16 bits.
fn narrowed(x: i64) -> (r: i16)
    ensures
        r == clamp_width(x as int),
{
    if x < i16::MIN as i64 {
        i16::MIN
    } else if x > i16::MAX as i64 {
        i16::MAX
    } else {
        x as i16
    }
}

/// The largest width that is told apart from a larger one.
pub const WIDTH_CAP: usize = 100_000;

/// Number of characters in `text`, up to `WIDTH_CAP`.
fn width_of(text: &str) -> (w: i64)
    ensures
        w == if text@.len() > WIDTH_CAP {
            WIDTH_CAP as int
        } else {
            text@.len() as int
        },
{
    let len = text.unicode_len();
    if len > WIDTH_CAP {
        WIDTH_CAP as i64
    } else {
        len as i64
    }
}

} // verus!
