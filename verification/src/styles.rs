//! Presentation: animation families, glyph sets, and value formatting.

use vstd::prelude::*;
use vstd::string::*;

pub mod format;

verus! {

/// Different types of pre-configured animation styles for the meter.
#[derive(Clone, Copy, Debug, PartialEq, Eq, Structural)]
pub enum Animation {
    Arrow,
    Classic,
    FillUp,
    FiraCode,
    Tqdm,
    TqdmAscii,
}

/// Stream a bar writes its frames to.
#[derive(Clone, Copy, Debug, PartialEq, Eq, Structural)]
pub enum Output {
    Stderr,
    Stdout,
}

impl Animation {
    /// The families drawn with partial-cell glyphs: their meter advances in
    /// steps finer than one cell.
    pub open spec fn is_block(self) -> bool {
        self is TqdmAscii || self is Tqdm || self is FillUp
    }
}

/// The pieces of `pieces`, one after another.
pub open spec fn joined(pieces: Seq<&str>) -> Seq<char>
    decreases pieces.len(),
{
    if pieces.len() == 0 {
        Seq::empty()
    } else {
        joined(pieces.drop_last()) + pieces.last()@
    }
}

/// Eighths of a cell, growing from the left.
pub open spec fn tqdm_glyphs() -> Seq<&'static str> {
    seq![
        "\u{258F}",
        "\u{258E}",
        "\u{258D}",
        "\u{258C}",
        "\u{258B}",
        "\u{258A}",
        "\u{2589}",
        "\u{2588}",
    ]
}

/// The digits one to nine, then a hash for a full cell.
pub open spec fn tqdm_ascii_glyphs() -> Seq<&'static str> {
    seq!["1", "2", "3", "4", "5", "6", "7", "8", "9", "#"]
}

/// Eighths of a cell, growing from the bottom.
pub open spec fn fillup_glyphs() -> Seq<&'static str> {
    seq![
        "\u{2581}",
        "\u{2582}",
        "\u{2583}",
        "\u{2584}",
        "\u{2585}",
        "\u{2586}",
        "\u{2587}",
        "\u{2588}",
    ]
}

/// Joining pieces of at least one character each gives at least as many
/// characters as there are pieces.
pub proof fn lemma_joined_len(pieces: Seq<&str>)
    requires
        forall|i: int| 0 <= i < pieces.len() ==> (#[trigger] pieces[i])@.len() >= 1,
    ensures
        joined(pieces).len() >= pieces.len(),
    decreases pieces.len(),
{
    if pieces.len() > 0 {
        lemma_joined_len(pieces.drop_last());
    }
}

/// Each built-in glyph set has a character for every glyph.
pub proof fn lemma_presets_len()
    ensures
        joined(tqdm_glyphs()).len() >= tqdm_glyphs().len() == 8,
        joined(tqdm_ascii_glyphs()).len() >= tqdm_ascii_glyphs().len() == 10,
        joined(fillup_glyphs()).len() >= fillup_glyphs().len() == 8,
{
    reveal_strlit("\u{258F}");
    reveal_strlit("\u{258E}");
    reveal_strlit("\u{258D}");
    reveal_strlit("\u{258C}");
    reveal_strlit("\u{258B}");
    reveal_strlit("\u{258A}");
    reveal_strlit("\u{2589}");
    reveal_strlit("\u{2588}");
    reveal_strlit("\u{2581}");
    reveal_strlit("\u{2582}");
    reveal_strlit("\u{2583}");
    reveal_strlit("\u{2584}");
    reveal_strlit("\u{2585}");
    reveal_strlit("\u{2586}");
    reveal_strlit("\u{2587}");
    reveal_strlit("1");
    reveal_strlit("2");
    reveal_strlit("3");
    reveal_strlit("4");
    reveal_strlit("5");
    reveal_strlit("6");
    reveal_strlit("7");
    reveal_strlit("8");
    reveal_strlit("9");
    reveal_strlit("#");
    lemma_joined_len(tqdm_glyphs());
    lemma_joined_len(tqdm_ascii_glyphs());
    lemma_joined_len(fillup_glyphs());
}

/// Joins the pieces of a glyph set.
pub fn join(pieces: &[&str]) -> (s: String)
    ensures
        s@ == joined(pieces@),
{
    let mut s = String::new();
    let mut i: usize = 0;
    while i < pieces.len()
        invariant
            i <= pieces.len(),
            s@ == joined(pieces@.take(i as int)),
        decreases pieces.len() - i,
    {
        s.append(pieces[i]);
        proof {
            assert(pieces@.take(i + 1).drop_last() == pieces@.take(i as int));
        }
        i = i + 1;
    }
    proof {
        assert(pieces@.take(i as int) == pieces@);
    }
    s
}

/// Glyph set of the `Tqdm` family.
pub fn tqdm_charset() -> (r: [&'static str; 8])
    ensures
        r@ == tqdm_glyphs(),
{
    let r = [
        "\u{258F}",
        "\u{258E}",
        "\u{258D}",
        "\u{258C}",
        "\u{258B}",
        "\u{258A}",
        "\u{2589}",
        "\u{2588}",
    ];
    assert(r@ =~= tqdm_glyphs());
    r
}

/// Glyph set used when only ASCII may be written.
pub fn tqdm_ascii_charset() -> (r: [&'static str; 10])
    ensures
        r@ == tqdm_ascii_glyphs(),
{
    let r = ["1", "2", "3", "4", "5", "6", "7", "8", "9", "#"];
    assert(r@ =~= tqdm_ascii_glyphs());
    r
}

/// Glyph set of the `FillUp` family.
pub fn fillup_charset() -> (r: [&'static str; 8])
    ensures
        r@ == fillup_glyphs(),
{
    let r = [
        "\u{2581}",
        "\u{2582}",
        "\u{2583}",
        "\u{2584}",
        "\u{2585}",
        "\u{2586}",
        "\u{2587}",
        "\u{2588}",
    ];
    assert(r@ =~= fillup_glyphs());
    r
}

/// The glyph sets a spinner can cycle through.
#[derive(Clone, Copy, Debug, PartialEq, Eq, Structural)]
pub enum SpinnerFrames {
    Classic,
    FiraCode,
}

impl SpinnerFrames {
    /// Number of glyphs in the cycle.
    pub open spec fn count(self) -> nat {
        match self {
            SpinnerFrames::Classic => 4,
            SpinnerFrames::FiraCode => 6,
        }
    }

    /// The glyph at place `i` of the cycle.
    pub open spec fn glyph(self, i: nat) -> Seq<char> {
        match self {
            SpinnerFrames::Classic => if i == 0 {
                "\\"@
            } else if i == 1 {
                "|"@
            } else if i == 2 {
                "/"@
            } else {
                "-"@
            },
            SpinnerFrames::FiraCode => if i == 0 {
                "\u{EE06}"@
            } else if i == 1 {
                "\u{EE07}"@
            } else if i == 2 {
                "\u{EE08}"@
            } else if i == 3 {
                "\u{EE09}"@
            } else if i == 4 {
                "\u{EE0A}"@
            } else {
                "\u{EE0B}"@
            },
        }
    }
}

/// An endless cycle of glyphs, held as a place in a fixed set.
#[derive(Clone, Copy, Debug, PartialEq, Eq, Structural)]
pub struct Spinner {
    pub frames: SpinnerFrames,
    pub turn: u8,
}

impl Spinner {
    /// Place in the cycle of the glyph that comes next.
    pub open spec fn place(self) -> nat {
        self.turn as nat % self.frames.count()
    }

    /// The glyph that comes next.
    pub open spec fn current(self) -> Seq<char> {
        self.frames.glyph(self.place())
    }

    /// The spinner after one glyph was taken.
    pub open spec fn advanced(self) -> Spinner {
        Spinner { frames: self.frames, turn: ((self.place() + 1) % self.frames.count()) as u8 }
    }

    /// A spinner at the start of `frames`.
    pub fn new(frames: SpinnerFrames) -> (s: Spinner)
        ensures
            s == (Spinner { frames, turn: 0 }),
    {
        Spinner { frames, turn: 0 }
    }

    /// Takes the next glyph and moves one place on, wrapping at the end.
    pub fn next(&mut self) -> (glyph: &'static str)
        ensures
            glyph@ == old(self).current(),
            *final(self) == old(self).advanced(),
    {
        match self.frames {
            SpinnerFrames::Classic => {
                let i = self.turn % 4;
                self.turn = (i + 1) % 4;
                if i == 0 {
                    "\\"
                } else if i == 1 {
                    "|"
                } else if i == 2 {
                    "/"
                } else {
                    "-"
                }
            },
            SpinnerFrames::FiraCode => {
                let i = self.turn % 6;
                self.turn = (i + 1) % 6;
                if i == 0 {
                    "\u{EE06}"
                } else if i == 1 {
                    "\u{EE07}"
                } else if i == 2 {
                    "\u{EE08}"
                } else if i == 3 {
                    "\u{EE09}"
                } else if i == 4 {
                    "\u{EE0A}"
                } else {
                    "\u{EE0B}"
                }
            },
        }
    }
}

} // verus!
