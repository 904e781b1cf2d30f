use vstd::prelude::*;

use crate::cell::AsciiCell;
use crate::color::{Color, ColorValue};
use crate::font::Font;
use crate::pixel::Rgb;

verus! {

/// First SGR parameter selecting a truecolor background.
pub const BACKGROUND: u8 = 48;

/// First SGR parameter selecting a truecolor foreground.
pub const FOREGROUND: u8 = 38;

/// Second SGR parameter announcing a direct RGB triple.
pub const SECOND_ARGUMENT: u8 = 2;

/// A 24-bit truecolor terminal color: one value per RGB triple. The only
/// palette too large to enumerate; cells are built directly from the
/// sampled color instead of searched for.
#[derive(Clone, Copy, PartialEq, Eq, Structural, PartialOrd, Ord, Hash, Debug, Default)]
pub struct Ansi24Bit {
    pub r: u8,
    pub g: u8,
    pub b: u8,
}

impl Ansi24Bit {
    pub fn new(r: u8, g: u8, b: u8) -> (c: Ansi24Bit)
        ensures
            c == (Ansi24Bit { r, g, b }),
    {
        Ansi24Bit { r, g, b }
    }
}

impl Ansi24Bit {
    /// How many values the palette has: one per RGB triple.
    pub fn cardinality() -> (r: u64)
        ensures
            r == 256 * 256 * 256,
    {
        16777216
    }
}

impl ColorValue for Ansi24Bit {
    open spec fn wf(self) -> bool {
        true
    }

    open spec fn rgb_spec(self) -> Rgb {
        Rgb { r: self.r, g: self.g, b: self.b }
    }

    fn to_rgb(&self) -> (c: Rgb) {
        Rgb { r: self.r, g: self.g, b: self.b }
    }
}

impl Color for Ansi24Bit {
    open spec fn eq_spec(self, other: Self) -> bool {
        self == other
    }

    /// Truecolor loses nothing: the approximation is the color itself.
    open spec fn from_rgb_spec(c: Rgb) -> Self {
        Ansi24Bit { r: c.r, g: c.g, b: c.b }
    }

    open spec fn bg_params(self) -> Seq<u8> {
        seq![BACKGROUND, SECOND_ARGUMENT, self.r, self.g, self.b]
    }

    open spec fn fg_params(self) -> Seq<u8> {
        seq![FOREGROUND, SECOND_ARGUMENT, self.r, self.g, self.b]
    }

    /// The truecolor fast path: the background is the sampled color itself
    /// and no glyph or foreground is selected — exact color fidelity is
    /// traded for glyph detail.
    open spec fn cell_spec(c: Rgb, font: Font) -> AsciiCell<Self> {
        AsciiCell { background: Ansi24Bit { r: c.r, g: c.g, b: c.b }, foreground: None }
    }

    fn from_rgb(color: Rgb) -> (c: Self) {
        Ansi24Bit { r: color.r, g: color.g, b: color.b }
    }

    fn write_background(&self, to: &mut Vec<u8>) {
        to.push(BACKGROUND);
        to.push(SECOND_ARGUMENT);
        to.push(self.r);
        to.push(self.g);
        to.push(self.b);
        proof {
            assert(to@ =~= old(to)@ + self.bg_params());
        }
    }

    fn write_foreground(&self, to: &mut Vec<u8>) {
        to.push(FOREGROUND);
        to.push(SECOND_ARGUMENT);
        to.push(self.r);
        to.push(self.g);
        to.push(self.b);
        proof {
            assert(to@ =~= old(to)@ + self.fg_params());
        }
    }

    fn same(&self, other: &Self) -> (r: bool) {
        *self == *other
    }

    fn new_cell(color: Rgb, font: &Font) -> (r: AsciiCell<Self>) {
        AsciiCell { background: Ansi24Bit { r: color.r, g: color.g, b: color.b }, foreground: None }
    }
}

/// Palette round trip: truecolor conversion is exact in both directions.
pub proof fn lemma_palette_round_trip(c: Ansi24Bit)
    ensures
        Ansi24Bit::from_rgb_spec(c.rgb_spec()) == c,
{
}

} // verus!
