use vstd::prelude::*;

use crate::cell::{AsciiCell, Foreground};
use crate::color::util::{luma, spec_luma};
use crate::color::{Color, ColorValue};
use crate::font::Font;
use crate::pixel::Rgb;
use crate::rounded_div::spec_rounded_div;

verus! {

/// The palette of plain glyph rendering: it holds no color at all, and a
/// cell is chosen by luminance alone.
#[derive(Clone, Copy, PartialEq, Eq, Structural, PartialOrd, Ord, Hash, Debug, Default)]
pub struct Colorless;

/// The glyph index colorless quantization selects: the luminance scaled to
/// [0, 1], divided by the maximum coverage and clamped to 1, then mapped
/// onto the gradient by rounding `t * (len - 1)`.
pub open spec fn colorless_index_spec(c: Rgb, font: Font) -> int {
    let scaled = spec_luma(c) * font.max_coverage.den;
    let full = 255 * font.max_coverage.num;
    let clamped = if scaled > full {
        full
    } else {
        scaled
    };
    spec_rounded_div(clamped * (font.gradient@.len() - 1), full)
}

/// Computes the colorless glyph index for sampled color `c`.
pub fn colorless_index(c: Rgb, font: &Font) -> (i: usize)
    requires
        font.wf(),
    ensures
        i == colorless_index_spec(c, *font),
        i < font.spec_gradient().len(),
{
    let l: u64 = luma(c) as u64;
    proof {
        vstd::arithmetic::mul::lemma_mul_upper_bound(
            l as int,
            255,
            font.max_coverage.den as int,
            u32::MAX as int,
        );
        vstd::arithmetic::mul::lemma_mul_nonnegative(l as int, font.max_coverage.den as int);
    }
    let scaled: u64 = l * font.max_coverage.den;
    let full: u64 = 255 * font.max_coverage.num;
    let clamped: u64 = if scaled > full {
        full
    } else {
        scaled
    };
    let len_minus_1: u64 = (font.gradient().len() - 1) as u64;
    proof {
        vstd::arithmetic::mul::lemma_mul_upper_bound(
            clamped as int,
            u64::MAX as int,
            len_minus_1 as int,
            u32::MAX as int,
        );
        vstd::arithmetic::mul::lemma_mul_nonnegative(clamped as int, len_minus_1 as int);
    }
    let num: u128 = (clamped as u128) * (len_minus_1 as u128);
    let i_wide: u128 = (num + (full as u128) / 2) / (full as u128);
    proof {
        let fulli = full as int;
        let li = len_minus_1 as int;
        vstd::arithmetic::mul::lemma_mul_inequality(clamped as int, fulli, li);
        vstd::arithmetic::mul::lemma_mul_is_commutative(fulli, li);
        vstd::arithmetic::div_mod::lemma_div_is_ordered(
            num as int + fulli / 2,
            fulli * li + fulli / 2,
            fulli,
        );
        vstd::arithmetic::div_mod::lemma_div_multiples_vanish_fancy(li, fulli / 2, fulli);
        vstd::arithmetic::div_mod::lemma_div_pos_is_pos(num as int + fulli / 2, fulli);
    }
    i_wide as usize
}

impl Colorless {
    /// How many values the palette has: exactly one.
    pub fn cardinality() -> (r: u64)
        ensures
            r == 1,
    {
        1
    }
}

impl ColorValue for Colorless {
    open spec fn wf(self) -> bool {
        true
    }

    open spec fn rgb_spec(self) -> Rgb {
        Rgb { r: 0, g: 0, b: 0 }
    }

    fn to_rgb(&self) -> (r: Rgb) {
        Rgb { r: 0, g: 0, b: 0 }
    }
}

impl Color for Colorless {
    open spec fn eq_spec(self, other: Self) -> bool {
        true
    }

    open spec fn from_rgb_spec(c: Rgb) -> Self {
        Colorless
    }

    open spec fn bg_params(self) -> Seq<u8> {
        Seq::empty()
    }

    open spec fn fg_params(self) -> Seq<u8> {
        Seq::empty()
    }

    /// Colorless cells always carry a glyph: the one whose coverage best
    /// matches the sampled luminance.
    open spec fn cell_spec(c: Rgb, font: Font) -> AsciiCell<Self> {
        AsciiCell {
            background: Colorless,
            foreground: Some(
                Foreground {
                    color: Colorless,
                    character: font.gradient@[colorless_index_spec(c, font)],
                },
            ),
        }
    }

    fn from_rgb(color: Rgb) -> (r: Self) {
        Colorless
    }

    fn write_background(&self, to: &mut Vec<u8>) {
        proof {
            assert(to@ =~= old(to)@ + self.bg_params());
        }
    }

    fn write_foreground(&self, to: &mut Vec<u8>) {
        proof {
            assert(to@ =~= old(to)@ + self.fg_params());
        }
    }

    fn same(&self, other: &Self) -> (r: bool) {
        true
    }

    fn new_cell(color: Rgb, font: &Font) -> (r: AsciiCell<Self>) {
        let index = colorless_index(color, font);
        let character = font.gradient()[index];
        AsciiCell { background: Colorless, foreground: Some(Foreground { color: Colorless, character }) }
    }
}

/// Palette round trip: the palette has a single value, which any RGB value
/// approximates to.
pub proof fn lemma_palette_round_trip(c: Colorless)
    ensures
        Colorless::from_rgb_spec(c.rgb_spec()) == c,
{
}

} // verus!
