use vstd::prelude::*;

use crate::cell::AsciiCell;
use crate::color::ansi_8_bit::{BACKGROUND, FOREGROUND, SECOND_ARGUMENT};
use crate::color::{default_from_rgb, default_new_cell, lemma_nearest_exact, spec_nearest, spec_nearest_index, spec_quantize, Color, ColorValue};
use crate::font::Font;
use crate::pixel::Rgb;
use crate::rounded_div::{rounded_div, spec_rounded_div};

verus! {

/// Offset of the first grayscale color among the 256 8-bit color codes:
/// the 16 colors of the 4-bit palette and the 216 cube colors come first.
pub const OFFSET: u8 = 232;

/// A color of the 24-step grayscale ramp of the 8-bit palette.
#[derive(Clone, Copy, PartialEq, Eq, Structural, Hash, Debug, Default)]
pub struct Grayscale {
    pub brightness: u8,
}

impl Grayscale {
    /// Builds a grayscale color, clamping `brightness` to [0, 23].
    pub fn new(brightness: u8) -> (r: Grayscale)
        ensures
            r.brightness == if brightness > 23 {
                23
            } else {
                brightness as int
            },
            r.wf(),
    {
        if 23 < brightness {
            Grayscale { brightness: 23 }
        } else {
            Grayscale { brightness }
        }
    }

    /// Builds a grayscale color; `None` when `brightness` is above 23.
    pub fn try_new(brightness: u8) -> (r: Option<Grayscale>)
        ensures
            r == if brightness <= 23 {
                Some(Grayscale { brightness })
            } else {
                None::<Grayscale>
            },
    {
        if brightness <= 23 {
            Some(Grayscale { brightness })
        } else {
            None
        }
    }

    /// The position on the ramp, 0 (darkest) through 23 (lightest).
    pub fn brightness(&self) -> (r: u8)
        ensures
            r == self.brightness,
    {
        self.brightness
    }

    /// The full enumeration of the 24 ramp steps, darkest first.
    pub open spec fn all_spec() -> Seq<Grayscale> {
        Seq::new(24, |i: int| Grayscale { brightness: i as u8 })
    }

    /// Every ramp step, darkest first.
    pub fn all() -> (v: Vec<Grayscale>)
        ensures
            v@ == Grayscale::all_spec(),
    {
        let mut v: Vec<Grayscale> = Vec::new();
        let mut i: u8 = 0;
        while i < 24
            invariant
                i <= 24,
                v@.len() == i,
                forall|j: int| 0 <= j < i ==> v@[j] == (Grayscale { brightness: j as u8 }),
            decreases 24 - i,
        {
            v.push(Grayscale { brightness: i });
            i = i + 1;
        }
        proof {
            assert(v@ =~= Grayscale::all_spec());
        }
        v
    }
}

impl ColorValue for Grayscale {
    open spec fn wf(self) -> bool {
        self.brightness <= 23
    }

    /// The ramp spreads evenly over [0, 255]: step `b` denotes the gray
    /// level `b * 255 / 23`, rounded to the nearest integer.
    open spec fn rgb_spec(self) -> Rgb {
        let level = spec_rounded_div(self.brightness * 255, 23) as u8;
        Rgb { r: level, g: level, b: level }
    }

    fn to_rgb(&self) -> (c: Rgb) {
        let level_wide: u32 = rounded_div((self.brightness as u32) * 255, 23);
        let level: u8 = level_wide as u8;
        Rgb { r: level, g: level, b: level }
    }
}

impl Color for Grayscale {
    open spec fn eq_spec(self, other: Self) -> bool {
        self == other
    }

    /// The nearest of the 24 ramp steps by squared distance, ties going to
    /// the darker step.
    open spec fn from_rgb_spec(c: Rgb) -> Self {
        spec_nearest(Grayscale::all_spec(), c)
    }

    open spec fn bg_params(self) -> Seq<u8> {
        seq![BACKGROUND, SECOND_ARGUMENT, (OFFSET + self.brightness) as u8]
    }

    open spec fn fg_params(self) -> Seq<u8> {
        seq![FOREGROUND, SECOND_ARGUMENT, (OFFSET + self.brightness) as u8]
    }

    open spec fn cell_spec(c: Rgb, font: Font) -> AsciiCell<Self> {
        spec_quantize(Grayscale::all_spec(), c, font)
    }

    fn from_rgb(color: Rgb) -> (r: Self) {
        let all = Grayscale::all();
        default_from_rgb(&all, color)
    }

    fn write_background(&self, to: &mut Vec<u8>) {
        to.push(BACKGROUND);
        to.push(SECOND_ARGUMENT);
        to.push(OFFSET + self.brightness);
        proof {
            assert(to@ =~= old(to)@ + self.bg_params());
        }
    }

    fn write_foreground(&self, to: &mut Vec<u8>) {
        to.push(FOREGROUND);
        to.push(SECOND_ARGUMENT);
        to.push(OFFSET + self.brightness);
        proof {
            assert(to@ =~= old(to)@ + self.fg_params());
        }
    }

    fn same(&self, other: &Self) -> (r: bool) {
        *self == *other
    }

    fn new_cell(color: Rgb, font: &Font) -> (r: AsciiCell<Self>) {
        let all = Grayscale::all();
        proof {
            vstd::arithmetic::mul::lemma_mul_upper_bound(
                all@.len() as int,
                256,
                all@.len() as int,
                256,
            );
            vstd::arithmetic::mul::lemma_mul_upper_bound(
                all@.len() as int * all@.len() as int,
                0x10000,
                font.spec_gradient().len() as int,
                u32::MAX as int,
            );
            vstd::arithmetic::mul::lemma_mul_nonnegative(
                all@.len() as int,
                all@.len() as int,
            );
        }
        default_new_cell(&all, color, font)
    }
}

/// Palette round trip: every ramp step is its own nearest neighbor, so
/// converting it to RGB and approximating that RGB gives the step back.
pub proof fn lemma_palette_round_trip(c: Grayscale)
    requires
        c.wf(),
    ensures
        Grayscale::from_rgb_spec(c.rgb_spec()) == c,
{
    let all = Grayscale::all_spec();
    let t = c.rgb_spec();
    assert(all[c.brightness as int] == c);
    lemma_nearest_exact(all, t, c.brightness as int);
    crate::color::lemma_nearest_index_props(all, t, 24);
    let best = spec_nearest_index(all, t, 24);
    assert(all[best] == (Grayscale { brightness: best as u8 }));
    assert(all[best].rgb_spec() == t);
    // Distinct steps denote distinct gray levels: scaling a level back to
    // the ramp recovers its step, so equal levels force equal steps.
    assert(spec_rounded_div(spec_rounded_div(best * 255, 23) * 23, 255) == best);
    assert(spec_rounded_div(spec_rounded_div(c.brightness as int * 255, 23) * 23, 255)
        == c.brightness as int);
    assert(all[best] == c);
}

} // verus!
