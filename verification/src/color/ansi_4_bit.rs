use vstd::prelude::*;

use crate::cell::AsciiCell;
use crate::color::ansi_3_bit::{Ansi3Bit, BACKGROUND, FOREGROUND};
use crate::color::{default_from_rgb, default_new_cell, lemma_nearest_exact, lemma_nearest_index_props, spec_nearest, spec_nearest_index, spec_quantize, Color, ColorValue};
use crate::font::Font;
use crate::pixel::Rgb;

verus! {

/// Offset added to the SGR parameter for the bright half of the palette.
pub const BRIGHT_OFFSET: u8 = 60;

/// The sixteen terminal colors: the eight basic ones, each in a normal and
/// a bright variant.
#[derive(Clone, Copy, PartialEq, Eq, Structural, Hash, Debug, Default)]
pub struct Ansi4Bit {
    pub is_bright: bool,
    pub color: Ansi3Bit,
}

impl Ansi4Bit {
    pub fn new_non_bright(color: Ansi3Bit) -> (r: Ansi4Bit)
        ensures
            r == (Ansi4Bit { is_bright: false, color }),
    {
        Ansi4Bit { is_bright: false, color }
    }

    pub fn new_bright(color: Ansi3Bit) -> (r: Ansi4Bit)
        ensures
            r == (Ansi4Bit { is_bright: true, color }),
    {
        Ansi4Bit { is_bright: true, color }
    }

    /// The position in the enumeration.
    pub open spec fn index_spec(self) -> int {
        self.color.index_spec() as int + if self.is_bright {
            8int
        } else {
            0int
        }
    }

    /// The position in the enumeration: the eight normal colors first, then
    /// the eight bright ones, each half in SGR index order.
    pub open spec fn from_index_spec(i: int) -> Ansi4Bit {
        Ansi4Bit { is_bright: i >= 8, color: Ansi3Bit::from_index_spec(i % 8) }
    }

    /// The full enumeration: normal colors first, then bright ones.
    pub open spec fn all_spec() -> Seq<Ansi4Bit> {
        Seq::new(16, |i: int| Ansi4Bit::from_index_spec(i))
    }

    /// Every color of the palette, normal colors first, then bright ones.
    pub fn all() -> (r: Vec<Ansi4Bit>)
        ensures
            r@ == Ansi4Bit::all_spec(),
    {
        let mut v: Vec<Ansi4Bit> = Vec::new();
        let mut i: u8 = 0;
        while i < 16
            invariant
                i <= 16,
                v@.len() == i,
                forall|j: int| 0 <= j < i ==> v@[j] == Ansi4Bit::from_index_spec(j),
            decreases 16 - i,
        {
            let color = Ansi3Bit::from_index(i % 8);
            v.push(Ansi4Bit { is_bright: i >= 8, color });
            i = i + 1;
        }
        proof {
            assert(v@ =~= Ansi4Bit::all_spec());
        }
        v
    }
}

impl Ansi4Bit {
    /// How many values the palette has.
    pub fn cardinality() -> (r: u64)
        ensures
            r == Ansi4Bit::all_spec().len(),
    {
        16
    }
}

impl ColorValue for Ansi4Bit {
    open spec fn wf(self) -> bool {
        true
    }

    open spec fn rgb_spec(self) -> Rgb {
        if self.is_bright && self.color == Ansi3Bit::Black {
            Rgb { r: 85, g: 85, b: 85 }
        } else if !self.is_bright && self.color == Ansi3Bit::White {
            Rgb { r: 170, g: 170, b: 170 }
        } else if self.is_bright {
            self.color.rgb_spec()
        } else {
            let full = self.color.rgb_spec();
            Rgb { r: (full.r / 2) as u8, g: (full.g / 2) as u8, b: (full.b / 2) as u8 }
        }
    }

    fn to_rgb(&self) -> (r: Rgb) {
        let is_black = matches!(self.color, Ansi3Bit::Black);
        let is_white = matches!(self.color, Ansi3Bit::White);
        if self.is_bright && is_black {
            Rgb { r: 85, g: 85, b: 85 }
        } else if !self.is_bright && is_white {
            Rgb { r: 170, g: 170, b: 170 }
        } else if self.is_bright {
            self.color.to_rgb()
        } else {
            let full = self.color.to_rgb();
            Rgb { r: full.r / 2, g: full.g / 2, b: full.b / 2 }
        }
    }
}

impl Color for Ansi4Bit {
    open spec fn eq_spec(self, other: Self) -> bool {
        self == other
    }

    open spec fn from_rgb_spec(c: Rgb) -> Self {
        spec_nearest(Ansi4Bit::all_spec(), c)
    }

    open spec fn bg_params(self) -> Seq<u8> {
        seq![
            (self.color.index_spec() + BACKGROUND + if self.is_bright {
                BRIGHT_OFFSET as int
            } else {
                0
            }) as u8,
        ]
    }

    open spec fn fg_params(self) -> Seq<u8> {
        seq![
            (self.color.index_spec() + FOREGROUND + if self.is_bright {
                BRIGHT_OFFSET as int
            } else {
                0
            }) as u8,
        ]
    }

    open spec fn cell_spec(c: Rgb, font: Font) -> AsciiCell<Self> {
        spec_quantize(Ansi4Bit::all_spec(), c, font)
    }

    fn from_rgb(color: Rgb) -> (r: Self) {
        let all = Ansi4Bit::all();
        default_from_rgb(&all, color)
    }

    fn write_background(&self, to: &mut Vec<u8>) {
        let bright: u8 = if self.is_bright {
            BRIGHT_OFFSET
        } else {
            0
        };
        let p: u8 = self.color.index() + BACKGROUND + bright;
        to.push(p);
        proof {
            assert(to@ =~= old(to)@ + self.bg_params());
        }
    }

    fn write_foreground(&self, to: &mut Vec<u8>) {
        let bright: u8 = if self.is_bright {
            BRIGHT_OFFSET
        } else {
            0
        };
        let p: u8 = self.color.index() + FOREGROUND + bright;
        to.push(p);
        proof {
            assert(to@ =~= old(to)@ + self.fg_params());
        }
    }

    fn same(&self, other: &Self) -> (r: bool) {
        *self == *other
    }

    fn new_cell(color: Rgb, font: &Font) -> (r: AsciiCell<Self>) {
        let all = Ansi4Bit::all();
        proof {
            vstd::arithmetic::mul::lemma_mul_upper_bound(
                all@.len() as int,
                256,
                all@.len() as int,
                256,
            );
            vstd::arithmetic::mul::lemma_mul_upper_bound(
                all@.len() as int * all@.len() as int,
                0x10000,
                font.spec_gradient().len() as int,
                u32::MAX as int,
            );
            vstd::arithmetic::mul::lemma_mul_nonnegative(
                all@.len() as int,
                all@.len() as int,
            );
        }
        default_new_cell(&all, color, font)
    }
}

/// Palette round trip: every color of the palette is its own nearest
/// neighbor, so converting it to RGB and approximating that RGB gives the
/// color back.
pub proof fn lemma_palette_round_trip(c: Ansi4Bit)
    ensures
        Ansi4Bit::from_rgb_spec(c.rgb_spec()) == c,
{
    let all = Ansi4Bit::all_spec();
    let t = c.rgb_spec();
    assert(all[c.index_spec()] == c);
    lemma_nearest_exact(all, t, c.index_spec());
    lemma_nearest_index_props(all, t, 16);
    let best = spec_nearest_index(all, t, 16);
    assert(all[best] == Ansi4Bit::from_index_spec(best));
    assert(all[best].rgb_spec() == t);
    assert(all[best] == c);
}

} // verus!
