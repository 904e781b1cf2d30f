use vstd::prelude::*;

use crate::cell::AsciiCell;
use crate::color::{default_from_rgb, default_new_cell, lemma_nearest_exact, lemma_nearest_index_props, spec_nearest, spec_nearest_index, spec_quantize, Color, ColorValue};
use crate::font::Font;
use crate::pixel::Rgb;

verus! {

/// First SGR parameter selecting a background color of this palette.
pub const BACKGROUND: u8 = 40;

/// First SGR parameter selecting a foreground color of this palette.
pub const FOREGROUND: u8 = 30;

/// The eight basic terminal colors.
#[derive(Clone, Copy, PartialEq, Eq, Structural, Hash, Debug, Default)]
pub enum Ansi3Bit {
    #[default]
    Black,
    Red,
    Green,
    Yellow,
    Blue,
    Magenta,
    Cyan,
    White,
}

impl Ansi3Bit {
    /// The SGR color index, 0 through 7.
    pub open spec fn index_spec(self) -> u8 {
        match self {
            Ansi3Bit::Black => 0,
            Ansi3Bit::Red => 1,
            Ansi3Bit::Green => 2,
            Ansi3Bit::Yellow => 3,
            Ansi3Bit::Blue => 4,
            Ansi3Bit::Magenta => 5,
            Ansi3Bit::Cyan => 6,
            Ansi3Bit::White => 7,
        }
    }

    /// The color with SGR index `i`.
    pub open spec fn from_index_spec(i: int) -> Ansi3Bit {
        if i == 0 {
            Ansi3Bit::Black
        } else if i == 1 {
            Ansi3Bit::Red
        } else if i == 2 {
            Ansi3Bit::Green
        } else if i == 3 {
            Ansi3Bit::Yellow
        } else if i == 4 {
            Ansi3Bit::Blue
        } else if i == 5 {
            Ansi3Bit::Magenta
        } else if i == 6 {
            Ansi3Bit::Cyan
        } else {
            Ansi3Bit::White
        }
    }

    /// The full enumeration, in SGR index order.
    pub open spec fn all_spec() -> Seq<Ansi3Bit> {
        Seq::new(8, |i: int| Ansi3Bit::from_index_spec(i))
    }

    /// The SGR color index, 0 through 7.
    pub fn index(&self) -> (r: u8)
        ensures
            r == self.index_spec(),
            r < 8,
    {
        match self {
            Ansi3Bit::Black => 0,
            Ansi3Bit::Red => 1,
            Ansi3Bit::Green => 2,
            Ansi3Bit::Yellow => 3,
            Ansi3Bit::Blue => 4,
            Ansi3Bit::Magenta => 5,
            Ansi3Bit::Cyan => 6,
            Ansi3Bit::White => 7,
        }
    }

    /// The color with SGR index `i`.
    pub fn from_index(i: u8) -> (r: Ansi3Bit)
        requires
            i < 8,
        ensures
            r == Ansi3Bit::from_index_spec(i as int),
    {
        match i {
            0 => Ansi3Bit::Black,
            1 => Ansi3Bit::Red,
            2 => Ansi3Bit::Green,
            3 => Ansi3Bit::Yellow,
            4 => Ansi3Bit::Blue,
            5 => Ansi3Bit::Magenta,
            6 => Ansi3Bit::Cyan,
            _ => Ansi3Bit::White,
        }
    }

    /// Every color of the palette, in SGR index order.
    pub fn all() -> (r: Vec<Ansi3Bit>)
        ensures
            r@ == Ansi3Bit::all_spec(),
    {
        let mut v: Vec<Ansi3Bit> = Vec::new();
        let mut i: u8 = 0;
        while i < 8
            invariant
                i <= 8,
                v@.len() == i,
                forall|j: int| 0 <= j < i ==> v@[j] == Ansi3Bit::from_index_spec(j),
            decreases 8 - i,
        {
            v.push(Ansi3Bit::from_index(i));
            i = i + 1;
        }
        proof {
            assert(v@ =~= Ansi3Bit::all_spec());
        }
        v
    }
}

impl Ansi3Bit {
    /// How many values the palette has.
    pub fn cardinality() -> (r: u64)
        ensures
            r == Ansi3Bit::all_spec().len(),
    {
        8
    }
}

impl ColorValue for Ansi3Bit {
    open spec fn wf(self) -> bool {
        true
    }

    open spec fn rgb_spec(self) -> Rgb {
        match self {
            Ansi3Bit::Black => Rgb { r: 0, g: 0, b: 0 },
            Ansi3Bit::Red => Rgb { r: 255, g: 0, b: 0 },
            Ansi3Bit::Green => Rgb { r: 0, g: 255, b: 0 },
            Ansi3Bit::Yellow => Rgb { r: 255, g: 255, b: 0 },
            Ansi3Bit::Blue => Rgb { r: 0, g: 0, b: 255 },
            Ansi3Bit::Magenta => Rgb { r: 255, g: 0, b: 255 },
            Ansi3Bit::Cyan => Rgb { r: 0, g: 255, b: 255 },
            Ansi3Bit::White => Rgb { r: 255, g: 255, b: 255 },
        }
    }

    fn to_rgb(&self) -> (r: Rgb) {
        match self {
            Ansi3Bit::Black => Rgb { r: 0, g: 0, b: 0 },
            Ansi3Bit::Red => Rgb { r: 255, g: 0, b: 0 },
            Ansi3Bit::Green => Rgb { r: 0, g: 255, b: 0 },
            Ansi3Bit::Yellow => Rgb { r: 255, g: 255, b: 0 },
            Ansi3Bit::Blue => Rgb { r: 0, g: 0, b: 255 },
            Ansi3Bit::Magenta => Rgb { r: 255, g: 0, b: 255 },
            Ansi3Bit::Cyan => Rgb { r: 0, g: 255, b: 255 },
            Ansi3Bit::White => Rgb { r: 255, g: 255, b: 255 },
        }
    }
}

impl Color for Ansi3Bit {
    open spec fn eq_spec(self, other: Self) -> bool {
        self == other
    }

    open spec fn from_rgb_spec(c: Rgb) -> Self {
        spec_nearest(Ansi3Bit::all_spec(), c)
    }

    open spec fn bg_params(self) -> Seq<u8> {
        seq![(BACKGROUND + self.index_spec()) as u8]
    }

    open spec fn fg_params(self) -> Seq<u8> {
        seq![(FOREGROUND + self.index_spec()) as u8]
    }

    open spec fn cell_spec(c: Rgb, font: Font) -> AsciiCell<Self> {
        spec_quantize(Ansi3Bit::all_spec(), c, font)
    }

    fn from_rgb(color: Rgb) -> (r: Self) {
        let all = Ansi3Bit::all();
        default_from_rgb(&all, color)
    }

    fn write_background(&self, to: &mut Vec<u8>) {
        let p: u8 = BACKGROUND + self.index();
        to.push(p);
        proof {
            assert(to@ =~= old(to)@ + self.bg_params());
        }
    }

    fn write_foreground(&self, to: &mut Vec<u8>) {
        let p: u8 = FOREGROUND + self.index();
        to.push(p);
        proof {
            assert(to@ =~= old(to)@ + self.fg_params());
        }
    }

    fn same(&self, other: &Self) -> (r: bool) {
        *self == *other
    }

    fn new_cell(color: Rgb, font: &Font) -> (r: AsciiCell<Self>) {
        let all = Ansi3Bit::all();
        proof {
            vstd::arithmetic::mul::lemma_mul_upper_bound(
                all@.len() as int,
                256,
                all@.len() as int,
                256,
            );
            vstd::arithmetic::mul::lemma_mul_upper_bound(
                all@.len() as int * all@.len() as int,
                0x10000,
                font.spec_gradient().len() as int,
                u32::MAX as int,
            );
            vstd::arithmetic::mul::lemma_mul_nonnegative(
                all@.len() as int,
                all@.len() as int,
            );
        }
        default_new_cell(&all, color, font)
    }
}

/// Palette round trip: every color of the palette is its own nearest
/// neighbor, so converting it to RGB and approximating that RGB gives the
/// color back.
pub proof fn lemma_palette_round_trip(c: Ansi3Bit)
    ensures
        Ansi3Bit::from_rgb_spec(c.rgb_spec()) == c,
{
    let all = Ansi3Bit::all_spec();
    let t = c.rgb_spec();
    assert(all[c.index_spec() as int] == c);
    lemma_nearest_exact(all, t, c.index_spec() as int);
    lemma_nearest_index_props(all, t, 8);
    let best = spec_nearest_index(all, t, 8);
    assert(all[best] == Ansi3Bit::from_index_spec(best));
    assert(all[best].rgb_spec() == t);
    assert(all[best] == c);
}

} // verus!
