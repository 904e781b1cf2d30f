use vstd::prelude::*;

pub mod cube;
pub mod cube_coordinate;
pub mod grayscale;

use crate::cell::AsciiCell;
use crate::color::ansi_3_bit::Ansi3Bit;
use crate::color::ansi_4_bit::Ansi4Bit;
use crate::color::{default_from_rgb, default_new_cell, lemma_nearest_exact, spec_nearest, spec_quantize, Color, ColorValue};
use crate::font::Font;
use crate::pixel::Rgb;
use cube::Cube;
use cube_coordinate::CubeCoordinate;
use grayscale::Grayscale;

verus! {

/// First SGR parameter selecting an 8-bit background color.
pub const BACKGROUND: u8 = 48;

/// First SGR parameter selecting an 8-bit foreground color.
pub const FOREGROUND: u8 = 38;

/// Second SGR parameter announcing an 8-bit color code.
pub const SECOND_ARGUMENT: u8 = 5;

/// An 8-bit terminal color: one of the 16 colors of the 4-bit palette, a
/// 6x6x6 cube color, or a step of the 24-step grayscale ramp.
#[derive(Clone, Copy, PartialEq, Eq, Structural, Hash, Debug)]
pub enum Ansi8Bit {
    Ansi4Bit(Ansi4Bit),
    Cube(Cube),
    Grayscale(Grayscale),
}

impl Default for Ansi8Bit {
    fn default() -> (r: Self)
        ensures
            r == Ansi8Bit::Ansi4Bit(Ansi4Bit { is_bright: false, color: Ansi3Bit::Black }),
    {
        Ansi8Bit::Ansi4Bit(Ansi4Bit { is_bright: false, color: Ansi3Bit::Black })
    }
}

impl Ansi8Bit {
    /// The color at position `i` of the enumeration: the 16 colors of the
    /// 4-bit palette, then the 216 cube colors, then the 24 ramp steps, in
    /// 8-bit color-code order.
    pub open spec fn from_index_spec(i: int) -> Ansi8Bit {
        if i < 16 {
            Ansi8Bit::Ansi4Bit(Ansi4Bit::from_index_spec(i))
        } else if i < 232 {
            Ansi8Bit::Cube(Cube::from_index_spec(i - 16))
        } else {
            Ansi8Bit::Grayscale(Grayscale { brightness: (i - 232) as u8 })
        }
    }

    /// The full enumeration of all 256 colors, in color-code order.
    pub open spec fn all_spec() -> Seq<Ansi8Bit> {
        Seq::new(256, |i: int| Ansi8Bit::from_index_spec(i))
    }

    /// Every 8-bit color, in color-code order.
    pub fn all() -> (v: Vec<Ansi8Bit>)
        ensures
            v@ == Ansi8Bit::all_spec(),
    {
        let mut v: Vec<Ansi8Bit> = Vec::new();
        let mut i: u16 = 0;
        while i < 256
            invariant
                i <= 256,
                v@.len() == i,
                forall|j: int| 0 <= j < i ==> v@[j] == Ansi8Bit::from_index_spec(j),
            decreases 256 - i,
        {
            if i < 16 {
                let color = Ansi3Bit::from_index((i % 8) as u8);
                v.push(Ansi8Bit::Ansi4Bit(Ansi4Bit { is_bright: i >= 8, color }));
            } else if i < 232 {
                let j: u16 = i - 16;
                v.push(Ansi8Bit::Cube(Cube {
                    r: CubeCoordinate { coordinate: (j / 36) as u8 },
                    g: CubeCoordinate { coordinate: ((j / 6) % 6) as u8 },
                    b: CubeCoordinate { coordinate: (j % 6) as u8 },
                }));
            } else {
                v.push(Ansi8Bit::Grayscale(Grayscale { brightness: (i - 232) as u8 }));
            }
            i = i + 1;
        }
        proof {
            assert(v@ =~= Ansi8Bit::all_spec());
        }
        v
    }
}

impl Ansi8Bit {
    /// How many values the palette has.
    pub fn cardinality() -> (r: u64)
        ensures
            r == Ansi8Bit::all_spec().len(),
    {
        256
    }
}

impl ColorValue for Ansi8Bit {
    open spec fn wf(self) -> bool {
        match self {
            Ansi8Bit::Ansi4Bit(c) => c.wf(),
            Ansi8Bit::Cube(c) => c.wf(),
            Ansi8Bit::Grayscale(c) => c.wf(),
        }
    }

    open spec fn rgb_spec(self) -> Rgb {
        match self {
            Ansi8Bit::Ansi4Bit(c) => c.rgb_spec(),
            Ansi8Bit::Cube(c) => c.rgb_spec(),
            Ansi8Bit::Grayscale(c) => c.rgb_spec(),
        }
    }

    fn to_rgb(&self) -> (r: Rgb) {
        match self {
            Ansi8Bit::Ansi4Bit(c) => c.to_rgb(),
            Ansi8Bit::Cube(c) => c.to_rgb(),
            Ansi8Bit::Grayscale(c) => c.to_rgb(),
        }
    }
}

impl Color for Ansi8Bit {
    /// Two 8-bit colors are interchangeable exactly when they denote the
    /// same RGB value, whichever of the three representations holds them.
    open spec fn eq_spec(self, other: Self) -> bool {
        self.rgb_spec() == other.rgb_spec()
    }

    /// The nearest of all 256 enumerated colors by squared distance, ties
    /// going to the earlier color code.
    open spec fn from_rgb_spec(c: Rgb) -> Self {
        spec_nearest(Ansi8Bit::all_spec(), c)
    }

    open spec fn bg_params(self) -> Seq<u8> {
        match self {
            Ansi8Bit::Ansi4Bit(c) => c.bg_params(),
            Ansi8Bit::Cube(c) => c.bg_params(),
            Ansi8Bit::Grayscale(c) => c.bg_params(),
        }
    }

    open spec fn fg_params(self) -> Seq<u8> {
        match self {
            Ansi8Bit::Ansi4Bit(c) => c.fg_params(),
            Ansi8Bit::Cube(c) => c.fg_params(),
            Ansi8Bit::Grayscale(c) => c.fg_params(),
        }
    }

    open spec fn cell_spec(c: Rgb, font: Font) -> AsciiCell<Self> {
        spec_quantize(Ansi8Bit::all_spec(), c, font)
    }

    fn from_rgb(color: Rgb) -> (r: Self) {
        let all = Ansi8Bit::all();
        default_from_rgb(&all, color)
    }

    fn write_background(&self, to: &mut Vec<u8>) {
        match self {
            Ansi8Bit::Ansi4Bit(c) => c.write_background(to),
            Ansi8Bit::Cube(c) => c.write_background(to),
            Ansi8Bit::Grayscale(c) => c.write_background(to),
        }
    }

    fn write_foreground(&self, to: &mut Vec<u8>) {
        match self {
            Ansi8Bit::Ansi4Bit(c) => c.write_foreground(to),
            Ansi8Bit::Cube(c) => c.write_foreground(to),
            Ansi8Bit::Grayscale(c) => c.write_foreground(to),
        }
    }

    fn same(&self, other: &Self) -> (r: bool) {
        let a = self.to_rgb();
        let b = other.to_rgb();
        a == b
    }

    fn new_cell(color: Rgb, font: &Font) -> (r: AsciiCell<Self>) {
        let all = Ansi8Bit::all();
        proof {
            vstd::arithmetic::mul::lemma_mul_upper_bound(
                all@.len() as int,
                256,
                all@.len() as int,
                256,
            );
            vstd::arithmetic::mul::lemma_mul_upper_bound(
                all@.len() as int * all@.len() as int,
                0x10000,
                font.spec_gradient().len() as int,
                u32::MAX as int,
            );
            vstd::arithmetic::mul::lemma_mul_nonnegative(
                all@.len() as int,
                all@.len() as int,
            );
        }
        default_new_cell(&all, color, font)
    }
}

impl Ansi8Bit {
    /// The position of a color in the enumeration: its 8-bit color code.
    pub open spec fn index_spec(self) -> int {
        match self {
            Ansi8Bit::Ansi4Bit(x) => x.index_spec(),
            Ansi8Bit::Cube(k) => 16 + 36 * k.r.coordinate + 6 * k.g.coordinate + k.b.coordinate,
            Ansi8Bit::Grayscale(g) => 232 + g.brightness,
        }
    }

    /// Every color of the palette sits in the enumeration at its own code.
    pub proof fn lemma_all_contains(c: Ansi8Bit)
        requires
            c.wf(),
        ensures
            0 <= c.index_spec() < 256,
            Ansi8Bit::all_spec()[c.index_spec()] == c,
    {
        match c {
            Ansi8Bit::Ansi4Bit(x) => {
                let ci = x.color.index_spec() as int;
                if x.is_bright {
                    vstd::arithmetic::div_mod::lemma_mod_multiples_vanish(1, ci, 8);
                }
                vstd::arithmetic::div_mod::lemma_small_mod(ci as nat, 8);
            },
            Ansi8Bit::Cube(k) => {
                let r = k.r.coordinate as int;
                let g = k.g.coordinate as int;
                let b = k.b.coordinate as int;
                let code = 36 * r + 6 * g + b;
                vstd::arithmetic::div_mod::lemma_div_multiples_vanish_fancy(r, 6 * g + b, 36);
                vstd::arithmetic::div_mod::lemma_div_multiples_vanish_fancy(6 * r + g, b, 6);
                vstd::arithmetic::div_mod::lemma_mod_multiples_vanish(6 * r + g, b, 6);
                vstd::arithmetic::div_mod::lemma_mod_multiples_vanish(r, g, 6);
                vstd::arithmetic::div_mod::lemma_small_mod(g as nat, 6);
                vstd::arithmetic::div_mod::lemma_small_mod(b as nat, 6);
                assert(Cube::from_index_spec(code) == k);
            },
            Ansi8Bit::Grayscale(g) => {},
        }
    }
}

/// Palette round trip: every 8-bit color comes back from its own RGB value
/// as an interchangeable color — equal in denoted RGB value, though
/// possibly held by another of the three representations when two of them
/// denote the same value.
pub proof fn lemma_palette_round_trip(c: Ansi8Bit)
    requires
        c.wf(),
    ensures
        Ansi8Bit::from_rgb_spec(c.rgb_spec()).eq_spec(c),
{
    Ansi8Bit::lemma_all_contains(c);
    lemma_nearest_exact(Ansi8Bit::all_spec(), c.rgb_spec(), c.index_spec());
}

} // verus!
