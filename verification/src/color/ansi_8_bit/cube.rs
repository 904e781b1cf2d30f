use vstd::prelude::*;

use crate::cell::AsciiCell;
use crate::color::ansi_8_bit::cube_coordinate::CubeCoordinate;
use crate::color::ansi_8_bit::{BACKGROUND, FOREGROUND, SECOND_ARGUMENT};
use crate::color::util::spec_square_distance;
use crate::color::{default_new_cell, lemma_nearest_index_props, spec_nearest, spec_nearest_index, spec_quantize, Color, ColorValue};
use crate::font::Font;
use crate::pixel::Rgb;
use crate::rounded_div::{rounded_div, spec_rounded_div};

verus! {

/// Offset of the first cube color among the 256 8-bit color codes: the 16
/// colors of the 4-bit palette come first.
pub const OFFSET: u8 = 16;

/// A color of the 6x6x6 cube of the 8-bit palette.
#[derive(Clone, Copy, PartialEq, Eq, Structural, PartialOrd, Ord, Hash, Debug, Default)]
pub struct Cube {
    pub r: CubeCoordinate,
    pub g: CubeCoordinate,
    pub b: CubeCoordinate,
}

impl Cube {
    /// Builds a cube color, clamping each coordinate to [0, 5].
    pub fn new(r: u8, g: u8, b: u8) -> (c: Cube)
        ensures
            c == (Cube {
                r: CubeCoordinate { coordinate: if r > 5 { 5u8 } else { r } },
                g: CubeCoordinate { coordinate: if g > 5 { 5u8 } else { g } },
                b: CubeCoordinate { coordinate: if b > 5 { 5u8 } else { b } },
            }),
            c.wf(),
    {
        Cube { r: CubeCoordinate::new(r), g: CubeCoordinate::new(g), b: CubeCoordinate::new(b) }
    }

    /// The SGR color code parameter: `16 + 36 r + 6 g + b`.
    pub open spec fn code_spec(self) -> u8 {
        (OFFSET + 36 * self.r.coordinate + 6 * self.g.coordinate + self.b.coordinate) as u8
    }

    fn code(&self) -> (r: u8)
        requires
            self.wf(),
        ensures
            r == self.code_spec(),
    {
        OFFSET + 36 * self.r.get() + 6 * self.g.get() + self.b.get()
    }

    /// The position in the enumeration.
    pub open spec fn index_spec(self) -> int {
        36 * self.r.coordinate + 6 * self.g.coordinate + self.b.coordinate
    }

    /// Every well-formed cube color sits in the enumeration at its own
    /// position.
    pub proof fn lemma_all_contains(self)
        requires
            self.wf(),
        ensures
            0 <= self.index_spec() < 216,
            Cube::all_spec()[self.index_spec()] == self,
    {
        let r = self.r.coordinate as int;
        let g = self.g.coordinate as int;
        let b = self.b.coordinate as int;
        vstd::arithmetic::div_mod::lemma_div_multiples_vanish_fancy(r, 6 * g + b, 36);
        vstd::arithmetic::div_mod::lemma_div_multiples_vanish_fancy(6 * r + g, b, 6);
        vstd::arithmetic::div_mod::lemma_mod_multiples_vanish(6 * r + g, b, 6);
        vstd::arithmetic::div_mod::lemma_mod_multiples_vanish(r, g, 6);
        vstd::arithmetic::div_mod::lemma_small_mod(g as nat, 6);
        vstd::arithmetic::div_mod::lemma_small_mod(b as nat, 6);
        assert(Cube::from_index_spec(self.index_spec()) == self);
    }

    /// The cube color at position `i` of the enumeration: red varies
    /// slowest, blue fastest.
    pub open spec fn from_index_spec(i: int) -> Cube {
        Cube {
            r: CubeCoordinate { coordinate: (i / 36) as u8 },
            g: CubeCoordinate { coordinate: ((i / 6) % 6) as u8 },
            b: CubeCoordinate { coordinate: (i % 6) as u8 },
        }
    }

    /// The full enumeration of the 216 cube colors.
    pub open spec fn all_spec() -> Seq<Cube> {
        Seq::new(216, |i: int| Cube::from_index_spec(i))
    }

    /// Every cube color: red varies slowest, blue fastest.
    pub fn all() -> (v: Vec<Cube>)
        ensures
            v@ == Cube::all_spec(),
    {
        let mut v: Vec<Cube> = Vec::new();
        let mut i: u16 = 0;
        while i < 216
            invariant
                i <= 216,
                v@.len() == i,
                forall|j: int| 0 <= j < i ==> v@[j] == Cube::from_index_spec(j),
            decreases 216 - i,
        {
            let r: u8 = (i / 36) as u8;
            let g: u8 = ((i / 6) % 6) as u8;
            let b: u8 = (i % 6) as u8;
            v.push(Cube {
                r: CubeCoordinate { coordinate: r },
                g: CubeCoordinate { coordinate: g },
                b: CubeCoordinate { coordinate: b },
            });
            i = i + 1;
        }
        proof {
            assert(v@ =~= Cube::all_spec());
        }
        v
    }
}

impl ColorValue for Cube {
    open spec fn wf(self) -> bool {
        self.r.coordinate <= 5 && self.g.coordinate <= 5 && self.b.coordinate <= 5
    }

    open spec fn rgb_spec(self) -> Rgb {
        Rgb {
            r: (self.r.coordinate * 51) as u8,
            g: (self.g.coordinate * 51) as u8,
            b: (self.b.coordinate * 51) as u8,
        }
    }

    fn to_rgb(&self) -> (c: Rgb) {
        Rgb { r: self.r.get() * 51, g: self.g.get() * 51, b: self.b.get() * 51 }
    }
}

impl Color for Cube {
    open spec fn eq_spec(self, other: Self) -> bool {
        self == other
    }

    /// Each channel independently snaps to the nearest of the six cube
    /// levels, which are 51 apart.
    open spec fn from_rgb_spec(c: Rgb) -> Self {
        Cube {
            r: CubeCoordinate { coordinate: spec_rounded_div(c.r as int, 51) as u8 },
            g: CubeCoordinate { coordinate: spec_rounded_div(c.g as int, 51) as u8 },
            b: CubeCoordinate { coordinate: spec_rounded_div(c.b as int, 51) as u8 },
        }
    }

    open spec fn bg_params(self) -> Seq<u8> {
        seq![BACKGROUND, SECOND_ARGUMENT, self.code_spec()]
    }

    open spec fn fg_params(self) -> Seq<u8> {
        seq![FOREGROUND, SECOND_ARGUMENT, self.code_spec()]
    }

    open spec fn cell_spec(c: Rgb, font: Font) -> AsciiCell<Self> {
        spec_quantize(Cube::all_spec(), c, font)
    }

    fn from_rgb(color: Rgb) -> (c: Self) {
        Cube {
            r: CubeCoordinate { coordinate: rounded_div(color.r as u32, 51) as u8 },
            g: CubeCoordinate { coordinate: rounded_div(color.g as u32, 51) as u8 },
            b: CubeCoordinate { coordinate: rounded_div(color.b as u32, 51) as u8 },
        }
    }

    fn write_background(&self, to: &mut Vec<u8>) {
        to.push(BACKGROUND);
        to.push(SECOND_ARGUMENT);
        to.push(self.code());
        proof {
            assert(to@ =~= old(to)@ + self.bg_params());
        }
    }

    fn write_foreground(&self, to: &mut Vec<u8>) {
        to.push(FOREGROUND);
        to.push(SECOND_ARGUMENT);
        to.push(self.code());
        proof {
            assert(to@ =~= old(to)@ + self.fg_params());
        }
    }

    fn same(&self, other: &Self) -> (r: bool) {
        *self == *other
    }

    fn new_cell(color: Rgb, font: &Font) -> (r: AsciiCell<Self>) {
        let all = Cube::all();
        proof {
            vstd::arithmetic::mul::lemma_mul_upper_bound(
                all@.len() as int,
                256,
                all@.len() as int,
                256,
            );
            vstd::arithmetic::mul::lemma_mul_upper_bound(
                all@.len() as int * all@.len() as int,
                0x10000,
                font.spec_gradient().len() as int,
                u32::MAX as int,
            );
            vstd::arithmetic::mul::lemma_mul_nonnegative(
                all@.len() as int,
                all@.len() as int,
            );
        }
        default_new_cell(&all, color, font)
    }
}

/// Palette round trip: every cube color maps back to itself, because each
/// channel level `51 k` rounds back to `k`.
pub proof fn lemma_palette_round_trip(c: Cube)
    requires
        c.wf(),
    ensures
        Cube::from_rgb_spec(c.rgb_spec()) == c,
{
    vstd::arithmetic::div_mod::lemma_div_multiples_vanish_fancy(c.r.coordinate as int, 25, 51);
    vstd::arithmetic::div_mod::lemma_div_multiples_vanish_fancy(c.g.coordinate as int, 25, 51);
    vstd::arithmetic::div_mod::lemma_div_multiples_vanish_fancy(c.b.coordinate as int, 25, 51);
}

/// Rounding a channel to its nearest cube level is exact: any other of the
/// six levels, which sit 51 apart, is strictly farther from the channel
/// value, so there are never ties.
proof fn lemma_channel_level_nearest(c: u8, k: int)
    requires
        0 <= k <= 5,
    ensures
        (51 * k - c) * (51 * k - c) >= (51 * spec_rounded_div(c as int, 51) - c) * (51
            * spec_rounded_div(c as int, 51) - c),
        k != spec_rounded_div(c as int, 51) ==> (51 * k - c) * (51 * k - c) > (51
            * spec_rounded_div(c as int, 51) - c) * (51 * spec_rounded_div(c as int, 51) - c),
{
    let kstar = spec_rounded_div(c as int, 51);
    vstd::arithmetic::div_mod::lemma_fundamental_div_mod(c as int + 25, 51);
    vstd::arithmetic::div_mod::lemma_mod_division_less_than_divisor(c as int + 25, 51);
    let e = 51 * kstar - c;
    assert(-25 <= e <= 25);
    let d = 51 * k - c;
    if k != kstar {
        vstd::arithmetic::mul::lemma_mul_is_distributive_sub(51, k, kstar);
        assert(d - e == 51 * (k - kstar));
        if k > kstar {
            vstd::arithmetic::mul::lemma_mul_inequality(1, k - kstar, 51);
            assert(d >= 26);
        } else {
            vstd::arithmetic::mul::lemma_mul_inequality(k - kstar, -1, 51);
            assert(d <= -26);
        }
        assert(d * d > e * e) by (nonlinear_arith)
            requires
                -25 <= e <= 25,
                d >= 26 || d <= -26,
        ;
    }
}

/// The per-channel rounding of `from_rgb` picks exactly the color the
/// nearest-by-distance search over all 216 cube colors would: the channels
/// contribute to the squared distance independently, and within a channel
/// the rounded level is the unique nearest.
pub proof fn lemma_from_rgb_is_nearest(c: Rgb)
    ensures
        Cube::from_rgb_spec(c) == spec_nearest(Cube::all_spec(), c),
{
    let all = Cube::all_spec();
    let v = Cube::from_rgb_spec(c);
    assert(v.wf());
    v.lemma_all_contains();
    lemma_nearest_index_props(all, c, 216);
    let best = spec_nearest_index(all, c, 216);
    let w = all[best];
    assert(w == Cube::from_index_spec(best));
    vstd::arithmetic::div_mod::lemma_multiply_divide_lt(best, 36, 6);
    vstd::arithmetic::div_mod::lemma_mod_division_less_than_divisor(best / 6, 6);
    vstd::arithmetic::div_mod::lemma_mod_division_less_than_divisor(best, 6);
    assert(w.wf());
    let dv = spec_square_distance(v.rgb_spec(), c);
    let dw = spec_square_distance(w.rgb_spec(), c);
    assert(dw <= spec_square_distance(all[v.index_spec()].rgb_spec(), c));
    if w != v {
        lemma_channel_level_nearest(c.r, w.r.coordinate as int);
        lemma_channel_level_nearest(c.g, w.g.coordinate as int);
        lemma_channel_level_nearest(c.b, w.b.coordinate as int);
        assert(w.r.coordinate == v.r.coordinate && w.g.coordinate == v.g.coordinate
            && w.b.coordinate == v.b.coordinate ==> w == v);
        assert(dw > dv);
        assert(false);
    }
}

} // verus!
