use vstd::prelude::*;

pub mod ansi_24_bit;
pub mod ansi_3_bit;
pub mod ansi_4_bit;
pub mod ansi_8_bit;
pub mod colorless;
pub mod util;

use crate::cell::{AsciiCell, Foreground};
use crate::font::Font;
use crate::pixel::Rgb;
use util::{interpolate, spec_interpolate, spec_square_distance, square_distance};

verus! {

/// The part of a palette the quantizer searches over: which values the
/// palette holds and what RGB value each denotes.
pub trait ColorValue: Sized + Copy {
    /// The value is one the palette can actually hold.
    spec fn wf(self) -> bool;

    /// The RGB value this palette value denotes.
    spec fn rgb_spec(self) -> Rgb;

    fn to_rgb(&self) -> (r: Rgb)
        requires
            self.wf(),
        ensures
            r == self.rgb_spec(),
    ;
}

/// The full capability set every palette shares: approximation from 8-bit
/// RGB, emission of the SGR color-selection parameters, the comparison the
/// renderer diffs by, and construction of a best-fit cell for a sampled
/// color.
pub trait Color: ColorValue {
    /// The equivalence the renderer diffs by; structural for every palette
    /// except the 8-bit one, which compares by denoted RGB value.
    spec fn eq_spec(self, other: Self) -> bool;

    /// The palette value that approximates `c`.
    spec fn from_rgb_spec(c: Rgb) -> Self;

    /// The SGR parameters that select this value as the background.
    spec fn bg_params(self) -> Seq<u8>;

    /// The SGR parameters that select this value as the foreground.
    spec fn fg_params(self) -> Seq<u8>;

    /// The best-fit cell for sampled color `c` under `font`.
    spec fn cell_spec(c: Rgb, font: Font) -> AsciiCell<Self>;

    /// Approximates `color` by a value of this palette.
    fn from_rgb(color: Rgb) -> (r: Self)
        ensures
            r == Self::from_rgb_spec(color),
            r.wf(),
    ;

    /// Appends the SGR parameters that select `self` as the background.
    fn write_background(&self, to: &mut Vec<u8>)
        requires
            self.wf(),
        ensures
            final(to)@ == old(to)@ + self.bg_params(),
    ;

    /// Appends the SGR parameters that select `self` as the foreground.
    fn write_foreground(&self, to: &mut Vec<u8>)
        requires
            self.wf(),
        ensures
            final(to)@ == old(to)@ + self.fg_params(),
    ;

    /// Decides `eq_spec`.
    fn same(&self, other: &Self) -> (r: bool)
        requires
            self.wf(),
            other.wf(),
        ensures
            r == self.eq_spec(*other),
    ;

    /// The best-fit cell for sampled color `color` under `font`.
    fn new_cell(color: Rgb, font: &Font) -> (r: AsciiCell<Self>)
        requires
            font.wf(),
        ensures
            r == Self::cell_spec(color, *font),
            r.background.wf(),
            (match r.foreground {
                Some(f) => f.color.wf(),
                None => true,
            }),
    ;
}

/// Both colors of a cell are values their palette can hold.
pub open spec fn cell_wf<C: ColorValue>(cell: AsciiCell<C>) -> bool {
    &&& cell.background.wf()
    &&& match cell.foreground {
        Some(f) => f.color.wf(),
        None => true,
    }
}

/// How many (background, foreground, glyph) combinations the exhaustive
/// search ranges over.
pub open spec fn spec_combo_count<C: ColorValue>(colors: Seq<C>, font: Font) -> int {
    colors.len() as int * colors.len() as int * font.spec_gradient().len() as int
}

/// The distance of combination `k` from `target`: combinations are numbered
/// with the background index outermost, then the foreground index, then the
/// glyph index, which fixes the enumeration order that breaks ties.
pub open spec fn spec_combo_dist<C: ColorValue>(colors: Seq<C>, target: Rgb, font: Font, k: int) -> int {
    let p = colors.len() as int;
    let g = font.spec_gradient().len() as int;
    let bg = colors[k / (p * g)].rgb_spec();
    let fg = colors[(k / g) % p].rgb_spec();
    let cov = font.spec_coverage(k % g);
    spec_square_distance(spec_interpolate(bg, fg, cov), target)
}

/// The first combination among `0 .. n` of minimal distance: a later
/// combination displaces an earlier one only with a strictly smaller
/// distance.
pub open spec fn spec_best_combo<C: ColorValue>(colors: Seq<C>, target: Rgb, font: Font, n: int) -> int
    decreases n,
{
    if n <= 1 {
        0
    } else {
        let prev = spec_best_combo(colors, target, font, n - 1);
        if spec_combo_dist(colors, target, font, n - 1) < spec_combo_dist(colors, target, font, prev) {
            n - 1
        } else {
            prev
        }
    }
}

/// The cell the exhaustive quantizer selects: the best combination's
/// background and foreground, with the foreground omitted when the selected
/// glyph is the zero-coverage glyph at index 0 (it renders as a blank, so
/// its color would be invisible).
pub open spec fn spec_quantize<C: ColorValue>(colors: Seq<C>, target: Rgb, font: Font) -> AsciiCell<C> {
    let p = colors.len() as int;
    let g = font.spec_gradient().len() as int;
    let best = spec_best_combo(colors, target, font, p * p * g);
    let glyph = best % g;
    AsciiCell {
        background: colors[best / (p * g)],
        foreground: if glyph == 0 {
            None
        } else {
            Some(
                Foreground {
                    color: colors[(best / g) % p],
                    character: font.spec_gradient()[glyph],
                },
            )
        },
    }
}

/// The index of the first palette value nearest to `target` among the
/// first `n`.
pub open spec fn spec_nearest_index<C: ColorValue>(colors: Seq<C>, target: Rgb, n: int) -> int
    decreases n,
{
    if n <= 1 {
        0
    } else {
        let prev = spec_nearest_index(colors, target, n - 1);
        if spec_square_distance(colors[n - 1].rgb_spec(), target) < spec_square_distance(
            colors[prev].rgb_spec(),
            target,
        ) {
            n - 1
        } else {
            prev
        }
    }
}

/// The first palette value nearest to `target` by squared distance.
pub open spec fn spec_nearest<C: ColorValue>(colors: Seq<C>, target: Rgb) -> C {
    colors[spec_nearest_index(colors, target, colors.len() as int)]
}


/// With at least one palette value and one glyph, the partial products of
/// the combination count are positive and bounded by the count itself.
proof fn lemma_combo_count_bounds(p: int, g: int)
    requires
        1 <= p,
        1 <= g,
    ensures
        0 < p * g,
        0 < p * p,
        0 < p * p * g,
        p * g <= p * p * g,
        p * p <= p * p * g,
        p * p * g == p * (p * g),
{
    vstd::arithmetic::mul::lemma_mul_strictly_positive(p, g);
    vstd::arithmetic::mul::lemma_mul_strictly_positive(p, p);
    vstd::arithmetic::mul::lemma_mul_strictly_positive(p * p, g);
    vstd::arithmetic::mul::lemma_mul_is_associative(p, p, g);
    vstd::arithmetic::mul::lemma_mul_inequality(1, p, p * g);
    vstd::arithmetic::mul::lemma_mul_basics(p * g);
    vstd::arithmetic::mul::lemma_mul_left_inequality(p * p, 1, g);
    vstd::arithmetic::mul::lemma_mul_basics(p * p);
}

/// The distance of combination `k`, computed in 8-bit integer space.
fn combo_dist_at<C: ColorValue>(colors: &Vec<C>, target: Rgb, font: &Font, k: u64) -> (d: u32)
    requires
        font.wf(),
        1 <= colors@.len(),
        spec_combo_count(colors@, *font) <= u64::MAX,
        forall|i: int| 0 <= i < colors@.len() ==> (#[trigger] colors@[i]).wf(),
        k < spec_combo_count(colors@, *font),
    ensures
        d == spec_combo_dist(colors@, target, *font, k as int),
{
    let p: u64 = colors.len() as u64;
    let g: u64 = font.gradient().len() as u64;
    proof {
        let pi = p as int;
        let gi_ = g as int;
        lemma_combo_count_bounds(pi, gi_);
        vstd::arithmetic::mul::lemma_mul_is_commutative(pi, pi * gi_);
        vstd::arithmetic::div_mod::lemma_multiply_divide_lt(k as int, pi * gi_, pi);
        vstd::arithmetic::div_mod::lemma_mod_division_less_than_divisor(k as int / gi_, pi);
        vstd::arithmetic::div_mod::lemma_mod_division_less_than_divisor(k as int, gi_);
    }
    let from_i: u64 = k / (p * g);
    let to_i: u64 = (k / g) % p;
    let gi: u64 = k % g;
    let bg = colors[from_i as usize].to_rgb();
    let fg = colors[to_i as usize].to_rgb();
    let cov = font.coverage(gi as usize);
    proof {
        font.lemma_coverage_le_one(gi as int);
    }
    square_distance(interpolate(bg, fg, cov), target)
}

/// Exhaustive quantization over an explicit palette enumeration: every
/// (background, foreground, glyph) combination is scored by the squared
/// distance between its interpolated color and `target`, and the first
/// combination of minimal distance wins.
pub fn default_new_cell<C: ColorValue>(colors: &Vec<C>, target: Rgb, font: &Font) -> (r: AsciiCell<C>)
    requires
        font.wf(),
        1 <= colors@.len(),
        spec_combo_count(colors@, *font) <= u64::MAX,
        forall|i: int| 0 <= i < colors@.len() ==> (#[trigger] colors@[i]).wf(),
    ensures
        r == spec_quantize(colors@, target, *font),
        cell_wf(r),
{
    let p: u64 = colors.len() as u64;
    let g: u64 = font.gradient().len() as u64;
    proof {
        lemma_combo_count_bounds(p as int, g as int);
    }
    let total: u64 = p * p * g;
    let mut best_k: u64 = 0;
    let mut best_dist: u32 = combo_dist_at(colors, target, font, 0);
    let mut k: u64 = 1;
    while k < total
        invariant
            font.wf(),
            1 <= colors@.len(),
            spec_combo_count(colors@, *font) <= u64::MAX,
            forall|i: int| 0 <= i < colors@.len() ==> (#[trigger] colors@[i]).wf(),
            p == colors@.len(),
            g == font.spec_gradient().len(),
            total == spec_combo_count(colors@, *font),
            1 <= k <= total,
            best_k < k,
            best_k == spec_best_combo(colors@, target, *font, k as int),
            best_dist == spec_combo_dist(colors@, target, *font, best_k as int),
        decreases total - k,
    {
        let d = combo_dist_at(colors, target, font, k);
        if d < best_dist {
            best_k = k;
            best_dist = d;
        }
        k = k + 1;
    }
    proof {
        let pi = p as int;
        let gi_ = g as int;
        lemma_combo_count_bounds(pi, gi_);
        vstd::arithmetic::mul::lemma_mul_is_commutative(pi, pi * gi_);
        vstd::arithmetic::div_mod::lemma_multiply_divide_lt(best_k as int, pi * gi_, pi);
        vstd::arithmetic::div_mod::lemma_mod_division_less_than_divisor(best_k as int / gi_, pi);
        vstd::arithmetic::div_mod::lemma_mod_division_less_than_divisor(best_k as int, gi_);
    }
    let from_i: u64 = best_k / (p * g);
    let to_i: u64 = (best_k / g) % p;
    let gi: u64 = best_k % g;
    let background = colors[from_i as usize];
    let foreground = if gi == 0 {
        None
    } else {
        Some(Foreground { color: colors[to_i as usize], character: font.gradient()[gi as usize] })
    };
    AsciiCell { background, foreground }
}

/// The first palette value nearest to `target` by squared distance in 8-bit
/// space; ties go to the earlier value in enumeration order.
pub fn default_from_rgb<C: ColorValue>(colors: &Vec<C>, target: Rgb) -> (r: C)
    requires
        1 <= colors@.len(),
        forall|i: int| 0 <= i < colors@.len() ==> (#[trigger] colors@[i]).wf(),
    ensures
        r == spec_nearest(colors@, target),
        r.wf(),
{
    let mut best_i: usize = 0;
    let mut best_dist: u32 = square_distance(colors[0].to_rgb(), target);
    let mut i: usize = 1;
    while i < colors.len()
        invariant
            1 <= colors@.len(),
            forall|j: int| 0 <= j < colors@.len() ==> (#[trigger] colors@[j]).wf(),
            1 <= i <= colors@.len(),
            best_i < i,
            best_i == spec_nearest_index(colors@, target, i as int),
            best_dist == spec_square_distance(colors@[best_i as int].rgb_spec(), target),
        decreases colors@.len() - i,
    {
        let d = square_distance(colors[i].to_rgb(), target);
        if d < best_dist {
            best_i = i;
            best_dist = d;
        }
        i = i + 1;
    }
    colors[best_i]
}

/// A squared distance is never negative.
pub proof fn lemma_square_distance_nonneg(a: Rgb, b: Rgb)
    ensures
        0 <= spec_square_distance(a, b),
{
    assert((a.r - b.r) * (a.r - b.r) >= 0) by (nonlinear_arith);
    assert((a.g - b.g) * (a.g - b.g) >= 0) by (nonlinear_arith);
    assert((a.b - b.b) * (a.b - b.b) >= 0) by (nonlinear_arith);
}

/// A squared distance is zero exactly between equal colors.
pub proof fn lemma_square_distance_zero(a: Rgb, b: Rgb)
    ensures
        (spec_square_distance(a, b) == 0) <==> (a == b),
{
    assert((a.r - b.r) * (a.r - b.r) == 0 <==> a.r == b.r) by (nonlinear_arith);
    assert((a.g - b.g) * (a.g - b.g) == 0 <==> a.g == b.g) by (nonlinear_arith);
    assert((a.b - b.b) * (a.b - b.b) == 0 <==> a.b == b.b) by (nonlinear_arith);
    lemma_square_distance_nonneg(a, b);
    assert((a.r - b.r) * (a.r - b.r) >= 0) by (nonlinear_arith);
    assert((a.g - b.g) * (a.g - b.g) >= 0) by (nonlinear_arith);
    assert((a.b - b.b) * (a.b - b.b) >= 0) by (nonlinear_arith);
}

/// The nearest-value index lies in range, no value beats it, and every
/// value before it is strictly farther: the first minimum wins.
pub proof fn lemma_nearest_index_props<C: ColorValue>(colors: Seq<C>, target: Rgb, n: int)
    requires
        1 <= n <= colors.len(),
    ensures
        0 <= spec_nearest_index(colors, target, n) < n,
        forall|k: int|
            0 <= k < n ==> spec_square_distance(
                colors[spec_nearest_index(colors, target, n)].rgb_spec(),
                target,
            ) <= spec_square_distance((#[trigger] colors[k]).rgb_spec(), target),
        forall|k: int|
            0 <= k < spec_nearest_index(colors, target, n) ==> spec_square_distance(
                (#[trigger] colors[k]).rgb_spec(),
                target,
            ) > spec_square_distance(colors[spec_nearest_index(colors, target, n)].rgb_spec(), target),
    decreases n,
{
    if n > 1 {
        lemma_nearest_index_props(colors, target, n - 1);
    }
}

/// If some palette value denotes `target` exactly, the nearest value also
/// denotes `target` exactly: palette round trips rest on this.
pub proof fn lemma_nearest_exact<C: ColorValue>(colors: Seq<C>, target: Rgb, witness: int)
    requires
        0 <= witness < colors.len(),
        colors[witness].rgb_spec() == target,
    ensures
        spec_nearest(colors, target).rgb_spec() == target,
{
    lemma_nearest_index_props(colors, target, colors.len() as int);
    let best = spec_nearest_index(colors, target, colors.len() as int);
    lemma_square_distance_zero(colors[witness].rgb_spec(), target);
    lemma_square_distance_nonneg(colors[best].rgb_spec(), target);
    lemma_square_distance_zero(colors[best].rgb_spec(), target);
}

/// Quantization is deterministic: the chosen cell is a function of the
/// sampled color and the font alone, so any two invocations on equal
/// inputs — in any order, on any thread — return identical cells.
pub proof fn lemma_quantizer_deterministic<C: Color>(c1: Rgb, c2: Rgb, f1: Font, f2: Font)
    requires
        c1 == c2,
        f1 == f2,
    ensures
        C::cell_spec(c1, f1) == C::cell_spec(c2, f2),
{
}

} // verus!
