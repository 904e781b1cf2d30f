use vstd::prelude::*;

use crate::pixel::{Rgb, Rgba};
use crate::pixel::PixelGrid;
use crate::rational::Rational;
use crate::rounded_div::spec_rounded_div;

verus! {

/// One channel of a linear interpolation `from -> to` at parameter `t`,
/// rounded to the nearest 8-bit value and clamped to 255.
pub open spec fn spec_lerp_channel(from: u8, to: u8, t: Rational) -> u8 {
    let v = spec_rounded_div((t.den - t.num) * from + t.num * to, t.den as int);
    if v > 255 {
        255u8
    } else {
        v as u8
    }
}

/// Linear interpolation between two colors at parameter `t` in [0, 1].
pub open spec fn spec_interpolate(from: Rgb, to: Rgb, t: Rational) -> Rgb {
    Rgb {
        r: spec_lerp_channel(from.r, to.r, t),
        g: spec_lerp_channel(from.g, to.g, t),
        b: spec_lerp_channel(from.b, to.b, t),
    }
}

/// Squared Euclidean distance between two colors in 8-bit channel space.
pub open spec fn spec_square_distance(a: Rgb, b: Rgb) -> int {
    let dr = a.r - b.r;
    let dg = a.g - b.g;
    let db = a.b - b.b;
    dr * dr + dg * dg + db * db
}

/// The luminance of a color on the scale [0, 255], by the integer
/// ITU-R BT.709 weighting `(2126 r + 7152 g + 722 b) / 10000`.
pub open spec fn spec_luma(c: Rgb) -> int {
    (2126 * c.r + 7152 * c.g + 722 * c.b) / 10000
}

fn lerp_channel(from: u8, to: u8, t: Rational) -> (r: u8)
    requires
        t.wf(),
        t.num <= t.den,
    ensures
        r == spec_lerp_channel(from, to, t),
{
    proof {
        vstd::arithmetic::mul::lemma_mul_upper_bound(
            t.den - t.num,
            u64::MAX as int,
            from as int,
            255,
        );
        vstd::arithmetic::mul::lemma_mul_upper_bound(t.num as int, u64::MAX as int, to as int, 255);
        vstd::arithmetic::mul::lemma_mul_nonnegative(t.den - t.num, from as int);
        vstd::arithmetic::mul::lemma_mul_nonnegative(t.num as int, to as int);
    }
    let num: u128 = t.num as u128;
    let den: u128 = t.den as u128;
    let mixed: u128 = (den - num) * (from as u128) + num * (to as u128);
    let v: u128 = (mixed + den / 2) / den;
    if v > 255 {
        255
    } else {
        v as u8
    }
}

/// Mixes `from` toward `to` by the coverage parameter `t`, per channel.
pub fn interpolate(from: Rgb, to: Rgb, t: Rational) -> (r: Rgb)
    requires
        t.wf(),
        t.num <= t.den,
    ensures
        r == spec_interpolate(from, to, t),
{
    Rgb {
        r: lerp_channel(from.r, to.r, t),
        g: lerp_channel(from.g, to.g, t),
        b: lerp_channel(from.b, to.b, t),
    }
}

/// Squared Euclidean distance between two colors in 8-bit channel space.
pub fn square_distance(a: Rgb, b: Rgb) -> (r: u32)
    ensures
        r == spec_square_distance(a, b),
{
    let dr: u32 = if a.r >= b.r {
        (a.r - b.r) as u32
    } else {
        (b.r - a.r) as u32
    };
    let dg: u32 = if a.g >= b.g {
        (a.g - b.g) as u32
    } else {
        (b.g - a.g) as u32
    };
    let db: u32 = if a.b >= b.b {
        (a.b - b.b) as u32
    } else {
        (b.b - a.b) as u32
    };
    proof {
        vstd::arithmetic::mul::lemma_mul_upper_bound(dr as int, 255, dr as int, 255);
        vstd::arithmetic::mul::lemma_mul_upper_bound(dg as int, 255, dg as int, 255);
        vstd::arithmetic::mul::lemma_mul_upper_bound(db as int, 255, db as int, 255);
        assert((b.r - a.r) * (b.r - a.r) == (a.r - b.r) * (a.r - b.r)) by (nonlinear_arith);
        assert((b.g - a.g) * (b.g - a.g) == (a.g - b.g) * (a.g - b.g)) by (nonlinear_arith);
        assert((b.b - a.b) * (b.b - a.b) == (a.b - b.b) * (a.b - b.b)) by (nonlinear_arith);
    }
    dr * dr + dg * dg + db * db
}

/// Luminance on [0, 255] by the integer ITU-R BT.709 weighting.
pub fn luma(c: Rgb) -> (r: u8)
    ensures
        r == spec_luma(c),
        r == spec_luma(c) as u8,
{
    let weighted: u32 = 2126 * (c.r as u32) + 7152 * (c.g as u32) + 722 * (c.b as u32);
    (weighted / 10000) as u8
}

/// The sum over the rectangle `[x0, x0 + w) x [y0, y0 + h)` of one channel,
/// selected by `ch` (0 red, 1 green, 2 blue, 3 alpha), row by row.
pub open spec fn spec_channel(p: Rgba, ch: int) -> int {
    if ch == 0 {
        p.r as int
    } else if ch == 1 {
        p.g as int
    } else if ch == 2 {
        p.b as int
    } else {
        p.a as int
    }
}

/// Sum of a channel over one pixel row segment `[x0, x0 + n)` at row `y`.
pub open spec fn spec_row_sum(img: PixelGrid, y: int, x0: int, n: int, ch: int) -> int
    decreases n,
{
    if n <= 0 {
        0
    } else {
        spec_row_sum(img, y, x0, n - 1, ch) + spec_channel(img.pixel(x0 + n - 1, y), ch)
    }
}

/// Sum of a channel over the rectangle `[x0, x0 + w) x [y0, y0 + m)`.
pub open spec fn spec_rect_sum(img: PixelGrid, x0: int, y0: int, w: int, m: int, ch: int) -> int
    decreases m,
{
    if m <= 0 {
        0
    } else {
        spec_rect_sum(img, x0, y0, w, m - 1, ch) + spec_row_sum(img, y0 + m - 1, x0, w, ch)
    }
}

/// The representative color of a rectangle: each channel is the truncating
/// integer average over all contained pixels.
pub open spec fn spec_average(img: PixelGrid, x0: int, y0: int, w: int, h: int) -> Rgba {
    let area = w * h;
    Rgba {
        r: (spec_rect_sum(img, x0, y0, w, h, 0) / area) as u8,
        g: (spec_rect_sum(img, x0, y0, w, h, 1) / area) as u8,
        b: (spec_rect_sum(img, x0, y0, w, h, 2) / area) as u8,
        a: (spec_rect_sum(img, x0, y0, w, h, 3) / area) as u8,
    }
}

proof fn lemma_row_sum_bound(img: PixelGrid, y: int, x0: int, n: int, ch: int)
    requires
        n >= 0,
    ensures
        0 <= spec_row_sum(img, y, x0, n, ch) <= 255 * n,
    decreases n,
{
    if n > 0 {
        lemma_row_sum_bound(img, y, x0, n - 1, ch);
    }
}

proof fn lemma_rect_sum_bound(img: PixelGrid, x0: int, y0: int, w: int, m: int, ch: int)
    requires
        m >= 0,
        w >= 0,
    ensures
        0 <= spec_rect_sum(img, x0, y0, w, m, ch) <= 255 * (w * m),
    decreases m,
{
    if m > 0 {
        lemma_rect_sum_bound(img, x0, y0, w, m - 1, ch);
        lemma_row_sum_bound(img, y0 + m - 1, x0, w, ch);
        assert(w * m == w * (m - 1) + w) by {
            vstd::arithmetic::mul::lemma_mul_is_distributive_sub(w, m, 1);
        }
        vstd::arithmetic::mul::lemma_mul_is_distributive_add(255, w * (m - 1), w);
    }
}

/// The arithmetic mean of every channel over the pixel rectangle
/// `[x0, x0 + w) x [y0, y0 + h)`, truncating.
pub fn average_color(img: &PixelGrid, x0: u32, y0: u32, w: u32, h: u32) -> (r: Rgba)
    requires
        img.wf(),
        w > 0,
        h > 0,
        x0 + w <= img.spec_width(),
        y0 + h <= img.spec_height(),
    ensures
        r == spec_average(*img, x0 as int, y0 as int, w as int, h as int),
{
    let ghost g_img = *img;
    let mut sum_r: u128 = 0;
    let mut sum_g: u128 = 0;
    let mut sum_b: u128 = 0;
    let mut sum_a: u128 = 0;

    proof {
        vstd::arithmetic::mul::lemma_mul_upper_bound(w as int, u32::MAX as int, h as int, u32::MAX as int);
    }
    let area: u64 = (w as u64) * (h as u64);

    let mut yi: u32 = 0;
    while yi < h
        invariant
            img.wf(),
            *img == g_img,
            w > 0,
            h > 0,
            x0 + w <= img.spec_width(),
            y0 + h <= img.spec_height(),
            yi <= h,
            sum_r == spec_rect_sum(g_img, x0 as int, y0 as int, w as int, yi as int, 0),
            sum_g == spec_rect_sum(g_img, x0 as int, y0 as int, w as int, yi as int, 1),
            sum_b == spec_rect_sum(g_img, x0 as int, y0 as int, w as int, yi as int, 2),
            sum_a == spec_rect_sum(g_img, x0 as int, y0 as int, w as int, yi as int, 3),
        decreases h - yi,
    {
        let mut xi: u32 = 0;
        while xi < w
            invariant
                img.wf(),
                *img == g_img,
                w > 0,
                h > 0,
                x0 + w <= img.spec_width(),
                y0 + h <= img.spec_height(),
                yi < h,
                xi <= w,
                sum_r == spec_rect_sum(g_img, x0 as int, y0 as int, w as int, yi as int, 0)
                    + spec_row_sum(g_img, y0 + yi, x0 as int, xi as int, 0),
                sum_g == spec_rect_sum(g_img, x0 as int, y0 as int, w as int, yi as int, 1)
                    + spec_row_sum(g_img, y0 + yi, x0 as int, xi as int, 1),
                sum_b == spec_rect_sum(g_img, x0 as int, y0 as int, w as int, yi as int, 2)
                    + spec_row_sum(g_img, y0 + yi, x0 as int, xi as int, 2),
                sum_a == spec_rect_sum(g_img, x0 as int, y0 as int, w as int, yi as int, 3)
                    + spec_row_sum(g_img, y0 + yi, x0 as int, xi as int, 3),
            decreases w - xi,
        {
            proof {
                lemma_rect_sum_bound(g_img, x0 as int, y0 as int, w as int, yi as int, 0);
                lemma_rect_sum_bound(g_img, x0 as int, y0 as int, w as int, yi as int, 1);
                lemma_rect_sum_bound(g_img, x0 as int, y0 as int, w as int, yi as int, 2);
                lemma_rect_sum_bound(g_img, x0 as int, y0 as int, w as int, yi as int, 3);
                lemma_row_sum_bound(g_img, y0 + yi, x0 as int, xi as int, 0);
                lemma_row_sum_bound(g_img, y0 + yi, x0 as int, xi as int, 1);
                lemma_row_sum_bound(g_img, y0 + yi, x0 as int, xi as int, 2);
                lemma_row_sum_bound(g_img, y0 + yi, x0 as int, xi as int, 3);
                vstd::arithmetic::mul::lemma_mul_upper_bound(
                    w as int,
                    u32::MAX as int,
                    yi as int,
                    u32::MAX as int,
                );
            }
            let p = img.get_pixel(x0 + xi, y0 + yi);
            sum_r = sum_r + (p.r as u128);
            sum_g = sum_g + (p.g as u128);
            sum_b = sum_b + (p.b as u128);
            sum_a = sum_a + (p.a as u128);
            xi = xi + 1;
        }
        yi = yi + 1;
        proof {
            assert(spec_row_sum(g_img, y0 + yi - 1, x0 as int, w as int, 0)
                + spec_rect_sum(g_img, x0 as int, y0 as int, w as int, yi - 1, 0)
                == spec_rect_sum(g_img, x0 as int, y0 as int, w as int, yi as int, 0));
            assert(spec_row_sum(g_img, y0 + yi - 1, x0 as int, w as int, 1)
                + spec_rect_sum(g_img, x0 as int, y0 as int, w as int, yi - 1, 1)
                == spec_rect_sum(g_img, x0 as int, y0 as int, w as int, yi as int, 1));
            assert(spec_row_sum(g_img, y0 + yi - 1, x0 as int, w as int, 2)
                + spec_rect_sum(g_img, x0 as int, y0 as int, w as int, yi - 1, 2)
                == spec_rect_sum(g_img, x0 as int, y0 as int, w as int, yi as int, 2));
            assert(spec_row_sum(g_img, y0 + yi - 1, x0 as int, w as int, 3)
                + spec_rect_sum(g_img, x0 as int, y0 as int, w as int, yi - 1, 3)
                == spec_rect_sum(g_img, x0 as int, y0 as int, w as int, yi as int, 3));
        }
    }

    proof {
        lemma_avg_fits(g_img, x0 as int, y0 as int, w as int, h as int, 0);
        lemma_avg_fits(g_img, x0 as int, y0 as int, w as int, h as int, 1);
        lemma_avg_fits(g_img, x0 as int, y0 as int, w as int, h as int, 2);
        lemma_avg_fits(g_img, x0 as int, y0 as int, w as int, h as int, 3);
        vstd::arithmetic::mul::lemma_mul_strictly_positive(w as int, h as int);
    }
    Rgba {
        r: (sum_r / (area as u128)) as u8,
        g: (sum_g / (area as u128)) as u8,
        b: (sum_b / (area as u128)) as u8,
        a: (sum_a / (area as u128)) as u8,
    }
}

/// A channel sum divided by the rectangle's area never exceeds 255.
proof fn lemma_avg_fits(img: PixelGrid, x0: int, y0: int, w: int, m: int, ch: int)
    requires
        w > 0,
        m > 0,
    ensures
        0 <= spec_rect_sum(img, x0, y0, w, m, ch) / (w * m) <= 255,
    decreases m,
{
    lemma_rect_sum_bound(img, x0, y0, w, m, ch);
    let area = w * m;
    vstd::arithmetic::mul::lemma_mul_strictly_positive(w, m);
    vstd::arithmetic::div_mod::lemma_div_is_ordered(
        spec_rect_sum(img, x0, y0, w, m, ch),
        255 * area,
        area,
    );
    vstd::arithmetic::div_mod::lemma_div_multiples_vanish(255, area);
    vstd::arithmetic::div_mod::lemma_div_pos_is_pos(spec_rect_sum(img, x0, y0, w, m, ch), area);
}

} // verus!
