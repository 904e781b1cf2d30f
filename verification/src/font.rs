use vstd::prelude::*;

use crate::rational::Rational;

verus! {

/// An immutable glyph-gradient font: glyphs ordered from least to most ink
/// coverage, the coverage of the last glyph, and the width/height ratio of
/// one rendered glyph cell.
#[derive(Clone, PartialEq, Debug)]
pub struct Font {
    pub gradient: Vec<char>,
    pub max_coverage: Rational,
    pub aspect_ratio: Rational,
}

/// The configuration a font can be built from: a non-empty gradient, a
/// maximum coverage in (0, 1], and a positive aspect ratio.
pub open spec fn spec_valid_font(gradient: Seq<char>, max_coverage: Rational, aspect_ratio: Rational) -> bool {
    &&& gradient.len() >= 1
    &&& max_coverage.den > 0
    &&& 0 < max_coverage.num <= max_coverage.den
    &&& aspect_ratio.den > 0
    &&& aspect_ratio.num > 0
}

impl Font {
    /// Valid configuration, with every component small enough that the
    /// coverage and scaling arithmetic stays in bounds.
    pub open spec fn wf(self) -> bool {
        &&& spec_valid_font(self.gradient@, self.max_coverage, self.aspect_ratio)
        &&& self.gradient@.len() <= u32::MAX
        &&& self.max_coverage.den <= u32::MAX
        &&& self.aspect_ratio.num <= u32::MAX
        &&& self.aspect_ratio.den <= u32::MAX
    }

    pub open spec fn spec_gradient(self) -> Seq<char> {
        self.gradient@
    }

    pub open spec fn spec_max_coverage(self) -> Rational {
        self.max_coverage
    }

    pub open spec fn spec_aspect_ratio(self) -> Rational {
        self.aspect_ratio
    }

    /// The coverage of the glyph at index `i`, piecewise linear from zero at
    /// index zero up to the maximum coverage at the last index; indices past
    /// the gradient saturate at the maximum coverage.
    pub open spec fn spec_coverage(self, i: int) -> Rational {
        if i >= self.gradient@.len() {
            self.max_coverage
        } else if self.gradient@.len() == 1 {
            Rational { num: 0, den: 1 }
        } else {
            Rational {
                num: (i * self.max_coverage.num) as u64,
                den: ((self.gradient@.len() - 1) * self.max_coverage.den) as u64,
            }
        }
    }

    /// A glyph's coverage never exceeds one: its numerator is bounded by its
    /// denominator, and both fit the arithmetic the quantizer does on them.
    pub proof fn lemma_coverage_le_one(self, i: int)
        requires
            self.wf(),
            0 <= i,
        ensures
            self.spec_coverage(i).wf(),
            self.spec_coverage(i).num <= self.spec_coverage(i).den,
            self.spec_coverage(i).num as int == if i >= self.gradient@.len() {
                self.max_coverage.num as int
            } else if self.gradient@.len() == 1 {
                0
            } else {
                i * self.max_coverage.num
            },
            self.spec_coverage(i).den as int == if i >= self.gradient@.len() {
                self.max_coverage.den as int
            } else if self.gradient@.len() == 1 {
                1
            } else {
                (self.gradient@.len() - 1) * self.max_coverage.den
            },
    {
        let len = self.gradient@.len() as int;
        if i < len && len != 1 {
            vstd::arithmetic::mul::lemma_mul_upper_bound(
                i,
                u32::MAX as int,
                self.max_coverage.num as int,
                u32::MAX as int,
            );
            vstd::arithmetic::mul::lemma_mul_upper_bound(
                len - 1,
                u32::MAX as int,
                self.max_coverage.den as int,
                u32::MAX as int,
            );
            vstd::arithmetic::mul::lemma_mul_upper_bound(
                i,
                len - 1,
                self.max_coverage.num as int,
                self.max_coverage.den as int,
            );
            vstd::arithmetic::mul::lemma_mul_strictly_positive(
                len - 1,
                self.max_coverage.den as int,
            );
            vstd::arithmetic::mul::lemma_mul_nonnegative(i, self.max_coverage.num as int);
        }
    }

    /// Builds a font, handing the gradient back when the configuration is
    /// invalid: an empty gradient, a maximum coverage outside (0, 1], or an
    /// aspect ratio that is not positive.
    pub fn new(gradient: Vec<char>, max_coverage: Rational, aspect_ratio: Rational) -> (r: Result<Font, Vec<char>>)
        requires
            gradient@.len() <= u32::MAX,
            max_coverage.den <= u32::MAX,
            aspect_ratio.num <= u32::MAX,
            aspect_ratio.den <= u32::MAX,
        ensures
            match r {
                Ok(f) => spec_valid_font(gradient@, max_coverage, aspect_ratio)
                    && f == (Font { gradient, max_coverage, aspect_ratio })
                    && f.wf(),
                Err(g) => !spec_valid_font(gradient@, max_coverage, aspect_ratio) && g == gradient,
            },
    {
        if gradient.len() == 0
            || max_coverage.den == 0
            || max_coverage.num == 0
            || max_coverage.num > max_coverage.den
            || aspect_ratio.den == 0
            || aspect_ratio.num == 0
        {
            return Err(gradient);
        }

        Ok(Font { gradient, max_coverage, aspect_ratio })
    }

    /// The glyphs, from least to most coverage.
    pub fn gradient(&self) -> (r: &Vec<char>)
        ensures
            r@ == self.spec_gradient(),
    {
        &self.gradient
    }

    /// The coverage of the last glyph, in (0, 1].
    pub fn max_coverage(&self) -> (r: Rational)
        ensures
            r == self.spec_max_coverage(),
    {
        self.max_coverage
    }

    /// The width of one rendered glyph cell divided by its height.
    pub fn aspect_ratio(&self) -> (r: Rational)
        ensures
            r == self.spec_aspect_ratio(),
    {
        self.aspect_ratio
    }

    /// The coverage of the glyph at `index`; the maximum coverage when the
    /// index is out of bounds.
    pub fn coverage(&self, index: usize) -> (r: Rational)
        requires
            self.wf(),
        ensures
            r == self.spec_coverage(index as int),
            r.wf(),
    {
        if index >= self.gradient.len() {
            return self.max_coverage;
        }
        if self.gradient.len() == 1 {
            return Rational { num: 0, den: 1 };
        }
        proof {
            vstd::arithmetic::mul::lemma_mul_upper_bound(
                index as int,
                u32::MAX as int,
                self.max_coverage.num as int,
                u32::MAX as int,
            );
            vstd::arithmetic::mul::lemma_mul_upper_bound(
                self.gradient@.len() - 1,
                u32::MAX as int,
                self.max_coverage.den as int,
                u32::MAX as int,
            );
            vstd::arithmetic::mul::lemma_mul_strictly_positive(
                self.gradient@.len() - 1,
                self.max_coverage.den as int,
            );
        }
        let num: u64 = (index as u64) * self.max_coverage.num;
        let den: u64 = ((self.gradient.len() - 1) as u64) * self.max_coverage.den;
        Rational { num, den }
    }
}

/// Coverage is zero at the first glyph, equals the maximum coverage at the
/// last glyph of a gradient with at least two glyphs, and never decreases
/// along the gradient (indices past the end saturate at the maximum).
pub proof fn lemma_coverage_monotone(font: Font, i: int, j: int)
    requires
        font.wf(),
        0 <= i <= j,
    ensures
        font.spec_coverage(0).num == 0,
        font.spec_gradient().len() > 1 ==> font.spec_coverage(
            font.spec_gradient().len() - 1,
        ).same_value(font.spec_max_coverage()),
        font.spec_coverage(i).le(font.spec_coverage(j)),
{
    let len = font.gradient@.len() as int;
    let n = font.max_coverage.num as int;
    let d = font.max_coverage.den as int;
    font.lemma_coverage_le_one(0);
    font.lemma_coverage_le_one(i);
    font.lemma_coverage_le_one(j);
    if len > 1 {
        font.lemma_coverage_le_one(len - 1);
        vstd::arithmetic::mul::lemma_mul_basics(n);
        assert(((len - 1) * n) * d == n * ((len - 1) * d)) by (nonlinear_arith);
    }
    vstd::arithmetic::mul::lemma_mul_basics(n);
    let ci = font.spec_coverage(i);
    let cj = font.spec_coverage(j);
    if i < len && len != 1 {
        if j < len {
            vstd::arithmetic::mul::lemma_mul_inequality(i, j, n);
            vstd::arithmetic::mul::lemma_mul_inequality(i * n, j * n, (len - 1) * d);
        } else {
            vstd::arithmetic::mul::lemma_mul_inequality(i, len - 1, n);
            vstd::arithmetic::mul::lemma_mul_inequality(i * n, (len - 1) * n, d);
            assert(((len - 1) * n) * d == n * ((len - 1) * d)) by (nonlinear_arith);
            assert((i * n) * d <= n * ((len - 1) * d));
        }
    } else if i < len && len == 1 {
        vstd::arithmetic::mul::lemma_mul_nonnegative(cj.num as int, 1);
        assert(ci.num == 0);
        assert(ci.num as int * cj.den as int == 0) by (nonlinear_arith)
            requires
                ci.num == 0,
        ;
        vstd::arithmetic::mul::lemma_mul_nonnegative(cj.num as int, ci.den as int);
    } else {
        assert(ci == cj);
        assert(ci.le(cj)) by (nonlinear_arith)
            requires
                ci == cj,
        ;
    }
}

} // verus!
