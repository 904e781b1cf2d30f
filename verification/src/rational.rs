use vstd::prelude::*;

verus! {

/// A non-negative rational number, kept as a numerator/denominator pair.
///
/// The pair is not necessarily in lowest terms; two values denote the same
/// rational exactly when they cross-multiply equally, which is what
/// [`Rational::eq_value`] decides.
#[derive(Clone, Copy, PartialEq, Eq, Structural, Debug)]
pub struct Rational {
    pub num: u64,
    pub den: u64,
}

/// The product of two 64-bit values fits in 128 bits.
pub proof fn lemma_u64_mul_fits(a: u64, b: u64)
    ensures
        a as int * b as int <= u64::MAX as int * u64::MAX as int,
        a as int * b as int <= u128::MAX as int,
{
    vstd::arithmetic::mul::lemma_mul_upper_bound(a as int, u64::MAX as int, b as int, u64::MAX as int);
}

impl Rational {
    /// A denominator of zero denotes no rational at all.
    pub open spec fn wf(self) -> bool {
        self.den > 0
    }

    /// The two pairs denote the same rational value.
    pub open spec fn same_value(self, other: Rational) -> bool {
        self.num * other.den == other.num * self.den
    }

    /// `self <= other` as rational values.
    pub open spec fn le(self, other: Rational) -> bool {
        self.num * other.den <= other.num * self.den
    }

    pub fn new(num: u64, den: u64) -> (r: Rational)
        requires
            den > 0,
        ensures
            r == (Rational { num, den }),
            r.wf(),
    {
        Rational { num, den }
    }

    /// Value equality by cross-multiplication.
    pub fn eq_value(&self, other: &Rational) -> (r: bool)
        ensures
            r == self.same_value(*other),
    {
        proof {
            lemma_u64_mul_fits(self.num, other.den);
            lemma_u64_mul_fits(other.num, self.den);
        }
        let a: u128 = (self.num as u128) * (other.den as u128);
        let b: u128 = (other.num as u128) * (self.den as u128);
        a == b
    }

    /// Value comparison by cross-multiplication.
    pub fn le_value(&self, other: &Rational) -> (r: bool)
        ensures
            r == self.le(*other),
    {
        proof {
            lemma_u64_mul_fits(self.num, other.den);
            lemma_u64_mul_fits(other.num, self.den);
        }
        let a: u128 = (self.num as u128) * (other.den as u128);
        let b: u128 = (other.num as u128) * (self.den as u128);
        a <= b
    }

    /// The pair denotes zero.
    pub fn is_zero(&self) -> (r: bool)
        ensures
            r == (self.num == 0),
    {
        self.num == 0
    }
}

} // verus!
