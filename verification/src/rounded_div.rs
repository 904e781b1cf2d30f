use vstd::prelude::*;

verus! {

/// `n / d` rounded to the nearest integer, halves rounded up.
pub open spec fn spec_rounded_div(n: int, d: int) -> int {
    (n + d / 2) / d
}

/// Division rounded to the nearest integer, halves rounded up.
pub fn rounded_div(numerator: u32, denominator: u32) -> (r: u32)
    requires
        denominator > 0,
    ensures
        r == spec_rounded_div(numerator as int, denominator as int),
{
    proof {
        let d = denominator as u64;
        assert(d >> 1 == d / 2) by (bit_vector);
    }
    let wide: u64 = (numerator as u64) + ((denominator as u64) >> 1);
    proof {
        if denominator >= 2 {
            vstd::arithmetic::div_mod::lemma_div_is_ordered_by_denominator(
                wide as int,
                2,
                denominator as int,
            );
        }
        vstd::arithmetic::div_mod::lemma_div_nonincreasing(wide as int, denominator as int);
    }
    (wide / (denominator as u64)) as u32
}

} // verus!
