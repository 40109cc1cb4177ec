//! Wide multiply-then-divide arithmetic on 128-bit amounts.
//!
//! Fee fractions are fixed-point numbers scaled by `FRACTIONAL` (ten to the
//! eighteenth), so evaluating one needs `floor(a * b / d)` where the
//! intermediate product does not fit in 128 bits. `mul_div` computes it
//! without widening past 128 bits by splitting the first factor into its
//! quotient and remainder by `d`.

use vstd::prelude::*;

use vstd::arithmetic::div_mod::{
    lemma_div_is_ordered, lemma_div_multiples_vanish, lemma_div_pos_is_pos,
    lemma_fundamental_div_mod, lemma_hoist_over_denominator,
};
use vstd::arithmetic::mul::{
    lemma_mul_inequality, lemma_mul_is_commutative, lemma_mul_nonnegative, lemma_mul_upper_bound,
};

verus! {

/// `floor(a * b / d)`, exactly, for a divisor that fits in 64 bits.
///
/// The quotient must itself fit in 128 bits; both call sites in this crate
/// divide by `FRACTIONAL` with a factor at most `FRACTIONAL`, which keeps
/// the quotient at or below `a`.
pub fn mul_div(a: u128, b: u128, d: u128) -> (r: u128)
    requires
        0 < d <= 0xFFFF_FFFF_FFFF_FFFFu128,
        a * b / d as int <= u128::MAX,
    ensures
        r == a * b / d as int,
{
    let q1: u128 = a / d;
    let r1: u128 = a % d;
    let q2: u128 = b / d;
    let r2: u128 = b % d;
    proof {
        lemma_fundamental_div_mod(a as int, d as int);
        lemma_fundamental_div_mod(b as int, d as int);
        assert(a * b == (q1 * b + r1 * q2) * d + r1 * r2) by (nonlinear_arith)
            requires
                a == d * q1 + r1,
                b == d * q2 + r2,
        ;
        lemma_mul_nonnegative(q1 as int, b as int);
        lemma_mul_nonnegative(r1 as int, q2 as int);
        lemma_mul_nonnegative(r1 as int, r2 as int);
        lemma_hoist_over_denominator(
            (r1 * r2) as int,
            (q1 * b + r1 * q2) as int,
            d as nat,
        );
        assert(a * b / d as int == q1 * b + r1 * q2 + r1 * r2 / d as int);
        lemma_div_pos_is_pos((r1 * r2) as int, d as int);
        // Each addend is bounded by the final quotient, so none overflows.
        assert(q1 * b <= u128::MAX);
        assert(q1 * b + r1 * q2 <= u128::MAX);
        // The remainders are below `d`, so their product fits in 128 bits.
        lemma_mul_upper_bound(r1 as int, d - 1, r2 as int, d - 1);
        lemma_mul_upper_bound(d - 1, 0xFFFF_FFFF_FFFF_FFFEu128 as int, d - 1,
            0xFFFF_FFFF_FFFF_FFFEu128 as int);
    }
    let t3: u128 = (r1 * r2) / d;
    q1 * b + r1 * q2 + t3
}

/// A factor at or below the divisor keeps `mul_div`'s quotient at or
/// below `a`: `b <= d` gives `a * b / d as int <= a`.
pub proof fn lemma_mul_div_le(a: u128, b: u128, d: u128)
    requires
        0 < d,
        b <= d,
    ensures
        a * b / d as int <= a,
{
    lemma_mul_inequality(b as int, d as int, a as int);
    lemma_mul_is_commutative(b as int, a as int);
    lemma_mul_is_commutative(d as int, a as int);
    lemma_div_is_ordered((a * b) as int, (a * d) as int, d as int);
    lemma_div_multiples_vanish(a as int, d as int);
    assert(d * a == a * d);
}

} // verus!
