//! Fixed-point fractions with eighteen decimal places.

use vstd::prelude::*;

use crate::FRACTIONAL;
use vstd::arithmetic::mul::lemma_mul_inequality;

verus! {

/// A non-negative fixed-point fraction: the value `atomics / FRACTIONAL`.
/// `FRACTIONAL` atomics make exactly one.
#[derive(Debug, Clone, Copy, PartialEq, Eq, Structural)]
pub struct Decimal {
    /// The fraction scaled by `FRACTIONAL`.
    pub atomics: u128,
}

impl Decimal {
    /// The fraction `whole / 100`: `Decimal::percent(4)` is four percent.
    pub fn percent(whole: u64) -> (r: Decimal)
        ensures
            r.atomics == whole * 10_000_000_000_000_000u128,
    {
        proof {
            lemma_mul_inequality(
                whole as int,
                u64::MAX as int,
                10_000_000_000_000_000int,
            );
        }
        Decimal { atomics: (whole as u128) * 10_000_000_000_000_000u128 }
    }

    /// The fraction one.
    pub fn one() -> (r: Decimal)
        ensures
            r.atomics == FRACTIONAL,
    {
        Decimal { atomics: FRACTIONAL }
    }

    /// Whether the fraction is zero.
    pub fn is_zero(&self) -> (r: bool)
        ensures
            r == (self.atomics == 0),
    {
        self.atomics == 0
    }
}

} // verus!
