//! The fee calculator: one rate, one payment amount, an optional decay
//! rule and two timestamps give one fee amount.

use vstd::prelude::*;

use crate::error::Error;
use crate::math::{lemma_mul_div_le, mul_div};
use crate::rate::{Coin, CoinV, Rate, RateV, Thredshold};
use crate::FRACTIONAL;
use vstd::arithmetic::div_mod::{
    lemma_div_is_ordered, lemma_div_is_ordered_by_denominator, lemma_div_multiples_vanish,
    lemma_fundamental_div_mod,
};
use vstd::arithmetic::mul::{
    lemma_mul_inequality, lemma_mul_is_commutative, lemma_mul_left_inequality,
    lemma_mul_upper_bound,
};

verus! {

/// `FRACTIONAL` squared: the scale of a reciprocal times the scale of
/// a fraction.
pub const FRACTIONAL_SQUARED: u128 = 1_000_000_000_000_000_000_000_000_000_000_000_000;

/// Time must move forward once evaluation has begun: a stored timestamp of
/// zero means "never evaluated" and accepts any current timestamp.
pub open spec fn spec_timestamps_ok(cur: u64, last: u64) -> bool {
    last == 0 || cur > last
}

/// The decay decrement after `elapsed` seconds: one `unit` per whole
/// `duration`, by truncating division.
pub open spec fn spec_decrement(th: Thredshold, elapsed: u64) -> int {
    (elapsed as int / th.duration as int) * th.unit
}

/// A flat fee after decay. Without a decay rule, or before any evaluation
/// (`last == 0`), the fee is the flat amount itself. Otherwise the
/// decrement is subtracted — underflow is an error, never a silent floor —
/// and the result is clamped from below at the rule's `value`.
pub open spec fn spec_flat_fee(
    amount: u128,
    th: Option<Thredshold>,
    cur: u64,
    last: u64,
) -> Result<u128, Error>
    recommends
        th matches Some(t) ==> t.duration > 0,
        spec_timestamps_ok(cur, last),
{
    match th {
        Option::None => Ok(amount),
        Option::Some(t) => {
            if last == 0 {
                Ok(amount)
            } else {
                let dec = spec_decrement(t, (cur - last) as u64);
                if dec > amount {
                    Err(Error::Underflow)
                } else if amount - dec < t.value {
                    Ok(t.value)
                } else {
                    Ok((amount - dec) as u128)
                }
            }
        },
    }
}

/// The reciprocal of a fraction of `n` atomics, itself in atomics,
/// truncated: `floor(FRACTIONAL_SQUARED / n)`.
pub open spec fn spec_reciprocal(n: u128) -> int
    recommends
        n > 0,
{
    FRACTIONAL_SQUARED as int / n as int
}

/// A percentage fee on payment amount `a` with a fraction of `n` atomics:
/// the product truncated toward zero, then rounded up by one unit whenever
/// multiplying the truncated fee by the truncated reciprocal of the
/// fraction falls strictly below `a` — remainders favour the fee recipient,
/// never the payer.
pub open spec fn spec_percent_fee(a: u128, n: u128) -> int
    recommends
        0 < n <= FRACTIONAL,
{
    let f = a * n / FRACTIONAL as int;
    if f * spec_reciprocal(n) / (FRACTIONAL as int) < a {
        f + 1
    } else {
        f
    }
}

/// The full fee calculation. A flat fee is denominated in the rate's own
/// denomination; a percentage fee in the payment's.
pub open spec fn spec_calculate_fee(
    rate: RateV,
    payment: CoinV,
    th: Option<Thredshold>,
    cur: u64,
    last: u64,
) -> Result<CoinV, Error>
    recommends
        th matches Some(t) ==> t.duration > 0,
{
    if !spec_timestamps_ok(cur, last) {
        Err(Error::TemporalError)
    } else {
        match rate {
            RateV::Flat(coin) => match spec_flat_fee(coin.amount, th, cur, last) {
                Ok(amount) => Ok(CoinV { amount, denom: coin.denom }),
                Err(e) => Err(e),
            },
            RateV::Percent(n) => {
                if !(0 < n && n <= FRACTIONAL) {
                    Err(Error::InvalidRate)
                } else {
                    Ok(
                        CoinV {
                            amount: spec_percent_fee(payment.amount, n) as u128,
                            denom: payment.denom,
                        },
                    )
                }
            },
        }
    }
}

/// The truncated percentage fee and its rounded-up successor both stay at
/// or below the payment amount, so the computed fee always fits and never
/// exceeds the payment.
pub proof fn lemma_percent_fee_fits(a: u128, n: u128)
    requires
        0 < n <= FRACTIONAL,
    ensures
        a * n / FRACTIONAL as int <= a,
        spec_percent_fee(a, n) <= a,
{
    lemma_mul_div_le(a, n, FRACTIONAL);
    let f = a * n / FRACTIONAL as int;
    let inv = spec_reciprocal(n);
    let rev = f * inv / FRACTIONAL as int;
    if rev < a {
        // The reciprocal is at least one (scaled), so a truncated fee that
        // already reached `a` reverses to at least `a` and is not bumped.
        lemma_div_is_ordered_by_denominator(
            FRACTIONAL_SQUARED as int,
            n as int,
            FRACTIONAL as int,
        );
        lemma_mul_is_commutative(FRACTIONAL as int, FRACTIONAL as int);
        lemma_div_multiples_vanish(FRACTIONAL as int, FRACTIONAL as int);
        assert(FRACTIONAL_SQUARED == FRACTIONAL * FRACTIONAL);
        assert(inv >= FRACTIONAL);
        if f >= 1 {
            lemma_mul_left_inequality(f, FRACTIONAL as int, inv);
            lemma_div_is_ordered(f * FRACTIONAL as int, f * inv, FRACTIONAL as int);
            lemma_mul_is_commutative(f, FRACTIONAL as int);
            lemma_div_multiples_vanish(f, FRACTIONAL as int);
            assert(rev >= f);
        }
        assert(f < a);
    }
}

/// For every valid fraction and payment amount, the percentage fee never
/// falls below the truncated product `floor(a * n / FRACTIONAL)`, exceeds
/// it by at most the one rounding unit, and never exceeds the payment
/// itself; the unit is added exactly when multiplying the truncated fee by
/// the truncated reciprocal falls strictly below the payment, so a
/// remainder is never kept by the payer.
pub proof fn lemma_percent_fee_bounds(a: u128, n: u128)
    requires
        0 < n <= FRACTIONAL,
    ensures
        spec_percent_fee(a, n) >= a * n / FRACTIONAL as int,
        spec_percent_fee(a, n) <= a * n / FRACTIONAL as int + 1,
        spec_percent_fee(a, n) <= a,
        (a * n / FRACTIONAL as int) * spec_reciprocal(n) / (FRACTIONAL as int) < a
            <==> spec_percent_fee(a, n) == a * n / FRACTIONAL as int + 1,
{
    lemma_percent_fee_fits(a, n);
}

/// Flat-rate decay is monotonically non-increasing in elapsed time and
/// never drops below the decay rule's floor `value`: with the same rule
/// and stored timestamp, a later evaluation that succeeds yields at most
/// the fee of an earlier one, an earlier one succeeds whenever a later one
/// does, and every successful fee is at least `value`.
pub proof fn lemma_flat_decay_monotone(
    amount: u128,
    th: Thredshold,
    cur1: u64,
    cur2: u64,
    last: u64,
)
    requires
        th.duration > 0,
        last != 0,
        last < cur1,
        cur1 <= cur2,
    ensures
        spec_flat_fee(amount, Some(th), cur2, last) is Ok ==> spec_flat_fee(
            amount,
            Some(th),
            cur1,
            last,
        ) is Ok,
        (spec_flat_fee(amount, Some(th), cur2, last) matches Ok(f2) ==> (spec_flat_fee(
            amount,
            Some(th),
            cur1,
            last,
        ) matches Ok(f1) && f1 >= f2)),
        (spec_flat_fee(amount, Some(th), cur1, last) matches Ok(f1) ==> f1 >= th.value),
{
    let e1 = (cur1 - last) as u64;
    let e2 = (cur2 - last) as u64;
    lemma_div_is_ordered(e1 as int, e2 as int, th.duration as int);
    lemma_mul_inequality(
        e1 as int / th.duration as int,
        e2 as int / th.duration as int,
        th.unit as int,
    );
    assert(spec_decrement(th, e1) <= spec_decrement(th, e2));
}

/// Calculates the fee for one rate against one payment.
///
/// Fails with `TemporalError` when the current timestamp does not advance
/// past a non-zero stored one; with `InvalidRate` when an out-of-bounds
/// percentage reaches evaluation; with `Underflow` when a decay decrement
/// exceeds the flat amount. On every other input it succeeds with exactly
/// the fee `spec_calculate_fee` describes.
pub fn calculate_fee(
    fee_rate: Rate,
    payment: &Coin,
    threshold: Option<Thredshold>,
    current_timestamp: u64,
    last_timestamp: u64,
) -> (r: Result<Coin, Error>)
    requires
        threshold matches Some(t) ==> t.duration > 0,
    ensures
        match r {
            Ok(c) => spec_calculate_fee(
                fee_rate@,
                payment@,
                threshold,
                current_timestamp,
                last_timestamp,
            ) == Ok::<CoinV, Error>(c@),
            Err(e) => spec_calculate_fee(
                fee_rate@,
                payment@,
                threshold,
                current_timestamp,
                last_timestamp,
            ) == Err::<CoinV, Error>(e),
        },
{
    if !(last_timestamp == 0 || current_timestamp > last_timestamp) {
        return Err(Error::TemporalError);
    }
    match fee_rate {
        Rate::Flat(rate) => {
            let amount = rate.amount;
            if threshold.is_none() || last_timestamp == 0 {
                Ok(Coin { amount, denom: rate.denom })
            } else {
                let t = threshold.unwrap();
                let time_elapsed = current_timestamp - last_timestamp;
                let periods = time_elapsed / t.duration;
                proof {
                    lemma_mul_upper_bound(
                        periods as int,
                        u64::MAX as int,
                        t.unit as int,
                        u64::MAX as int,
                    );
                }
                let decrement: u128 = (periods as u128) * (t.unit as u128);
                if decrement > amount {
                    Err(Error::Underflow)
                } else {
                    let decremented = amount - decrement;
                    if decremented < t.value {
                        Ok(Coin { amount: t.value, denom: rate.denom })
                    } else {
                        Ok(Coin { amount: decremented, denom: rate.denom })
                    }
                }
            }
        },
        Rate::Percent(pr) => {
            let n = pr.percent.atomics;
            if !(n <= FRACTIONAL && n != 0) {
                return Err(Error::InvalidRate);
            }
            let a = payment.amount;
            proof {
                lemma_mul_div_le(a, n, FRACTIONAL);
            }
            let mut fee_amount = mul_div(a, n, FRACTIONAL);
            let inv = FRACTIONAL_SQUARED / n;
            proof {
                // fee * inv / FRACTIONAL stays at or below `a`, so the
                // reversal fits in 128 bits.
                lemma_fundamental_div_mod(a as int * n as int, FRACTIONAL as int);
                lemma_fundamental_div_mod(FRACTIONAL_SQUARED as int, n as int);
                assert(FRACTIONAL as int * fee_amount <= a as int * n as int);
                assert(n as int * inv as int <= FRACTIONAL_SQUARED as int);
                assert(FRACTIONAL_SQUARED == FRACTIONAL * FRACTIONAL);
                assert(fee_amount * inv <= a * (FRACTIONAL as int)) by (nonlinear_arith)
                    requires
                        FRACTIONAL as int * fee_amount <= a as int * n as int,
                        n as int * inv as int <= FRACTIONAL as int * (FRACTIONAL as int),
                        0 < n,
                        0 < FRACTIONAL,
                        0 <= fee_amount,
                        0 <= inv,
                        0 <= a,
                ;
                lemma_div_is_ordered(
                    fee_amount as int * inv as int,
                    a as int * FRACTIONAL as int,
                    FRACTIONAL as int,
                );
                lemma_mul_is_commutative(a as int, FRACTIONAL as int);
                lemma_div_multiples_vanish(a as int, FRACTIONAL as int);
            }
            let reversed_fee = mul_div(fee_amount, inv, FRACTIONAL);
            if a > reversed_fee {
                proof {
                    lemma_percent_fee_fits(a, n);
                }
                fee_amount = fee_amount + 1;
            }
            Ok(Coin { amount: fee_amount, denom: payment.denom.clone() })
        },
    }
}

} // verus!
