//! The rate value model: flat and percentage fees, their validation rules,
//! and the configured fee entries the distribution engine walks.

use vstd::prelude::*;

use crate::decimal::Decimal;
use crate::error::Error;
use crate::FRACTIONAL;

verus! {

/// An asset amount in a named denomination.
#[derive(Debug, PartialEq, Eq)]
pub struct Coin {
    pub amount: u128,
    pub denom: String,
}

/// Ghost image of a `Coin`.
pub struct CoinV {
    pub amount: u128,
    pub denom: Seq<char>,
}

impl View for Coin {
    type V = CoinV;

    open spec fn view(&self) -> CoinV {
        CoinV { amount: self.amount, denom: self.denom@ }
    }
}

impl DeepView for Coin {
    type V = CoinV;

    open spec fn deep_view(&self) -> CoinV {
        self.view()
    }
}

impl Clone for Coin {
    fn clone(&self) -> (r: Self)
        ensures
            r@ == self@,
    {
        Coin { amount: self.amount, denom: self.denom.clone() }
    }
}

impl Coin {
    /// A coin of `amount` units of `denom`.
    pub fn new(amount: u128, denom: &str) -> (r: Coin)
        ensures
            r@ == (CoinV { amount, denom: denom@ }),
    {
        Coin { amount, denom: denom.to_owned() }
    }
}

/// A percentage fee, as a fraction in (0, 1].
#[derive(Debug, Clone, Copy, PartialEq, Eq, Structural)]
pub struct PercentRate {
    pub percent: Decimal,
}

/// A fee specification: a fixed quantity in a specific denomination,
/// independent of the payment size, or a fraction of the payment amount.
#[derive(Debug, PartialEq, Eq)]
pub enum Rate {
    /// A flat rate fee.
    Flat(Coin),
    /// A percentage fee.
    Percent(PercentRate),
}

/// Ghost image of a `Rate`; a percentage carries its atomics.
pub enum RateV {
    Flat(CoinV),
    Percent(u128),
}

impl View for Rate {
    type V = RateV;

    open spec fn view(&self) -> RateV {
        match self {
            Rate::Flat(coin) => RateV::Flat(coin@),
            Rate::Percent(pr) => RateV::Percent(pr.percent.atomics),
        }
    }
}

impl DeepView for Rate {
    type V = RateV;

    open spec fn deep_view(&self) -> RateV {
        self.view()
    }
}

impl Clone for Rate {
    fn clone(&self) -> (r: Self)
        ensures
            r@ == self@,
    {
        match self {
            Rate::Flat(coin) => Rate::Flat(coin.clone()),
            Rate::Percent(pr) => Rate::Percent(*pr),
        }
    }
}

impl From<Decimal> for Rate {
    fn from(decimal: Decimal) -> (r: Rate) {
        Rate::Percent(PercentRate { percent: decimal })
    }
}

impl vstd::std_specs::convert::FromSpecImpl<Decimal> for Rate {
    open spec fn obeys_from_spec() -> bool {
        true
    }

    open spec fn from_spec(decimal: Decimal) -> Rate {
        Rate::Percent(PercentRate { percent: decimal })
    }
}

/// Whether a rate's value is non-zero: a flat rate iff its amount is,
/// a percentage iff its fraction is.
pub open spec fn spec_rate_non_zero(rate: RateV) -> bool {
    match rate {
        RateV::Flat(coin) => coin.amount != 0,
        RateV::Percent(atomics) => atomics != 0,
    }
}

/// A valid rate is non-zero, and a percentage does not exceed one.
pub open spec fn spec_rate_valid(rate: RateV) -> bool {
    &&& spec_rate_non_zero(rate)
    &&& match rate {
        RateV::Flat(_) => true,
        RateV::Percent(atomics) => atomics <= FRACTIONAL,
    }
}

impl Rate {
    /// Whether the rate's value is non-zero.
    pub fn is_non_zero(&self) -> (r: Result<bool, Error>)
        ensures
            r == Ok::<bool, Error>(spec_rate_non_zero(self@)),
    {
        match self {
            Rate::Flat(coin) => Ok(coin.amount != 0),
            Rate::Percent(pr) => Ok(!pr.percent.is_zero()),
        }
    }

    /// The rate's evaluated value. Both remaining shapes carry their value
    /// directly, so this returns the rate itself.
    fn get_rate(self) -> (r: Result<Rate, Error>)
        ensures
            r matches Ok(v) && v@ == self@,
    {
        match self {
            Rate::Flat(_) => Ok(self),
            Rate::Percent(_) => Ok(self),
        }
    }

    /// Validates the rate: a zero value, or a percentage above one, is an
    /// `InvalidRate` error; a valid rate is returned unchanged.
    pub fn validate(&self) -> (r: Result<Rate, Error>)
        ensures
            spec_rate_valid(self@) ==> (r matches Ok(v) && v@ == self@),
            !spec_rate_valid(self@) ==> r == Err::<Rate, Error>(Error::InvalidRate),
    {
        let rate = self.clone().get_rate()?;
        if !rate.is_non_zero()? {
            return Err(Error::InvalidRate);
        }
        if let Rate::Percent(pr) = &rate {
            if pr.percent.atomics > FRACTIONAL {
                return Err(Error::InvalidRate);
            }
        }
        Ok(rate)
    }
}

/// The time-based decay rule attached to a flat rate: every `duration`
/// seconds the fee loses `unit`, but never drops below `value`.
#[derive(Debug, Clone, Copy, PartialEq, Eq, Structural)]
pub struct Thredshold {
    /// Amount subtracted per elapsed decay period.
    pub unit: u64,
    /// Seconds per decay period; must be positive.
    pub duration: u64,
    /// Floor below which the fee cannot decay.
    pub value: u128,
}

/// One configured fee: a rate, whether it is charged on top of the payment
/// (`is_additive`) or deducted from it, an optional description, the ordered
/// recipients of the fee, and an optional decay rule (meaningful only for
/// flat rates).
#[derive(Debug, PartialEq)]
pub struct RateInfo {
    pub rate: Rate,
    pub is_additive: bool,
    pub description: Option<String>,
    pub recipients: Vec<String>,
    pub threshold: Option<Thredshold>,
}

/// Ghost image of a `RateInfo`.
pub struct RateInfoV {
    pub rate: RateV,
    pub is_additive: bool,
    pub description: Option<Seq<char>>,
    pub recipients: Seq<Seq<char>>,
    pub threshold: Option<Thredshold>,
}

impl View for RateInfo {
    type V = RateInfoV;

    open spec fn view(&self) -> RateInfoV {
        RateInfoV {
            rate: self.rate@,
            is_additive: self.is_additive,
            description: match self.description {
                Option::Some(d) => Option::Some(d@),
                Option::None => Option::None,
            },
            recipients: self.recipients.deep_view(),
            threshold: self.threshold,
        }
    }
}

impl DeepView for RateInfo {
    type V = RateInfoV;

    open spec fn deep_view(&self) -> RateInfoV {
        self.view()
    }
}

/// Rejects a configuration wholesale if any entry's rate fails validation.
pub fn validate_rates(rates: &Vec<RateInfo>) -> (r: Result<(), Error>)
    ensures
        r is Ok <==> (forall|i: int| 0 <= i < rates@.len() ==> spec_rate_valid(
            #[trigger] rates@[i]@.rate,
        )),
        r is Err ==> r == Err::<(), Error>(Error::InvalidRate),
{
    let mut i: usize = 0;
    while i < rates.len()
        invariant
            0 <= i <= rates@.len(),
            forall|j: int| 0 <= j < i ==> spec_rate_valid(#[trigger] rates@[j]@.rate),
        decreases rates@.len() - i,
    {
        match rates[i].rate.validate() {
            Ok(_) => {},
            Err(e) => {
                proof {
                    assert(!spec_rate_valid(rates@[i as int]@.rate));
                }
                return Err(e);
            },
        }
        i = i + 1;
    }
    Ok(())
}

} // verus!
