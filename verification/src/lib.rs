//! A fee ("rate") engine: computes transaction fees on a payment and
//! distributes the resulting amounts among configured recipients.
//!
//! The engine is pure: configuration (the rate list and the decay clock)
//! comes in as arguments and the new clock value goes out as an instruction
//! for the caller to persist. Amounts are plain 128-bit integers and
//! fractions are fixed-point values with eighteen decimal places.

pub mod decimal;
pub mod distribute;
pub mod error;
pub mod fee;
pub mod math;
pub mod msgs;
pub mod rate;
pub mod text;

pub use decimal::Decimal;
pub use distribute::{
    distribute, Attribute, Cw20Coin, DistributionResult, Event, Funds, Instruction,
};
pub use error::Error;
pub use fee::calculate_fee;
pub use msgs::{ExecuteMsg, InstantiateMsg, MigrateMsg, PaymentsResponse, QueryMsg};
pub use rate::{validate_rates, Coin, PercentRate, Rate, RateInfo, Thredshold};
pub use text::PaymentAttribute;

use vstd::prelude::*;

verus! {

/// One quintillion: the scaling factor of the fixed-point fractions
/// (eighteen decimal places).
pub const FRACTIONAL: u128 = 1_000_000_000_000_000_000;

} // verus!
