//! The plain message shapes the surrounding routing layer exchanges with
//! this engine: configuration on instantiation, configuration and clock
//! updates, and the configuration query with its response. Wire encoding
//! of these shapes is the caller's concern, not the engine's.

use vstd::prelude::*;

use crate::rate::RateInfo;

verus! {

/// The initial configuration: the full list of fee entries.
#[derive(Debug, PartialEq)]
pub struct InstantiateMsg {
    pub rates: Vec<RateInfo>,
}

/// A configuration mutation: replace the rate list wholesale, or set the
/// stored "last evaluated" timestamp.
#[derive(Debug, PartialEq)]
pub enum ExecuteMsg {
    UpdateRates { rates: Vec<RateInfo> },
    UpdateSaleTimestamp { last_timestamp: u64 },
}

/// A migration carries no payload.
#[derive(Debug, Clone, Copy, PartialEq, Eq, Structural)]
pub struct MigrateMsg {}

/// The configuration query.
#[derive(Debug, Clone, Copy, PartialEq, Eq, Structural)]
pub enum QueryMsg {
    Payments {},
}

/// The configuration query's response: the configured entries and the
/// stored "last evaluated" timestamp.
#[derive(Debug, PartialEq)]
pub struct PaymentsResponse {
    pub payments: Vec<RateInfo>,
    pub last_timestamp: u64,
}

} // verus!
