//! The engine's error taxonomy.

use vstd::prelude::*;

verus! {

/// Why an evaluation was rejected. Every error aborts the whole evaluation:
/// no partial instruction list is ever returned.
#[derive(Debug, Clone, Copy, PartialEq, Eq, Structural)]
pub enum Error {
    /// A rate failed validation: a flat amount of zero, a zero fraction,
    /// or a fraction above one.
    InvalidRate,
    /// The current timestamp does not advance past the stored
    /// last-evaluated timestamp.
    TemporalError,
    /// Arithmetic underflow: a decay decrement exceeded the flat amount,
    /// or the non-additive fees exceeded the payment.
    Underflow,
}

} // verus!
