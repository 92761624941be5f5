//! The error taxonomy of the marketplace.

use vstd::prelude::*;

verus! {

/// Why an operation was rejected. Every rejection happens before any state
/// mutation, so an `Err` always leaves the contract exactly as it was.
#[derive(Clone, Copy, Debug, PartialEq, Eq, Structural)]
pub enum MarketError {
    /// The caller or signer is not the identity the operation demands.
    Unauthorized,
    /// No listing exists for the given asset identifier.
    NotFound,
    /// The asked price does not exceed the configured minimum listing price.
    PriceTooLow,
    /// The deposit attached to a purchase is below the listing price.
    InsufficientPayment,
    /// A listing message or payout breakdown could not be decoded, or the
    /// decoded value is structurally invalid.
    MalformedRequest,
    /// The payout math would underflow: the breakdown's amount for the
    /// owner does not cover the treasury fee plus the donation.
    InternalInconsistency,
}

} // verus!
