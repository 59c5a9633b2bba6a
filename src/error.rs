use vstd::prelude::*;

verus! {

/// Every way a call on the ledger can fail.
#[derive(Debug, Clone, Copy, PartialEq, Eq, Structural)]
pub enum PSP34Error {
    /// The value attached to a mint is not exactly the unit price times the quantity.
    BadPaymentAmount,
    /// A mint asked for zero tokens.
    ZeroQuantity,
    /// The mint would push the issued count past the cap.
    SupplyExceeded,
    /// No owner is registered for the token identifier.
    TokenNotExists,
    /// The identifier is already registered to an owner.
    TokenExists,
    /// A restricted operation was called by someone other than the administrator.
    NotAuthorized,
    /// A guarded call was entered while another one was still running.
    ReentrancyDetected,
    /// The base path is missing although construction always sets it.
    MissingBaseUri,
}

} // verus!
