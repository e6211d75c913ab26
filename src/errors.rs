use vstd::prelude::*;

verus! {

/// Why an operation failed. Every failure leaves the ledger as it was.
#[derive(Clone, Copy, Debug, PartialEq, Eq, Structural)]
pub enum ErrorCode {
    /// A gated operation was attempted while the control plane is paused.
    Paused,
    /// The caller is not the admin of the control plane.
    UnauthorizedAdmin,
    /// The caller is not in the verifier set.
    UnauthorizedVerifier,
    /// A zero amount, or one above the catalog entry's cap.
    InvalidAmount,
    /// The claim was already resolved.
    NotPending,
    /// Checked arithmetic overflowed.
    MathOverflow,
    /// The points asset does not have the control plane as mint authority.
    BadMintAuthority,
    /// A record already exists at the address of a record being created.
    DuplicateRecord,
    /// No record of the expected kind exists at an address.
    MissingRecord,
}

} // verus!
