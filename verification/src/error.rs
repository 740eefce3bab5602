//! The failure taxonomy of the delegated transfer handler.

use vstd::prelude::*;

verus! {

/// Why the external token-accounting service declined a transfer request.
#[derive(Clone, Copy, Debug, PartialEq, Eq, Structural)]
pub enum RejectReason {
    /// A named account is not administered by the token-accounting service.
    WrongOwningService,
    /// The source or destination holding records a different token class than
    /// the request names.
    ClassMismatch,
    /// The precision named in the request differs from the token class's own.
    PrecisionMismatch,
    /// The source or destination holding is frozen.
    Frozen,
    /// The source holding is not under custody of the presented authority.
    NotAuthorized,
    /// The source holding's balance is below the requested amount.
    InsufficientBalance,
    /// Crediting the destination would overflow its balance.
    Overflow,
}

/// Every way a delegated transfer invocation can fail. Any failure aborts the
/// whole invocation; no balance changes.
#[derive(Clone, Copy, Debug, PartialEq, Eq, Structural)]
pub enum TransferError {
    /// Fewer than five account references were supplied.
    MissingAccount,
    /// The claimed-authority account does not match the derived authority
    /// address, or no authority address can be derived for this identity.
    InvalidAuthority,
    /// The token-class descriptor could not be decoded.
    MalformedTokenClass,
    /// The source holding account could not be decoded.
    MalformedAccount,
    /// The external service could not verify the derivation proof presented
    /// in lieu of a signature.
    DelegationRejected,
    /// The external service declined the transfer for a domain reason.
    TransferRejected(RejectReason),
}

} // verus!
