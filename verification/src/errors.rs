//! The failure kinds of ledger commands and of delegated-approval checks.

use vstd::prelude::*;

verus! {

/// Why a ledger command or a delegated-approval verification failed.
///
/// Every validation failure aborts the whole command with no partial
/// mutation; the variant says which check refused it.
#[derive(Clone, Copy, PartialEq, Eq, Structural, Debug)]
pub enum TokenError {
    /// An endpoint or spender was the reserved zero account.
    InvalidAddress,
    /// The debited account's balance does not cover the amount.
    InsufficientBalance,
    /// The caller is neither the owner nor otherwise authorized.
    NotAuthorized,
    /// The stored allowance does not cover the amount.
    InsufficientAllowance,
    /// The token id has no entry in the ledger.
    UnknownId,
    /// The capability's expiration timestamp is not in the future.
    ExpiredAuthorization,
    /// The signature does not verify against the claimed owner's key.
    SignatureMismatch,
    /// The capability was issued for a different ledger instance.
    WrongProgramBinding,
    /// The capability's claimed owner is not the token's recorded owner.
    WrongClaimedOwner,
}

} // verus!
