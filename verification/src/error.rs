//! The reasons a transaction is rejected.
//!
//! Every rejection is per-transaction and recoverable: the account is
//! left exactly as it was and processing continues.

use vstd::prelude::*;

verus! {

/// Why a transaction was rejected by the account state machine.
#[derive(Clone, Copy, Debug, PartialEq, Eq, Structural)]
pub enum ErrorKind {
    /// The account has suffered a chargeback and rejects everything.
    AccountLocked,
    /// A withdrawal amount was zero, negative, or above the available funds.
    InvalidAmount,
    /// A dispute, resolve or chargeback referenced an unknown transaction id.
    TransactionNotFound,
    /// A dispute targeted a transaction that is not in its initial state.
    AlreadyDisputed,
    /// A resolve or chargeback targeted a transaction that is not disputed.
    NotDisputed,
    /// A dispute would have moved more than the available funds on hold.
    InsufficientAvailable,
}

} // verus!
