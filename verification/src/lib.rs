//! A batch ledger for per-client payment accounts.
//!
//! Transactions (deposits, withdrawals, disputes, resolves, chargebacks)
//! are applied to per-client accounts while maintaining the balance
//! invariant `available == total - held`, a dispute lifecycle on stored
//! deposits, and an irrevocable lock after a chargeback.

pub mod account;
pub mod amount;
pub mod error;
pub mod payment_engine;
pub mod transaction;
