//! Transaction records and stored transactions.
//!
//! A [`TransactionEntity`] is one validated input record. Deposits are
//! remembered as [`Transaction`] values so that later disputes can
//! reference them by id; the stored status tracks the dispute lifecycle
//! `Normal -> Disputed -> (Resolved | Chargebacked)`.

use vstd::prelude::*;

verus! {

use crate::amount::Amount;

/// The five kinds of input transaction.
#[derive(Clone, Copy, Debug, PartialEq, Eq, Structural)]
pub enum TransactionType {
    Deposit,
    Withdrawal,
    Dispute,
    Resolve,
    Chargeback,
}

/// Where a stored deposit stands in the dispute lifecycle.
/// `Resolved` and `Chargebacked` are terminal.
#[derive(Clone, Copy, Debug, PartialEq, Eq, Structural)]
pub enum TransactionStatus {
    Normal,
    Disputed,
    Resolved,
    Chargebacked,
}

/// One validated input record. The amount is present for deposits and
/// withdrawals and absent for the dispute-lifecycle records.
#[derive(Clone, Copy, Debug, PartialEq, Eq)]
pub struct TransactionEntity {
    pub transaction_type: TransactionType,
    pub client: u16,
    pub tx: u32,
    pub amount: Option<Amount>,
}

/// A stored transaction: the remembered amount of a deposit and its
/// dispute status.
#[derive(Clone, Copy, Debug, PartialEq, Eq)]
pub struct Transaction {
    pub amount: Option<Amount>,
    pub status: TransactionStatus,
}

/// An amount field that is either absent or a well-formed amount.
/// Input records hold amounts already normalized to the stored precision.
pub open spec fn amount_opt_wf(a: Option<Amount>) -> bool {
    match a {
        Some(x) => x.wf(),
        None => true,
    }
}

/// A record whose amount, if any, is well-formed.
pub open spec fn entity_wf(t: TransactionEntity) -> bool {
    amount_opt_wf(t.amount)
}

impl Transaction {
    /// The stored form of a freshly applied deposit.
    pub fn from(entity: &TransactionEntity) -> (r: Transaction)
        ensures
            r == (Transaction { amount: entity.amount, status: TransactionStatus::Normal }),
    {
        Transaction { amount: entity.amount, status: TransactionStatus::Normal }
    }
}

} // verus!
