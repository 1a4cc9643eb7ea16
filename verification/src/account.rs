//! One client's account and the state machine that applies transactions
//! to it.
//!
//! [`Account::process_transaction`] is the single entry point: it
//! dispatches on the transaction type, enforces legality, and updates
//! balances and dispute state. A rejected transaction leaves the account
//! exactly as it was. The whole transition is specified by
//! [`apply_model`] and [`apply_result`] over the account's abstract
//! state [`AccountModel`].

use vstd::prelude::*;

verus! {

use std::collections::HashMap;

use crate::amount::{Amount, amount_add, amount_sub, amount_or_zero, amount_zero, fits,
    lemma_amount_add_wf, lemma_amount_sub_wf, within_limit};
use crate::error::ErrorKind;
use crate::transaction::{Transaction, TransactionEntity, TransactionStatus, TransactionType,
    amount_opt_wf, entity_wf};

broadcast use vstd::std_specs::hash::group_hash_axioms;

/// The abstract state of an account: balances, lock flag, and the stored
/// transactions that disputes may reference.
#[verifier::ext_equal]
pub ghost struct AccountModel {
    pub client: u16,
    pub held: Amount,
    pub total: Amount,
    pub locked: bool,
    pub transactions: Map<u32, Transaction>,
}

impl AccountModel {
    /// The spendable funds, in ten-thousandths: total minus held.
    /// Never stored, always derived.
    pub open spec fn available(self) -> int {
        self.total.units - self.held.units
    }

    /// A well-formed account: balances are well-formed amounts, the
    /// derived available balance is in range, and every stored amount is
    /// well-formed.
    pub open spec fn wf(self) -> bool {
        &&& self.held.wf()
        &&& self.total.wf()
        &&& fits(self.available())
        &&& forall|k: u32|
            #[trigger] self.transactions.contains_key(k) ==> amount_opt_wf(
                self.transactions[k].amount,
            )
    }
}

/// The state of a freshly created account: zero balances, unlocked, no
/// stored transactions.
pub open spec fn fresh_account_model(client: u16) -> AccountModel {
    AccountModel {
        client,
        held: amount_zero(),
        total: amount_zero(),
        locked: false,
        transactions: Map::empty(),
    }
}

/// Applying a deposit: rejected on a locked account; otherwise the
/// amount (absent taken as zero) is added to the total and the
/// transaction is remembered for later disputes.
pub open spec fn deposit_step(pre: AccountModel, t: TransactionEntity) -> (AccountModel, Result<
    (),
    ErrorKind,
>) {
    if pre.locked {
        (pre, Err(ErrorKind::AccountLocked))
    } else {
        (
            AccountModel {
                total: amount_add(pre.total, amount_or_zero(t.amount)),
                transactions: pre.transactions.insert(
                    t.tx,
                    Transaction { amount: t.amount, status: TransactionStatus::Normal },
                ),
                ..pre
            },
            Ok(()),
        )
    }
}

/// Applying a withdrawal: rejected on a locked account, and rejected as
/// invalid when the amount is zero, negative, or above the available
/// funds; otherwise the total shrinks by the amount. Withdrawals are
/// never stored, so they can never be disputed.
pub open spec fn withdrawal_step(pre: AccountModel, t: TransactionEntity) -> (AccountModel, Result<
    (),
    ErrorKind,
>) {
    let amt = amount_or_zero(t.amount);
    if pre.locked {
        (pre, Err(ErrorKind::AccountLocked))
    } else if amt.units <= 0 || amt.units > pre.available() {
        (pre, Err(ErrorKind::InvalidAmount))
    } else {
        (AccountModel { total: amount_sub(pre.total, amt), ..pre }, Ok(()))
    }
}

/// Applying a dispute: the referenced transaction must exist, still be
/// in its initial state, and its amount must not exceed the available
/// funds (a dispute cannot push available funds negative). On success
/// its amount moves from available to held; the total is unchanged.
pub open spec fn dispute_step(pre: AccountModel, t: TransactionEntity) -> (AccountModel, Result<
    (),
    ErrorKind,
>) {
    if pre.locked {
        (pre, Err(ErrorKind::AccountLocked))
    } else if !pre.transactions.contains_key(t.tx) {
        (pre, Err(ErrorKind::TransactionNotFound))
    } else if pre.transactions[t.tx].status != TransactionStatus::Normal {
        (pre, Err(ErrorKind::AlreadyDisputed))
    } else if amount_or_zero(pre.transactions[t.tx].amount).units > pre.available() {
        (pre, Err(ErrorKind::InsufficientAvailable))
    } else {
        let amt = amount_or_zero(pre.transactions[t.tx].amount);
        (
            AccountModel {
                held: amount_add(pre.held, amt),
                transactions: pre.transactions.insert(
                    t.tx,
                    Transaction {
                        amount: pre.transactions[t.tx].amount,
                        status: TransactionStatus::Disputed,
                    },
                ),
                ..pre
            },
            Ok(()),
        )
    }
}

/// Applying a resolve: the referenced transaction must exist and be
/// disputed. On success its amount returns from held to available and
/// the stored transaction becomes `Resolved`, a terminal state.
pub open spec fn resolve_step(pre: AccountModel, t: TransactionEntity) -> (AccountModel, Result<
    (),
    ErrorKind,
>) {
    if pre.locked {
        (pre, Err(ErrorKind::AccountLocked))
    } else if !pre.transactions.contains_key(t.tx) {
        (pre, Err(ErrorKind::TransactionNotFound))
    } else if pre.transactions[t.tx].status != TransactionStatus::Disputed {
        (pre, Err(ErrorKind::NotDisputed))
    } else {
        let amt = amount_or_zero(pre.transactions[t.tx].amount);
        (
            AccountModel {
                held: amount_sub(pre.held, amt),
                transactions: pre.transactions.insert(
                    t.tx,
                    Transaction {
                        amount: pre.transactions[t.tx].amount,
                        status: TransactionStatus::Resolved,
                    },
                ),
                ..pre
            },
            Ok(()),
        )
    }
}

/// Applying a chargeback: the referenced transaction must exist and be
/// disputed. On success its amount leaves both held and total, the
/// stored transaction becomes `Chargebacked`, a terminal state, and the
/// account is locked irrevocably.
pub open spec fn chargeback_step(pre: AccountModel, t: TransactionEntity) -> (AccountModel, Result<
    (),
    ErrorKind,
>) {
    if pre.locked {
        (pre, Err(ErrorKind::AccountLocked))
    } else if !pre.transactions.contains_key(t.tx) {
        (pre, Err(ErrorKind::TransactionNotFound))
    } else if pre.transactions[t.tx].status != TransactionStatus::Disputed {
        (pre, Err(ErrorKind::NotDisputed))
    } else {
        let amt = amount_or_zero(pre.transactions[t.tx].amount);
        (
            AccountModel {
                held: amount_sub(pre.held, amt),
                total: amount_sub(pre.total, amt),
                locked: true,
                transactions: pre.transactions.insert(
                    t.tx,
                    Transaction {
                        amount: pre.transactions[t.tx].amount,
                        status: TransactionStatus::Chargebacked,
                    },
                ),
                ..pre
            },
            Ok(()),
        )
    }
}

/// One transition of the account state machine: the state after applying
/// the transaction, and its outcome.
pub open spec fn apply_step(pre: AccountModel, t: TransactionEntity) -> (AccountModel, Result<
    (),
    ErrorKind,
>) {
    match t.transaction_type {
        TransactionType::Deposit => deposit_step(pre, t),
        TransactionType::Withdrawal => withdrawal_step(pre, t),
        TransactionType::Dispute => dispute_step(pre, t),
        TransactionType::Resolve => resolve_step(pre, t),
        TransactionType::Chargeback => chargeback_step(pre, t),
    }
}

/// The account state after applying one transaction.
pub open spec fn apply_model(pre: AccountModel, t: TransactionEntity) -> AccountModel {
    apply_step(pre, t).0
}

/// The outcome of applying one transaction.
pub open spec fn apply_result(pre: AccountModel, t: TransactionEntity) -> Result<(), ErrorKind> {
    apply_step(pre, t).1
}

/// Whether a dispute would succeed against this account.
pub open spec fn dispute_ready(pre: AccountModel, t: TransactionEntity) -> bool {
    &&& !pre.locked
    &&& pre.transactions.contains_key(t.tx)
    &&& pre.transactions[t.tx].status == TransactionStatus::Normal
    &&& amount_or_zero(pre.transactions[t.tx].amount).units <= pre.available()
}

/// Whether a resolve or chargeback would succeed against this account.
pub open spec fn settle_ready(pre: AccountModel, t: TransactionEntity) -> bool {
    &&& !pre.locked
    &&& pre.transactions.contains_key(t.tx)
    &&& pre.transactions[t.tx].status == TransactionStatus::Disputed
}

/// Whether the balance arithmetic of this transition stays within the
/// representable range. This only constrains the success path; every
/// rejection leaves the balances untouched.
pub open spec fn apply_fits(pre: AccountModel, t: TransactionEntity) -> bool {
    match t.transaction_type {
        TransactionType::Deposit => !pre.locked ==> {
            let v = pre.total.units + amount_or_zero(t.amount).units;
            fits(v) && fits(v - pre.held.units)
        },
        TransactionType::Withdrawal => true,
        TransactionType::Dispute => dispute_ready(pre, t) ==> {
            let a = amount_or_zero(pre.transactions[t.tx].amount).units;
            fits(pre.held.units + a) && fits(pre.available() - a)
        },
        TransactionType::Resolve => settle_ready(pre, t) ==> {
            let a = amount_or_zero(pre.transactions[t.tx].amount).units;
            fits(pre.held.units - a) && fits(pre.available() + a)
        },
        TransactionType::Chargeback => settle_ready(pre, t) ==> {
            let a = amount_or_zero(pre.transactions[t.tx].amount).units;
            fits(pre.held.units - a) && fits(pre.total.units - a)
        },
    }
}

/// One client's account: balances, lock flag, and the stored
/// transactions that disputes may reference, keyed by transaction id.
pub struct Account {
    pub client: u16,
    pub held: Amount,
    pub total: Amount,
    pub locked: bool,
    pub transactions: HashMap<u32, Transaction>,
}

impl View for Account {
    type V = AccountModel;

    open spec fn view(&self) -> AccountModel {
        AccountModel {
            client: self.client,
            held: self.held,
            total: self.total,
            locked: self.locked,
            transactions: self.transactions@,
        }
    }
}

impl Account {
    /// A fresh zero-balance account for this client.
    pub fn new(client: u16) -> (r: Account)
        ensures
            r@ == fresh_account_model(client),
            r@.wf(),
    {
        let account = Account {
            client,
            held: Amount::new(0, 0),
            total: Amount::new(0, 0),
            locked: false,
            transactions: HashMap::new(),
        };
        proof {
            assert(account@ =~= fresh_account_model(client));
        }
        account
    }

    /// The spendable funds: total minus held.
    pub fn available(&self) -> (r: Amount)
        requires
            self@.wf(),
        ensures
            r == amount_sub(self@.total, self@.held),
            r.wf(),
    {
        self.total.sub(self.held)
    }

    /// Remembers a transaction under its id, replacing any previous
    /// entry.
    pub fn add_transaction(&mut self, tx: u32, transaction: Transaction)
        ensures
            final(self)@ == (AccountModel {
                transactions: old(self)@.transactions.insert(tx, transaction),
                ..old(self)@
            }),
    {
        self.transactions.insert(tx, transaction);
    }

    pub fn client(&self) -> (r: u16)
        ensures
            r == self@.client,
    {
        self.client
    }

    pub fn held(&self) -> (r: Amount)
        ensures
            r == self@.held,
    {
        self.held
    }

    pub fn total(&self) -> (r: Amount)
        ensures
            r == self@.total,
    {
        self.total
    }

    pub fn locked(&self) -> (r: bool)
        ensures
            r == self@.locked,
    {
        self.locked
    }

    pub fn set_held(&mut self, held: Amount)
        ensures
            final(self)@ == (AccountModel { held, ..old(self)@ }),
    {
        self.held = held;
    }

    pub fn set_total(&mut self, total: Amount)
        ensures
            final(self)@ == (AccountModel { total, ..old(self)@ }),
    {
        self.total = total;
    }

    pub fn lock(&mut self)
        ensures
            final(self)@ == (AccountModel { locked: true, ..old(self)@ }),
    {
        self.locked = true;
    }

    pub fn unlock(&mut self)
        ensures
            final(self)@ == (AccountModel { locked: false, ..old(self)@ }),
    {
        self.locked = false;
    }

    /// Applies one transaction to this account, dispatching on its type.
    /// The new state and the outcome are exactly those of the abstract
    /// transition; in particular a rejection leaves the account
    /// unchanged.
    pub fn process_transaction(&mut self, transaction_entity: TransactionEntity) -> (r: Result<
        (),
        ErrorKind,
    >)
        requires
            old(self)@.wf(),
            entity_wf(transaction_entity),
            apply_fits(old(self)@, transaction_entity),
        ensures
            final(self)@ == apply_model(old(self)@, transaction_entity),
            r == apply_result(old(self)@, transaction_entity),
            final(self)@.wf(),
    {
        match transaction_entity.transaction_type {
            TransactionType::Deposit => self.handle_deposit(&transaction_entity),
            TransactionType::Withdrawal => self.handle_withdrawal(&transaction_entity),
            TransactionType::Dispute => self.handle_dispute(&transaction_entity),
            TransactionType::Resolve => self.handle_resolve(&transaction_entity),
            TransactionType::Chargeback => self.handle_chargeback(&transaction_entity),
        }
    }

    fn handle_deposit(&mut self, transaction_entity: &TransactionEntity) -> (r: Result<
        (),
        ErrorKind,
    >)
        requires
            old(self)@.wf(),
            entity_wf(*transaction_entity),
            transaction_entity.transaction_type == TransactionType::Deposit,
            apply_fits(old(self)@, *transaction_entity),
        ensures
            final(self)@ == apply_model(old(self)@, *transaction_entity),
            r == apply_result(old(self)@, *transaction_entity),
            final(self)@.wf(),
    {
        if self.locked {
            return Err(ErrorKind::AccountLocked);
        }
        let amount = Amount::or_zero(transaction_entity.amount);
        self.total = self.total.add(amount);
        // Only deposits are remembered: they alone can be disputed later.
        self.add_transaction(transaction_entity.tx, Transaction::from(transaction_entity));
        proof {
            assert(self@ =~= apply_model(old(self)@, *transaction_entity));
        }
        Ok(())
    }

    fn handle_withdrawal(&mut self, transaction_entity: &TransactionEntity) -> (r: Result<
        (),
        ErrorKind,
    >)
        requires
            old(self)@.wf(),
            entity_wf(*transaction_entity),
            transaction_entity.transaction_type == TransactionType::Withdrawal,
        ensures
            final(self)@ == apply_model(old(self)@, *transaction_entity),
            r == apply_result(old(self)@, *transaction_entity),
            final(self)@.wf(),
    {
        let amount = Amount::or_zero(transaction_entity.amount);
        if self.locked {
            return Err(ErrorKind::AccountLocked);
        }
        if amount.units <= 0 || amount.units > self.available().units {
            return Err(ErrorKind::InvalidAmount);
        }
        self.total = self.total.sub(amount);
        proof {
            assert(self@ =~= apply_model(old(self)@, *transaction_entity));
        }
        Ok(())
    }

    fn handle_dispute(&mut self, transaction_entity: &TransactionEntity) -> (r: Result<
        (),
        ErrorKind,
    >)
        requires
            old(self)@.wf(),
            transaction_entity.transaction_type == TransactionType::Dispute,
            apply_fits(old(self)@, *transaction_entity),
        ensures
            final(self)@ == apply_model(old(self)@, *transaction_entity),
            r == apply_result(old(self)@, *transaction_entity),
            final(self)@.wf(),
    {
        if self.locked {
            return Err(ErrorKind::AccountLocked);
        }
        let available = self.available();
        let disputed_tx = match self.transactions.get(&transaction_entity.tx) {
            Some(tx) => *tx,
            None => {
                return Err(ErrorKind::TransactionNotFound);
            },
        };
        if disputed_tx.status != TransactionStatus::Normal {
            return Err(ErrorKind::AlreadyDisputed);
        }
        let amount = Amount::or_zero(disputed_tx.amount);
        if amount.units > available.units {
            return Err(ErrorKind::InsufficientAvailable);
        }
        self.add_transaction(
            transaction_entity.tx,
            Transaction { amount: disputed_tx.amount, status: TransactionStatus::Disputed },
        );
        self.held = self.held.add(amount);
        proof {
            assert(self@ =~= apply_model(old(self)@, *transaction_entity));
        }
        Ok(())
    }

    fn handle_resolve(&mut self, transaction_entity: &TransactionEntity) -> (r: Result<
        (),
        ErrorKind,
    >)
        requires
            old(self)@.wf(),
            transaction_entity.transaction_type == TransactionType::Resolve,
            apply_fits(old(self)@, *transaction_entity),
        ensures
            final(self)@ == apply_model(old(self)@, *transaction_entity),
            r == apply_result(old(self)@, *transaction_entity),
            final(self)@.wf(),
    {
        if self.locked {
            return Err(ErrorKind::AccountLocked);
        }
        let disputed_tx = match self.transactions.get(&transaction_entity.tx) {
            Some(tx) => *tx,
            None => {
                return Err(ErrorKind::TransactionNotFound);
            },
        };
        if disputed_tx.status != TransactionStatus::Disputed {
            return Err(ErrorKind::NotDisputed);
        }
        let amount = Amount::or_zero(disputed_tx.amount);
        self.add_transaction(
            transaction_entity.tx,
            Transaction { amount: disputed_tx.amount, status: TransactionStatus::Resolved },
        );
        self.held = self.held.sub(amount);
        proof {
            assert(self@ =~= apply_model(old(self)@, *transaction_entity));
        }
        Ok(())
    }

    fn handle_chargeback(&mut self, transaction_entity: &TransactionEntity) -> (r: Result<
        (),
        ErrorKind,
    >)
        requires
            old(self)@.wf(),
            transaction_entity.transaction_type == TransactionType::Chargeback,
            apply_fits(old(self)@, *transaction_entity),
        ensures
            final(self)@ == apply_model(old(self)@, *transaction_entity),
            r == apply_result(old(self)@, *transaction_entity),
            final(self)@.wf(),
    {
        if self.locked {
            return Err(ErrorKind::AccountLocked);
        }
        let disputed_tx = match self.transactions.get(&transaction_entity.tx) {
            Some(tx) => *tx,
            None => {
                return Err(ErrorKind::TransactionNotFound);
            },
        };
        if disputed_tx.status != TransactionStatus::Disputed {
            return Err(ErrorKind::NotDisputed);
        }
        let amount = Amount::or_zero(disputed_tx.amount);
        self.add_transaction(
            transaction_entity.tx,
            Transaction { amount: disputed_tx.amount, status: TransactionStatus::Chargebacked },
        );
        self.held = self.held.sub(amount);
        self.total = self.total.sub(amount);
        self.locked = true;
        proof {
            assert(self@ =~= apply_model(old(self)@, *transaction_entity));
        }
        Ok(())
    }

    /// Whether applying this transaction stays within the representable
    /// range of balances, so that [`Account::process_transaction`] may be
    /// called.
    pub fn process_fits(&self, transaction_entity: &TransactionEntity) -> (r: bool)
        requires
            self@.wf(),
            entity_wf(*transaction_entity),
        ensures
            r == apply_fits(self@, *transaction_entity),
    {
        match transaction_entity.transaction_type {
            TransactionType::Deposit => {
                if self.locked {
                    true
                } else {
                    let amt = Amount::or_zero(transaction_entity.amount);
                    let v = self.total.units + amt.units;
                    within_limit(v) && within_limit(v - self.held.units)
                }
            },
            TransactionType::Withdrawal => true,
            TransactionType::Dispute => {
                if self.locked {
                    true
                } else {
                    match self.transactions.get(&transaction_entity.tx) {
                        None => true,
                        Some(stored) => {
                            if stored.status != TransactionStatus::Normal {
                                true
                            } else {
                                let a = Amount::or_zero(stored.amount).units;
                                let avail = self.total.units - self.held.units;
                                if a > avail {
                                    true
                                } else {
                                    within_limit(self.held.units + a) && within_limit(avail - a)
                                }
                            }
                        },
                    }
                }
            },
            TransactionType::Resolve => {
                if self.locked {
                    true
                } else {
                    match self.transactions.get(&transaction_entity.tx) {
                        None => true,
                        Some(stored) => {
                            if stored.status != TransactionStatus::Disputed {
                                true
                            } else {
                                let a = Amount::or_zero(stored.amount).units;
                                let avail = self.total.units - self.held.units;
                                within_limit(self.held.units - a) && within_limit(avail + a)
                            }
                        },
                    }
                }
            },
            TransactionType::Chargeback => {
                if self.locked {
                    true
                } else {
                    match self.transactions.get(&transaction_entity.tx) {
                        None => true,
                        Some(stored) => {
                            if stored.status != TransactionStatus::Disputed {
                                true
                            } else {
                                let a = Amount::or_zero(stored.amount).units;
                                within_limit(self.held.units - a) && within_limit(
                                    self.total.units - a,
                                )
                            }
                        },
                    }
                }
            },
        }
    }
}

/// An output snapshot of one account, taken after processing finishes.
#[derive(Clone, Copy, Debug, PartialEq, Eq, Structural)]
pub struct AccountEntity {
    pub client: u16,
    pub available: Amount,
    pub held: Amount,
    pub total: Amount,
    pub locked: bool,
}

/// The snapshot an account projects to: the derived available balance
/// alongside the stored ones.
pub open spec fn entity_of(a: AccountModel) -> AccountEntity {
    AccountEntity {
        client: a.client,
        available: amount_sub(a.total, a.held),
        held: a.held,
        total: a.total,
        locked: a.locked,
    }
}

impl AccountEntity {
    /// Projects an account to its output snapshot.
    pub fn from(account: &Account) -> (r: AccountEntity)
        requires
            account@.wf(),
        ensures
            r == entity_of(account@),
    {
        AccountEntity {
            client: account.client,
            available: account.available(),
            held: account.held,
            total: account.total,
            locked: account.locked,
        }
    }
}

/// The account state after applying a whole batch of transactions in
/// order.
pub open spec fn apply_batch(pre: AccountModel, ts: Seq<TransactionEntity>) -> AccountModel
    decreases ts.len(),
{
    if ts.len() == 0 {
        pre
    } else {
        apply_batch(apply_model(pre, ts[0]), ts.drop_first())
    }
}

/// Whether every transaction of a batch carries a well-formed amount
/// and keeps the balance arithmetic of its step within the
/// representable range.
pub open spec fn batch_fits(pre: AccountModel, ts: Seq<TransactionEntity>) -> bool
    decreases ts.len(),
{
    ts.len() == 0 || {
        &&& entity_wf(ts[0])
        &&& apply_fits(pre, ts[0])
        &&& batch_fits(apply_model(pre, ts[0]), ts.drop_first())
    }
}

/// Applying one transaction keeps the account well-formed; in
/// particular the balance invariant `available == total - held` holds
/// at every point.
pub proof fn lemma_apply_preserves_wf(pre: AccountModel, t: TransactionEntity)
    requires
        pre.wf(),
        entity_wf(t),
        apply_fits(pre, t),
    ensures
        apply_model(pre, t).wf(),
{
    let post = apply_model(pre, t);
    match t.transaction_type {
        TransactionType::Deposit => {
            if !pre.locked {
                lemma_amount_add_wf(pre.total, amount_or_zero(t.amount));
                assert forall|k: u32| #[trigger] post.transactions.contains_key(
                    k,
                ) implies amount_opt_wf(post.transactions[k].amount) by {
                    if k != t.tx {
                        assert(pre.transactions.contains_key(k));
                    }
                };
            }
        },
        TransactionType::Withdrawal => {
            let amt = amount_or_zero(t.amount);
            if !pre.locked && 0 < amt.units && amt.units <= pre.available() {
                lemma_amount_sub_wf(pre.total, amt);
            }
        },
        TransactionType::Dispute => {
            if dispute_ready(pre, t) {
                let amt = amount_or_zero(pre.transactions[t.tx].amount);
                lemma_amount_add_wf(pre.held, amt);
                assert forall|k: u32| #[trigger] post.transactions.contains_key(
                    k,
                ) implies amount_opt_wf(post.transactions[k].amount) by {
                    if k != t.tx {
                        assert(pre.transactions.contains_key(k));
                    }
                };
            }
        },
        TransactionType::Resolve => {
            if settle_ready(pre, t) {
                let amt = amount_or_zero(pre.transactions[t.tx].amount);
                lemma_amount_sub_wf(pre.held, amt);
                assert forall|k: u32| #[trigger] post.transactions.contains_key(
                    k,
                ) implies amount_opt_wf(post.transactions[k].amount) by {
                    if k != t.tx {
                        assert(pre.transactions.contains_key(k));
                    }
                };
            }
        },
        TransactionType::Chargeback => {
            if settle_ready(pre, t) {
                let amt = amount_or_zero(pre.transactions[t.tx].amount);
                lemma_amount_sub_wf(pre.held, amt);
                lemma_amount_sub_wf(pre.total, amt);
                assert forall|k: u32| #[trigger] post.transactions.contains_key(
                    k,
                ) implies amount_opt_wf(post.transactions[k].amount) by {
                    if k != t.tx {
                        assert(pre.transactions.contains_key(k));
                    }
                };
            }
        },
    }
}

/// Applying a whole batch keeps the account well-formed: the balance
/// invariant holds at every point after applying a batch.
pub proof fn lemma_batch_preserves_wf(pre: AccountModel, ts: Seq<TransactionEntity>)
    requires
        pre.wf(),
        batch_fits(pre, ts),
    ensures
        apply_batch(pre, ts).wf(),
    decreases ts.len(),
{
    if ts.len() > 0 {
        lemma_apply_preserves_wf(pre, ts[0]);
        lemma_batch_preserves_wf(apply_model(pre, ts[0]), ts.drop_first());
    }
}

/// Once locked, an account never changes again, whatever batch of
/// transactions follows.
pub proof fn lemma_locked_account_never_changes(pre: AccountModel, ts: Seq<TransactionEntity>)
    requires
        pre.locked,
    ensures
        apply_batch(pre, ts) == pre,
    decreases ts.len(),
{
    if ts.len() > 0 {
        lemma_locked_rejects_all(pre, ts[0]);
        lemma_locked_account_never_changes(pre, ts.drop_first());
    }
}

/// For every well-formed account, the snapshot satisfies
/// `available == total - held` exactly.
pub proof fn lemma_snapshot_balance(a: AccountModel)
    requires
        a.wf(),
    ensures
        entity_of(a).available.units + entity_of(a).held.units == entity_of(a).total.units,
{
}

/// Applying a transaction never changes which client the account
/// belongs to.
pub proof fn lemma_apply_keeps_client(pre: AccountModel, t: TransactionEntity)
    ensures
        apply_model(pre, t).client == pre.client,
{
}

/// A rejected transaction leaves the account exactly as it was.
pub proof fn lemma_rejection_leaves_account_unchanged(pre: AccountModel, t: TransactionEntity)
    requires
        apply_result(pre, t) is Err,
    ensures
        apply_model(pre, t) == pre,
{
}

/// The dispute lifecycle is enforced: a transaction that is no longer in
/// its initial state cannot be disputed again, and one that is not
/// currently disputed — including the terminal `Resolved` and
/// `Chargebacked` states — can be neither resolved nor chargebacked.
pub proof fn lemma_dispute_lifecycle(pre: AccountModel, t: TransactionEntity)
    requires
        !pre.locked,
        pre.transactions.contains_key(t.tx),
    ensures
        t.transaction_type == TransactionType::Dispute && pre.transactions[t.tx].status
            != TransactionStatus::Normal ==> apply_result(pre, t) == Result::<(), ErrorKind>::Err(
            ErrorKind::AlreadyDisputed,
        ) && apply_model(pre, t) == pre,
        (t.transaction_type == TransactionType::Resolve || t.transaction_type
            == TransactionType::Chargeback) && pre.transactions[t.tx].status
            != TransactionStatus::Disputed ==> apply_result(pre, t) == Result::<
            (),
            ErrorKind,
        >::Err(ErrorKind::NotDisputed) && apply_model(pre, t) == pre,
{
}

/// A successful chargeback always locks the account.
pub proof fn lemma_chargeback_locks(pre: AccountModel, t: TransactionEntity)
    requires
        t.transaction_type == TransactionType::Chargeback,
        apply_result(pre, t) is Ok,
    ensures
        apply_model(pre, t).locked,
{
}

/// Once locked, an account rejects every transaction with
/// `AccountLocked` and never changes again.
pub proof fn lemma_locked_rejects_all(pre: AccountModel, t: TransactionEntity)
    requires
        pre.locked,
    ensures
        apply_result(pre, t) == Result::<(), ErrorKind>::Err(ErrorKind::AccountLocked),
        apply_model(pre, t) == pre,
{
}

/// A dispute, resolve or chargeback referencing a transaction id that
/// was never stored fails with `TransactionNotFound` and changes
/// nothing.
pub proof fn lemma_unknown_transaction_not_found(pre: AccountModel, t: TransactionEntity)
    requires
        !pre.locked,
        !pre.transactions.contains_key(t.tx),
        t.transaction_type == TransactionType::Dispute || t.transaction_type
            == TransactionType::Resolve || t.transaction_type == TransactionType::Chargeback,
    ensures
        apply_result(pre, t) == Result::<(), ErrorKind>::Err(ErrorKind::TransactionNotFound),
        apply_model(pre, t) == pre,
{
}

} // verus!
