//! The payment engine: routes each transaction to its client's account,
//! creating the account on first sight of the client id, and collects
//! the final snapshots.
//!
//! Transactions for one client are applied strictly in the order they
//! are submitted, and a transaction for one client never alters any
//! other client's account.

use vstd::prelude::*;

verus! {

use std::collections::HashMap;

use crate::account::{Account, AccountEntity, AccountModel, apply_batch, apply_fits, apply_model,
    apply_result, entity_of, fresh_account_model, lemma_apply_keeps_client};
use crate::error::ErrorKind;
use crate::transaction::{TransactionEntity, entity_wf};

broadcast use vstd::std_specs::hash::group_hash_axioms;

/// Whether a snapshot for this client appears somewhere in the sequence.
pub open spec fn appears(s: Seq<AccountEntity>, c: u16) -> bool {
    exists|i: int| 0 <= i < s.len() && s[i].client == c
}

/// The transactions of one client, in their arrival order.
pub open spec fn for_client(ts: Seq<TransactionEntity>, client: u16) -> Seq<TransactionEntity> {
    ts.filter(|t: TransactionEntity| t.client == client)
}

/// The ledger that routing a whole stream produces: every transaction
/// is applied to its client's account, created fresh on first sight of
/// the client id.
pub open spec fn route_batch(ts: Seq<TransactionEntity>) -> Map<u16, AccountModel>
    decreases ts.len(),
{
    if ts.len() == 0 {
        Map::empty()
    } else {
        let routed = route_batch(ts.drop_last());
        let t = ts.last();
        let pre = if routed.contains_key(t.client) {
            routed[t.client]
        } else {
            fresh_account_model(t.client)
        };
        routed.insert(t.client, apply_model(pre, t))
    }
}

/// Extending a batch by one transaction applies it to the batch's
/// result.
pub proof fn lemma_apply_batch_push(
    pre: AccountModel,
    ts: Seq<TransactionEntity>,
    t: TransactionEntity,
)
    ensures
        apply_batch(pre, ts.push(t)) == apply_model(apply_batch(pre, ts), t),
    decreases ts.len(),
{
    if ts.len() == 0 {
        assert(ts.push(t)[0] == t);
        assert(ts.push(t).drop_first() =~= Seq::<TransactionEntity>::empty());
        assert(apply_batch(apply_model(pre, t), Seq::<TransactionEntity>::empty()) == apply_model(
            pre,
            t,
        ));
        assert(apply_batch(pre, ts.push(t)) == apply_model(pre, t));
    } else {
        assert(ts.push(t).drop_first() =~= ts.drop_first().push(t));
        assert(ts.push(t)[0] == ts[0]);
        lemma_apply_batch_push(apply_model(pre, ts[0]), ts.drop_first(), t);
        assert(apply_batch(pre, ts.push(t)) == apply_batch(
            apply_model(pre, ts[0]),
            ts.drop_first().push(t),
        ));
        assert(apply_batch(pre, ts) == apply_batch(apply_model(pre, ts[0]), ts.drop_first()));
    }
}

/// Cross-client independence, under any interleaving: after routing a
/// whole stream, a client's account exists exactly when the stream
/// holds a transaction for that client, and it is then exactly the
/// result of applying that client's own transactions, in arrival order,
/// to a fresh account. Transactions of other clients never alter it.
pub proof fn lemma_per_client_isolation(ts: Seq<TransactionEntity>, client: u16)
    ensures
        route_batch(ts).contains_key(client) <==> for_client(ts, client).len() > 0,
        route_batch(ts).contains_key(client) ==> route_batch(ts)[client] == apply_batch(
            fresh_account_model(client),
            for_client(ts, client),
        ),
    decreases ts.len(),
{
    reveal(Seq::filter);
    if ts.len() > 0 {
        let s = ts.drop_last();
        let t = ts.last();
        lemma_per_client_isolation(s, client);
        if t.client == client {
            assert(for_client(ts, client) == for_client(s, client).push(t));
            if !route_batch(s).contains_key(client) {
                assert(for_client(s, client) =~= Seq::<TransactionEntity>::empty());
            }
            lemma_apply_batch_push(fresh_account_model(client), for_client(s, client), t);
        } else {
            assert(for_client(ts, client) == for_client(s, client));
        }
    }
}

/// The engine: every known account, keyed by client id, together with
/// the client ids in order of first sight.
pub struct PaymentEngine {
    pub accounts: HashMap<u16, Account>,
    pub clients: Vec<u16>,
}

impl PaymentEngine {
    /// A well-formed engine: every stored account is well-formed and
    /// filed under its own client id, and the client list holds exactly
    /// the known client ids, each once.
    pub open spec fn wf(self) -> bool {
        &&& forall|c: u16|
            #[trigger] self.accounts@.contains_key(c) ==> self.accounts@[c]@.wf()
                && self.accounts@[c]@.client == c
        &&& self.clients@.no_duplicates()
        &&& forall|i: int|
            0 <= i < self.clients@.len() ==> self.accounts@.contains_key(
                #[trigger] self.clients@[i],
            )
        &&& forall|c: u16| #[trigger] self.accounts@.contains_key(c) ==> self.clients@.contains(c)
    }

    /// The account a transaction for this client is applied to: the
    /// stored one, or a fresh zero-balance account on first sight.
    pub open spec fn pre_model(self, client: u16) -> AccountModel {
        if self.accounts@.contains_key(client) {
            self.accounts@[client]@
        } else {
            fresh_account_model(client)
        }
    }

    /// The snapshots of all known accounts, in order of first sight.
    pub open spec fn snapshot_seq(self) -> Seq<AccountEntity> {
        Seq::new(self.clients@.len(), |i: int| entity_of(self.accounts@[self.clients@[i]]@))
    }

    /// An engine that knows no accounts yet.
    pub fn new() -> (r: PaymentEngine)
        ensures
            r.wf(),
            r.accounts@ == Map::<u16, Account>::empty(),
            r.clients@ == Seq::<u16>::empty(),
    {
        PaymentEngine { accounts: HashMap::new(), clients: Vec::new() }
    }

    /// Whether applying this transaction to its client's account stays
    /// within the representable range of balances, so that
    /// [`PaymentEngine::process_transaction`] may be called.
    pub fn process_fits(&self, transaction_entity: &TransactionEntity) -> (r: bool)
        requires
            self.wf(),
            entity_wf(*transaction_entity),
        ensures
            r == apply_fits(self.pre_model(transaction_entity.client), *transaction_entity),
    {
        match self.accounts.get(&transaction_entity.client) {
            Some(account) => account.process_fits(transaction_entity),
            None => true,
        }
    }

    /// Routes one transaction to its client's account, creating a fresh
    /// zero-balance account on first sight of the client id, and applies
    /// it there. Accounts of all other clients are left untouched, under
    /// any interleaving of clients in the input.
    pub fn process_transaction(&mut self, transaction_entity: TransactionEntity) -> (r: Result<
        (),
        ErrorKind,
    >)
        requires
            old(self).wf(),
            entity_wf(transaction_entity),
            apply_fits(old(self).pre_model(transaction_entity.client), transaction_entity),
        ensures
            final(self).wf(),
            final(self).accounts@.contains_key(transaction_entity.client),
            final(self).accounts@[transaction_entity.client]@ == apply_model(
                old(self).pre_model(transaction_entity.client),
                transaction_entity,
            ),
            r == apply_result(old(self).pre_model(transaction_entity.client), transaction_entity),
            forall|c: u16|
                c != transaction_entity.client && #[trigger] old(self).accounts@.contains_key(c)
                    ==> final(self).accounts@.contains_key(c) && final(self).accounts@[c] == old(
                    self,
                ).accounts@[c],
            forall|c: u16|
                c != transaction_entity.client && !old(self).accounts@.contains_key(c) ==> !(
                #[trigger] final(self).accounts@.contains_key(c)),
            final(self).clients@ == (if old(self).accounts@.contains_key(
                transaction_entity.client,
            ) {
                old(self).clients@
            } else {
                old(self).clients@.push(transaction_entity.client)
            }),
    {
        let client = transaction_entity.client;
        let mut account = match self.accounts.remove(&client) {
            Some(account) => account,
            None => {
                proof {
                    assert(old(self).accounts@.remove(client) =~= old(self).accounts@);
                    assert(forall|i: int|
                        0 <= i < old(self).clients@.len() ==> #[trigger] old(self).clients@[i]
                            != client);
                }
                self.clients.push(client);
                Account::new(client)
            },
        };
        let result = account.process_transaction(transaction_entity);
        self.accounts.insert(client, account);
        proof {
            lemma_apply_keeps_client(old(self).pre_model(client), transaction_entity);
            if !old(self).accounts@.contains_key(client) {
                let pre_clients = old(self).clients@;
                let n = pre_clients.len() as int;
                assert(self.clients@ == pre_clients.push(client));
                assert(self.clients@[n] == client);
                assert forall|i: int, j: int|
                    0 <= i < self.clients@.len() && 0 <= j < self.clients@.len() && i
                        != j implies self.clients@[i] != self.clients@[j] by {
                    if i < n && j < n {
                        assert(pre_clients[i] != pre_clients[j]);
                    }
                };
                assert forall|c: u16| #[trigger] self.accounts@.contains_key(
                    c,
                ) implies self.clients@.contains(c) by {
                    if c != client {
                        assert(pre_clients.contains(c));
                        let w = choose|i: int| 0 <= i < n && pre_clients[i] == c;
                        assert(self.clients@[w] == c);
                    }
                };
            } else {
                assert forall|c: u16| #[trigger] self.accounts@.contains_key(
                    c,
                ) implies self.clients@.contains(c) by {
                    assert(old(self).accounts@.contains_key(c));
                };
            }
        }
        result
    }

    /// The snapshots of every known account. With `order` set they come
    /// sorted by client id ascending; otherwise they come in order of
    /// first sight.
    pub fn get_account_entities(&self, order: bool) -> (r: Vec<AccountEntity>)
        requires
            self.wf(),
        ensures
            !order ==> r@ == self.snapshot_seq(),
            order ==> forall|i: int, j: int|
                0 <= i < j < r@.len() ==> r@[i].client < r@[j].client,
            order ==> forall|i: int|
                0 <= i < r@.len() ==> self.accounts@.contains_key(#[trigger] r@[i].client)
                    && r@[i] == entity_of(self.accounts@[r@[i].client]@),
            order ==> forall|c: u16|
                #[trigger] self.accounts@.contains_key(c) ==> appears(r@, c),
    {
        if order {
            let mut result: Vec<AccountEntity> = Vec::new();
            let mut c: u32 = 0;
            while c < 65536
                invariant
                    self.wf(),
                    c <= 65536,
                    forall|i: int|
                        0 <= i < result@.len() ==> (#[trigger] result@[i]).client < c
                            && self.accounts@.contains_key(result@[i].client) && result@[i]
                            == entity_of(self.accounts@[result@[i].client]@),
                    forall|i: int, j: int|
                        0 <= i < j < result@.len() ==> result@[i].client < result@[j].client,
                    forall|k: u16|
                        k < c && #[trigger] self.accounts@.contains_key(k) ==> appears(result@, k),
                decreases 65536 - c,
            {
                let id = c as u16;
                match self.accounts.get(&id) {
                    Some(account) => {
                        let ghost before = result@;
                        result.push(AccountEntity::from(account));
                        proof {
                            assert(result@[before.len() as int].client == id);
                            assert forall|k: u16|
                                k < c + 1 && #[trigger] self.accounts@.contains_key(
                                    k,
                                ) implies appears(result@, k) by {
                                if k < c {
                                    assert(appears(before, k));
                                    let w = choose|i: int|
                                        0 <= i < before.len() && before[i].client == k;
                                    assert(result@[w].client == k);
                                } else {
                                    assert(result@[before.len() as int].client == k);
                                }
                            };
                        }
                    },
                    None => {},
                }
                c = c + 1;
            }
            result
        } else {
            let mut result: Vec<AccountEntity> = Vec::new();
            let mut i: usize = 0;
            while i < self.clients.len()
                invariant
                    self.wf(),
                    i <= self.clients@.len(),
                    result@ == self.snapshot_seq().take(i as int),
                decreases self.clients@.len() - i,
            {
                let client = self.clients[i];
                let account = match self.accounts.get(&client) {
                    Some(account) => account,
                    None => {
                        proof {
                            assert(self.accounts@.contains_key(self.clients@[i as int]));
                        }
                        unreached()
                    },
                };
                result.push(AccountEntity::from(account));
                proof {
                    assert(result@ =~= self.snapshot_seq().take(i as int + 1));
                }
                i = i + 1;
            }
            proof {
                assert(result@ =~= self.snapshot_seq());
            }
            result
        }
    }
}

} // verus!
