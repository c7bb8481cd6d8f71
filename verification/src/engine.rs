//! The ledger engine: the executable ledger, one entry point for each kind
//! of event. No entry point fails; an event that does not apply is dropped
//! and leaves the engine as it was.

use crate::account::{Account, Transaction, TransactionKind};
use crate::amount::{parse_amount, stated_amount, Amount};
use crate::ledger::{snapshot_of, EventKind, Ledger};
use crate::report::AccountSnapshot;
use crate::theorems::lemma_apply_keeps_wf;
use std::collections::HashMap;
use vstd::prelude::*;
use vstd::std_specs::hash::*;
use vstd::std_specs::iter::IteratorSpec;

verus! {

broadcast use group_hash_axioms;

/// Calls `sort` on a vector of client ids. Trusted: afterwards the vector
/// holds the same ids as before, each as often as before, in ascending order.
#[verifier::external_body]
fn sort_ids(ids: &mut Vec<u64>)
    ensures
        final(ids)@.to_multiset() == old(ids)@.to_multiset(),
        forall|i: int, j: int|
            0 <= i <= j < final(ids)@.len() ==> final(ids)@[i] <= final(ids)@[j],
{
    ids.sort();
}

/// The ledger engine. It owns the accounts and the recorded transactions.
pub struct Engine {
    accounts: HashMap<u64, Account>,
    transactions: HashMap<u64, Transaction>,
}

impl View for Engine {
    type V = Ledger;

    closed spec fn view(&self) -> Ledger {
        Ledger {
            accounts: self.accounts@.map_values(|a: Account| a@),
            transactions: self.transactions@.map_values(|t: Transaction| t@),
        }
    }
}

impl Default for Engine {
    /// An engine that has seen no event.
    fn default() -> (r: Engine)
        ensures
            r@ == Ledger::empty(),
            r@.wf(),
    {
        Engine::new()
    }
}

impl Engine {
    /// An engine that has seen no event.
    pub fn new() -> (r: Engine)
        ensures
            r@ == Ledger::empty(),
            r@.wf(),
    {
        let r = Engine { accounts: HashMap::new(), transactions: HashMap::new() };
        assert(r@ =~= Ledger::empty());
        r
    }

    /// Whether the client has an account and it is locked.
    pub fn is_locked(&self, client_id: u64) -> (r: bool)
        ensures
            r == self@.is_locked(client_id),
    {
        match self.accounts.get(&client_id) {
            Some(account) => account.locked(),
            None => false,
        }
    }

    /// The client's account, if the client has one.
    pub fn account(&self, client_id: u64) -> (r: Option<Account>)
        ensures
            r is Some <==> self@.accounts.contains_key(client_id),
            r matches Some(a) ==> a@ == self@.accounts[client_id],
    {
        match self.accounts.get(&client_id) {
            Some(account) => Some(*account),
            None => None,
        }
    }

    /// The transaction recorded under the id, if there is one.
    pub fn transaction(&self, transaction_id: u64) -> (r: Option<Transaction>)
        ensures
            r is Some <==> self@.transactions.contains_key(transaction_id),
            r matches Some(t) ==> t@ == self@.transactions[transaction_id],
    {
        match self.transactions.get(&transaction_id) {
            Some(transaction) => Some(*transaction),
            None => None,
        }
    }

    /// The client's account, or a fresh one where the client has none.
    fn account_or_new(&self, client_id: u64) -> (r: Account)
        ensures
            r@ == self@.account(client_id),
    {
        match self.accounts.get(&client_id) {
            Some(account) => *account,
            None => Account::new(),
        }
    }

    /// Replaces the client's account and stores the transaction under its
    /// id.
    fn store(
        &mut self,
        client_id: u64,
        account: Account,
        transaction_id: u64,
        transaction: Transaction,
    )
        ensures
            final(self)@ == old(self)@.with(client_id, account@, transaction_id, transaction@),
    {
        self.accounts.insert(client_id, account);
        self.transactions.insert(transaction_id, transaction);
        assert(self@ =~= old(self)@.with(client_id, account@, transaction_id, transaction@));
    }

    /// Applies a deposit of `amount`.
    pub fn deposit_amount(&mut self, client_id: u64, transaction_id: u64, amount: Amount)
        ensures
            final(self)@ == old(self)@.deposit(client_id, transaction_id, amount@),
            old(self)@.wf() ==> final(self)@.wf(),
    {
        proof {
            use_type_invariant(&amount);
            if self@.wf() {
                lemma_apply_keeps_wf(
                    self@,
                    Some(EventKind::Deposit),
                    client_id,
                    transaction_id,
                    Some(amount@),
                );
            }
        }
        if self.is_locked(client_id) || self.transactions.contains_key(&transaction_id) {
            return;
        }
        match self.account_or_new(client_id).deposit(&amount) {
            None => {},
            Some(account) => {
                let transaction = Transaction::new(client_id, TransactionKind::Deposit, amount);
                self.store(client_id, account, transaction_id, transaction);
            },
        }
    }

    /// Applies a withdrawal of `amount`.
    pub fn withdraw_amount(&mut self, client_id: u64, transaction_id: u64, amount: Amount)
        ensures
            final(self)@ == old(self)@.withdrawal(client_id, transaction_id, amount@),
            old(self)@.wf() ==> final(self)@.wf(),
    {
        proof {
            use_type_invariant(&amount);
            if self@.wf() {
                lemma_apply_keeps_wf(
                    self@,
                    Some(EventKind::Withdrawal),
                    client_id,
                    transaction_id,
                    Some(amount@),
                );
            }
        }
        if self.is_locked(client_id) || self.transactions.contains_key(&transaction_id) {
            return;
        }
        match self.account_or_new(client_id).withdraw(&amount) {
            None => {},
            Some(account) => {
                let transaction = Transaction::new(client_id, TransactionKind::Withdrawal, amount);
                self.store(client_id, account, transaction_id, transaction);
            },
        }
    }

    /// Applies a deposit whose amount is given as text. The event is dropped
    /// where the text is missing or no valid amount.
    pub fn deposit(&mut self, client_id: u64, transaction_id: u64, amount: Option<String>)
        ensures
            final(self)@ == old(self)@.apply(
                Some(EventKind::Deposit),
                client_id,
                transaction_id,
                stated_amount(amount),
            ),
            old(self)@.wf() ==> final(self)@.wf(),
    {
        match amount {
            Some(text) => match parse_amount(text.as_str()) {
                Ok(value) => self.deposit_amount(client_id, transaction_id, value),
                Err(_) => {},
            },
            None => {},
        }
    }

    /// Applies a withdrawal whose amount is given as text. The event is
    /// dropped where the text is missing or no valid amount.
    pub fn withdrawal(&mut self, client_id: u64, transaction_id: u64, amount: Option<String>)
        ensures
            final(self)@ == old(self)@.apply(
                Some(EventKind::Withdrawal),
                client_id,
                transaction_id,
                stated_amount(amount),
            ),
            old(self)@.wf() ==> final(self)@.wf(),
    {
        match amount {
            Some(text) => match parse_amount(text.as_str()) {
                Ok(value) => self.withdraw_amount(client_id, transaction_id, value),
                Err(_) => {},
            },
            None => {},
        }
    }

    /// The transaction under the id, where it is a deposit of this client
    /// whose dispute flag is `disputed` and the client's account is not
    /// locked.
    fn settleable(&self, client_id: u64, transaction_id: u64, disputed: bool) -> (r: Option<
        Transaction,
    >)
        ensures
            r is Some <==> self@.can_settle(client_id, transaction_id, disputed),
            r matches Some(t) ==> t@ == self@.transactions[transaction_id],
    {
        if self.is_locked(client_id) {
            return None;
        }
        match self.transaction(transaction_id) {
            None => None,
            Some(t) => {
                if t.client_id() != client_id || t.kind() != TransactionKind::Deposit
                    || t.disputed() != disputed {
                    None
                } else {
                    Some(t)
                }
            },
        }
    }

    /// Applies a dispute of a deposit.
    pub fn dispute(&mut self, client_id: u64, transaction_id: u64)
        ensures
            final(self)@ == old(self)@.dispute(client_id, transaction_id),
            old(self)@.wf() ==> final(self)@.wf(),
    {
        proof {
            if self@.wf() {
                lemma_apply_keeps_wf(self@, Some(EventKind::Dispute), client_id, transaction_id, None);
            }
        }
        match self.settleable(client_id, transaction_id, false) {
            None => {},
            Some(t) => {
                match self.account_or_new(client_id).hold(&t.amount()) {
                    None => {},
                    Some(account) => {
                        self.store(client_id, account, transaction_id, t.with_disputed(true));
                    },
                }
            },
        }
    }

    /// Applies the resolution of a dispute.
    pub fn resolve(&mut self, client_id: u64, transaction_id: u64)
        ensures
            final(self)@ == old(self)@.resolve(client_id, transaction_id),
            old(self)@.wf() ==> final(self)@.wf(),
    {
        proof {
            if self@.wf() {
                lemma_apply_keeps_wf(self@, Some(EventKind::Resolve), client_id, transaction_id, None);
            }
        }
        match self.settleable(client_id, transaction_id, true) {
            None => {},
            Some(t) => {
                match self.account_or_new(client_id).release(&t.amount()) {
                    None => {},
                    Some(account) => {
                        self.store(client_id, account, transaction_id, t.with_disputed(false));
                    },
                }
            },
        }
    }

    /// Applies a chargeback.
    pub fn chargeback(&mut self, client_id: u64, transaction_id: u64)
        ensures
            final(self)@ == old(self)@.chargeback(client_id, transaction_id),
            old(self)@.wf() ==> final(self)@.wf(),
    {
        proof {
            if self@.wf() {
                lemma_apply_keeps_wf(self@, Some(EventKind::Chargeback), client_id, transaction_id, None);
            }
        }
        match self.settleable(client_id, transaction_id, true) {
            None => {},
            Some(t) => {
                match self.account_or_new(client_id).charge_back(&t.amount()) {
                    None => {},
                    Some(account) => {
                        self.store(client_id, account, transaction_id, t.with_disputed(false));
                    },
                }
            },
        }
    }

    /// The ids of the clients that have an account, each once, in the order
    /// in which the map hands them out.
    fn client_ids(&self) -> (ids: Vec<u64>)
        ensures
            ids@.no_duplicates(),
            forall|client_id: u64|
                ids@.contains(client_id) <==> self@.accounts.contains_key(client_id),
    {
        let mut ids: Vec<u64> = Vec::new();
        let keys = self.accounts.keys();
        proof {
            axiom_spec_keys_iter(&self.accounts);
        }
        for key in it: keys
            invariant
                it.seq() == spec_keys_iter(&self.accounts).remaining(),
                ids@.len() == it.index(),
                forall|i: int| 0 <= i < ids@.len() ==> ids@[i] == *it.seq()[i],
        {
            ids.push(*key);
        }
        proof {
            let all = spec_keys_iter(&self.accounts).remaining();
            assert(ids@ =~= all.unref());
            assert forall|client_id: u64|
                ids@.contains(client_id) <==> self@.accounts.contains_key(client_id) by {
                assert(ids@.contains(client_id) <==> ids@.to_set().contains(client_id));
            }
            assert forall|i: int, j: int|
                0 <= i < ids@.len() && 0 <= j < ids@.len() && i != j implies ids@[i] != ids@[j] by {
                assert(all[i] != all[j]);
            }
        }
        ids
    }

    /// The report: one snapshot for each account ever created, in ascending
    /// order of client id.
    pub fn report(&self) -> (rows: Vec<AccountSnapshot>)
        ensures
            self@.is_report(rows@.map_values(|row: AccountSnapshot| row@)),
    {
        let mut ids: Vec<u64> = self.client_ids();
        let ghost unsorted = ids@;
        sort_ids(&mut ids);
        proof {
            unsorted.lemma_multiset_has_no_duplicates();
            ids@.lemma_multiset_has_no_duplicates_conv();
            unsorted.to_multiset_ensures();
            ids@.to_multiset_ensures();
            assert forall|i: int, j: int| 0 <= i < j < ids@.len() implies ids@[i] < ids@[j] by {
                assert(ids@[i] != ids@[j]);
            }
            assert forall|client_id: u64|
                ids@.contains(client_id) <==> self@.accounts.contains_key(client_id) by {
                assert(ids@.contains(client_id) <==> ids@.to_multiset().count(client_id) > 0);
                assert(unsorted.contains(client_id) <==> unsorted.to_multiset().count(client_id)
                    > 0);
            }
        }
        let mut rows: Vec<AccountSnapshot> = Vec::new();
        let mut i: usize = 0;
        while i < ids.len()
            invariant
                i <= ids@.len(),
                rows@.len() == i,
                forall|c: u64| ids@.contains(c) <==> self@.accounts.contains_key(c),
                forall|k: int|
                    0 <= k < i ==> (#[trigger] rows@[k])@ == snapshot_of(
                        ids@[k],
                        self@.accounts[ids@[k]],
                    ),
            decreases ids@.len() - i,
        {
            let client_id: u64 = ids[i];
            assert(ids@.contains(client_id));
            match self.accounts.get(&client_id) {
                Some(account) => {
                    rows.push(AccountSnapshot::new(client_id, account));
                },
                None => {},
            }
            i = i + 1;
        }
        proof {
            let views = rows@.map_values(|row: AccountSnapshot| row@);
            assert forall|k: int| 0 <= k < views.len() implies #[trigger] views[k].client_id
                == ids@[k] && views[k] == snapshot_of(ids@[k], self@.accounts[ids@[k]]) by {
                assert(rows@[k]@ == snapshot_of(ids@[k], self@.accounts[ids@[k]]));
            }
            assert forall|k: int| 0 <= k < views.len() implies self@.accounts.contains_key(
                #[trigger] views[k].client_id,
            ) by {
                assert(ids@.contains(ids@[k]));
            }
            assert forall|client_id: u64| #[trigger]
                self@.accounts.contains_key(client_id) implies exists|k: int|
                0 <= k < views.len() && #[trigger] views[k].client_id == client_id by {
                assert(ids@.contains(client_id));
                let k = choose|k: int| 0 <= k < ids@.len() && ids@[k] == client_id;
                assert(views[k].client_id == client_id);
            }
        }
        rows
    }
}

} // verus!
