//! The ledger as a mathematical state machine: two maps and one transition
//! for each kind of event. An event that does not apply leaves the whole
//! state as it was.

use crate::account::{AccountView, TransactionKind, TransactionView};
use crate::amount::Money;
use vstd::prelude::*;

verus! {

/// The kinds of event that the ledger takes.
#[derive(Debug, Clone, Copy, PartialEq, Eq, Structural)]
pub enum EventKind {
    /// Pay funds in.
    Deposit,
    /// Pay funds out.
    Withdrawal,
    /// Claim that a deposit should be reversed.
    Dispute,
    /// Close a dispute in the client's favour.
    Resolve,
    /// Close a dispute against the client.
    Chargeback,
}

/// What is reported of one account: the client, the two balances, their
/// total, and whether the account is locked.
pub struct SnapshotView {
    /// The client.
    pub client_id: u64,
    /// The available funds.
    pub available: Money,
    /// The held funds.
    pub held: Money,
    /// Available and held funds together.
    pub total: Money,
    /// Whether the account is locked.
    pub locked: bool,
}

/// The snapshot of a client's account.
pub open spec fn snapshot_of(client_id: u64, account: AccountView) -> SnapshotView {
    SnapshotView {
        client_id,
        available: account.available,
        held: account.held,
        total: account.total(),
        locked: account.locked,
    }
}

/// One event, as the ledger takes it: its kind, if it has a known one, the
/// client and the transaction it names, and the amount it states, if it
/// states a valid one.
pub struct Event {
    /// The kind of event, or `None` for an unknown kind.
    pub kind: Option<EventKind>,
    /// The client the event is about.
    pub client_id: u64,
    /// The transaction the event creates or refers to.
    pub transaction_id: u64,
    /// The amount, where the event states a valid one.
    pub amount: Option<Money>,
}

impl Event {
    /// An event is well formed if its amount is, where it has one.
    pub open spec fn wf(self) -> bool {
        self.amount matches Some(amount) ==> amount.wf()
    }
}

/// The state of the ledger: the account of each client met so far, and each
/// accepted deposit or withdrawal under its transaction id.
#[verifier::ext_equal]
pub struct Ledger {
    /// The accounts, by client id.
    pub accounts: Map<u64, AccountView>,
    /// The recorded transactions, by transaction id.
    pub transactions: Map<u64, TransactionView>,
}

impl Ledger {
    /// The ledger that has seen no event.
    pub open spec fn empty() -> Ledger {
        Ledger { accounts: Map::empty(), transactions: Map::empty() }
    }

    /// A ledger is well formed if all its accounts and transactions are.
    pub open spec fn wf(self) -> bool {
        &&& forall|client_id: u64| #[trigger]
            self.accounts.contains_key(client_id) ==> self.accounts[client_id].wf()
        &&& forall|transaction_id: u64| #[trigger]
            self.transactions.contains_key(transaction_id)
                ==> self.transactions[transaction_id].wf()
    }

    /// Whether the client has an account and it is locked.
    pub open spec fn is_locked(self, client_id: u64) -> bool {
        self.accounts.contains_key(client_id) && self.accounts[client_id].locked
    }

    /// The client's account, or a fresh one where the client has none.
    pub open spec fn account(self, client_id: u64) -> AccountView {
        if self.accounts.contains_key(client_id) {
            self.accounts[client_id]
        } else {
            AccountView::fresh()
        }
    }

    /// Whether `rows` is the report of this ledger: one snapshot for each
    /// account, in ascending order of client id.
    pub open spec fn is_report(self, rows: Seq<SnapshotView>) -> bool {
        &&& forall|i: int, j: int|
            0 <= i < j < rows.len() ==> rows[i].client_id < rows[j].client_id
        &&& forall|i: int|
            0 <= i < rows.len() ==> self.accounts.contains_key(#[trigger] rows[i].client_id)
                && rows[i] == snapshot_of(rows[i].client_id, self.accounts[rows[i].client_id])
        &&& forall|client_id: u64| #[trigger]
            self.accounts.contains_key(client_id) ==> exists|i: int|
                0 <= i < rows.len() && #[trigger] rows[i].client_id == client_id
    }

    /// The ledger with the client's account replaced and the transaction
    /// stored under its id.
    pub open spec fn with(
        self,
        client_id: u64,
        account: AccountView,
        transaction_id: u64,
        transaction: TransactionView,
    ) -> Ledger {
        Ledger {
            accounts: self.accounts.insert(client_id, account),
            transactions: self.transactions.insert(transaction_id, transaction),
        }
    }

    /// The ledger after a deposit. The event is dropped if the account is
    /// locked, the transaction id is in use, the amount is not positive, or
    /// the total would leave the range; else the amount is added to the
    /// available funds and the deposit is recorded.
    pub open spec fn deposit(self, client_id: u64, transaction_id: u64, amount: Money) -> Ledger {
        if self.is_locked(client_id) || self.transactions.contains_key(transaction_id) {
            self
        } else {
            match self.account(client_id).deposit(amount) {
                None => self,
                Some(account) => self.with(
                    client_id,
                    account,
                    transaction_id,
                    TransactionView {
                        client_id,
                        kind: TransactionKind::Deposit,
                        amount,
                        disputed: false,
                    },
                ),
            }
        }
    }

    /// The ledger after a withdrawal. The event is dropped if the account is
    /// locked, the transaction id is in use, the amount is not positive, or
    /// less than the amount is available; else the amount is taken from the
    /// available funds and the withdrawal is recorded.
    pub open spec fn withdrawal(
        self,
        client_id: u64,
        transaction_id: u64,
        amount: Money,
    ) -> Ledger {
        if self.is_locked(client_id) || self.transactions.contains_key(transaction_id) {
            self
        } else {
            match self.account(client_id).withdraw(amount) {
                None => self,
                Some(account) => self.with(
                    client_id,
                    account,
                    transaction_id,
                    TransactionView {
                        client_id,
                        kind: TransactionKind::Withdrawal,
                        amount,
                        disputed: false,
                    },
                ),
            }
        }
    }

    /// Whether the transaction is a deposit of this client whose dispute flag
    /// is `disputed`, and the client's account is not locked: what a dispute
    /// (with `false`) and a resolution or chargeback (with `true`) ask for.
    pub open spec fn can_settle(self, client_id: u64, transaction_id: u64, disputed: bool) -> bool {
        &&& !self.is_locked(client_id)
        &&& self.transactions.contains_key(transaction_id)
        &&& self.transactions[transaction_id].client_id == client_id
        &&& self.transactions[transaction_id].kind == TransactionKind::Deposit
        &&& self.transactions[transaction_id].disputed == disputed
    }

    /// The ledger after a dispute. The event is dropped unless the
    /// transaction is an undisputed deposit of this client and the account is
    /// not locked; else the deposit's amount moves from available to held and
    /// the deposit is marked as disputed.
    pub open spec fn dispute(self, client_id: u64, transaction_id: u64) -> Ledger {
        if !self.can_settle(client_id, transaction_id, false) {
            self
        } else {
            let transaction = self.transactions[transaction_id];
            match self.account(client_id).hold(transaction.amount) {
                None => self,
                Some(account) => self.with(
                    client_id,
                    account,
                    transaction_id,
                    TransactionView { disputed: true, ..transaction },
                ),
            }
        }
    }

    /// The ledger after a resolution. The event is dropped unless the
    /// transaction is a disputed deposit of this client, the account is not
    /// locked and it holds the deposit's amount; else the amount moves back
    /// from held to available and the dispute is closed.
    pub open spec fn resolve(self, client_id: u64, transaction_id: u64) -> Ledger {
        if !self.can_settle(client_id, transaction_id, true) {
            self
        } else {
            let transaction = self.transactions[transaction_id];
            match self.account(client_id).release(transaction.amount) {
                None => self,
                Some(account) => self.with(
                    client_id,
                    account,
                    transaction_id,
                    TransactionView { disputed: false, ..transaction },
                ),
            }
        }
    }

    /// The ledger after a chargeback. The event is dropped unless the
    /// transaction is a disputed deposit of this client, the account is not
    /// locked and it holds the deposit's amount; else the amount leaves the
    /// held funds, the account is locked and the dispute is closed.
    pub open spec fn chargeback(self, client_id: u64, transaction_id: u64) -> Ledger {
        if !self.can_settle(client_id, transaction_id, true) {
            self
        } else {
            let transaction = self.transactions[transaction_id];
            match self.account(client_id).charge_back(transaction.amount) {
                None => self,
                Some(account) => self.with(
                    client_id,
                    account,
                    transaction_id,
                    TransactionView { disputed: false, ..transaction },
                ),
            }
        }
    }

    /// The ledger after an event of the given kind. An event of no known
    /// kind, and a deposit or withdrawal without a valid amount, is dropped.
    pub open spec fn apply(
        self,
        kind: Option<EventKind>,
        client_id: u64,
        transaction_id: u64,
        amount: Option<Money>,
    ) -> Ledger {
        match kind {
            Some(EventKind::Deposit) => match amount {
                Some(a) => self.deposit(client_id, transaction_id, a),
                None => self,
            },
            Some(EventKind::Withdrawal) => match amount {
                Some(a) => self.withdrawal(client_id, transaction_id, a),
                None => self,
            },
            Some(EventKind::Dispute) => self.dispute(client_id, transaction_id),
            Some(EventKind::Resolve) => self.resolve(client_id, transaction_id),
            Some(EventKind::Chargeback) => self.chargeback(client_id, transaction_id),
            None => self,
        }
    }

    /// The ledger after one event.
    pub open spec fn step(self, event: Event) -> Ledger {
        self.apply(event.kind, event.client_id, event.transaction_id, event.amount)
    }

    /// The ledger after a sequence of events, taken in order.
    pub open spec fn replay(self, events: Seq<Event>) -> Ledger
        decreases events.len(),
    {
        if events.len() == 0 {
            self
        } else {
            self.replay(events.drop_last()).step(events.last())
        }
    }
}

} // verus!
