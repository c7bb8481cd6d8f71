//! The report: what is shown of each account once the events are replayed.

use crate::account::Account;
use crate::amount::Amount;
use crate::ledger::{snapshot_of, SnapshotView};
use vstd::prelude::*;

verus! {

/// What is reported of one account.
#[derive(Debug, Clone, Copy)]
pub struct AccountSnapshot {
    /// The client.
    pub client_id: u64,
    /// The available funds.
    pub available: Amount,
    /// The held funds.
    pub held: Amount,
    /// Available and held funds together.
    pub total: Amount,
    /// Whether the account is locked.
    pub locked: bool,
}

impl View for AccountSnapshot {
    type V = SnapshotView;

    open spec fn view(&self) -> SnapshotView {
        SnapshotView {
            client_id: self.client_id,
            available: self.available@,
            held: self.held@,
            total: self.total@,
            locked: self.locked,
        }
    }
}

/// One line of the report, ready to be written: the amounts as text.
#[derive(Debug)]
pub struct ReportRow {
    /// The client.
    pub client_id: u64,
    /// The available funds.
    pub available: String,
    /// The held funds.
    pub held: String,
    /// Available and held funds together.
    pub total: String,
    /// Whether the account is locked.
    pub locked: bool,
}

impl AccountSnapshot {
    /// The snapshot of a client's account.
    pub fn new(client_id: u64, account: &Account) -> (r: AccountSnapshot)
        ensures
            r@ == snapshot_of(client_id, account@),
    {
        AccountSnapshot {
            client_id,
            available: account.available(),
            held: account.held(),
            total: account.total(),
            locked: account.locked(),
        }
    }

    /// The snapshot with its amounts as text, or `None` where one of them
    /// has no text.
    pub fn to_row(&self) -> (r: Option<ReportRow>)
        ensures
            r is Some <==> self@.available.has_text() && self@.held.has_text()
                && self@.total.has_text(),
            r matches Some(row) ==> {
                &&& row.client_id == self.client_id
                &&& row.available@ == self@.available.text()
                &&& row.held@ == self@.held.text()
                &&& row.total@ == self@.total.text()
                &&& row.locked == self.locked
            },
    {
        match (self.available.to_text(), self.held.to_text(), self.total.to_text()) {
            (Some(available), Some(held), Some(total)) => Some(
                ReportRow {
                    client_id: self.client_id,
                    available,
                    held,
                    total,
                    locked: self.locked,
                },
            ),
            _ => None,
        }
    }
}

} // verus!
