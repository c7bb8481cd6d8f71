//! Events as they arrive: a row of text fields, and the kind that its first
//! field names.

use crate::amount::stated_amount;
use crate::engine::Engine;
use crate::ledger::EventKind;
use crate::text::{lowered, str_to_ascii_lowercase, trim, trimmed};
use vstd::prelude::*;

verus! {

/// One input record: the name of the event's kind, the client, the
/// transaction, and for deposits and withdrawals the amount as text.
#[derive(Debug)]
pub struct InputRow {
    /// The name of the kind of event, in any letter case.
    pub transaction_type: String,
    /// The client the event is about.
    pub client_id: u64,
    /// The transaction the event creates or refers to.
    pub transaction_id: u64,
    /// The amount, for a deposit or a withdrawal.
    pub amount: Option<String>,
}

/// The kind of event that a text names: the text is trimmed and compared
/// without regard to letter case. A text that names no kind gives `None`.
pub open spec fn named_kind(text: Seq<char>) -> Option<EventKind> {
    let word = lowered(trimmed(text));
    if word == "deposit"@ {
        Some(EventKind::Deposit)
    } else if word == "withdrawal"@ {
        Some(EventKind::Withdrawal)
    } else if word == "dispute"@ {
        Some(EventKind::Dispute)
    } else if word == "resolve"@ {
        Some(EventKind::Resolve)
    } else if word == "chargeback"@ {
        Some(EventKind::Chargeback)
    } else {
        None
    }
}

/// Finds the kind of event that a text names.
pub fn parse_kind(text: &str) -> (r: Option<EventKind>)
    ensures
        r == named_kind(text@),
{
    let word = str_to_ascii_lowercase(trim(text));
    if word == "deposit".to_owned() {
        Some(EventKind::Deposit)
    } else if word == "withdrawal".to_owned() {
        Some(EventKind::Withdrawal)
    } else if word == "dispute".to_owned() {
        Some(EventKind::Dispute)
    } else if word == "resolve".to_owned() {
        Some(EventKind::Resolve)
    } else if word == "chargeback".to_owned() {
        Some(EventKind::Chargeback)
    } else {
        None
    }
}

impl Engine {
    /// Applies the event that a row describes. A row that names no known
    /// kind of event is dropped.
    pub fn apply(&mut self, row: InputRow)
        ensures
            final(self)@ == old(self)@.apply(
                named_kind(row.transaction_type@),
                row.client_id,
                row.transaction_id,
                stated_amount(row.amount),
            ),
            old(self)@.wf() ==> final(self)@.wf(),
    {
        match parse_kind(row.transaction_type.as_str()) {
            Some(EventKind::Deposit) => self.deposit(row.client_id, row.transaction_id, row.amount),
            Some(EventKind::Withdrawal) => self.withdrawal(
                row.client_id,
                row.transaction_id,
                row.amount,
            ),
            Some(EventKind::Dispute) => self.dispute(row.client_id, row.transaction_id),
            Some(EventKind::Resolve) => self.resolve(row.client_id, row.transaction_id),
            Some(EventKind::Chargeback) => self.chargeback(row.client_id, row.transaction_id),
            None => {},
        }
    }
}

} // verus!
