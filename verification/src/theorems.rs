//! What holds of every ledger: the laws that the transitions obey, each
//! proved from the definitions in `ledger` and `account`.

use crate::account::{lemma_account_ops_wf, AccountView};
use crate::amount::Money;
use crate::ledger::{Event, EventKind, Ledger, SnapshotView};
use vstd::prelude::*;

verus! {

/// The empty ledger is well formed, and every event leaves a well-formed
/// ledger well formed: no balance ever leaves the range, nothing negative is
/// ever held, and every recorded amount is positive.
pub proof fn lemma_apply_keeps_wf(
    ledger: Ledger,
    kind: Option<EventKind>,
    client_id: u64,
    transaction_id: u64,
    amount: Option<Money>,
)
    requires
        ledger.wf(),
        amount matches Some(a) ==> a.wf(),
    ensures
        Ledger::empty().wf(),
        ledger.apply(kind, client_id, transaction_id, amount).wf(),
{
    let account = ledger.account(client_id);
    if let Some(a) = amount {
        lemma_account_ops_wf(account, a);
    }
    if ledger.transactions.contains_key(transaction_id) {
        lemma_account_ops_wf(account, ledger.transactions[transaction_id].amount);
    }
}

/// The total of an account is exactly the sum of its available and its held
/// funds.
pub proof fn lemma_total_is_exact(account: AccountView)
    ensures
        account.total().units == account.available.units + account.held.units,
{
}

/// Every line of a report shows as total exactly the sum of the available
/// and the held funds it shows.
pub proof fn lemma_report_totals_are_exact(ledger: Ledger, rows: Seq<SnapshotView>, i: int)
    requires
        ledger.is_report(rows),
        0 <= i < rows.len(),
    ensures
        rows[i].total.units == rows[i].available.units + rows[i].held.units,
{
    assert(ledger.accounts.contains_key(rows[i].client_id));
}

/// A ledger has one report only.
pub proof fn lemma_report_is_unique(ledger: Ledger, first: Seq<SnapshotView>, second: Seq<SnapshotView>)
    requires
        ledger.is_report(first),
        ledger.is_report(second),
    ensures
        first == second,
{
    lemma_reports_agree(ledger, first, second, first.len() as int);
    lemma_reports_agree(ledger, second, first, second.len() as int);
    assert(first =~= second);
}

/// Two reports of one ledger agree on their first `n` lines.
proof fn lemma_reports_agree(ledger: Ledger, first: Seq<SnapshotView>, second: Seq<SnapshotView>, n: int)
    requires
        ledger.is_report(first),
        ledger.is_report(second),
        0 <= n <= first.len(),
    ensures
        n <= second.len(),
        forall|i: int| 0 <= i < n ==> first[i] == second[i],
    decreases n,
{
    if n > 0 {
        lemma_reports_agree(ledger, first, second, n - 1);
        let k = n - 1;
        let client_id = first[k].client_id;
        assert(ledger.accounts.contains_key(client_id));
        let j = choose|j: int| 0 <= j < second.len() && #[trigger] second[j].client_id == client_id;
        if j < k {
            assert(first[j] == second[j]);
        } else if j > k {
            let other = second[k].client_id;
            assert(ledger.accounts.contains_key(other));
            let m = choose|m: int| 0 <= m < first.len() && #[trigger] first[m].client_id == other;
            if m < k {
                assert(first[m] == second[m]);
            }
        }
    }
}

/// A deposit for a client without an account, under a fresh transaction id,
/// opens the account with exactly the amount available, nothing held, and
/// not locked, and records the deposit.
pub proof fn lemma_deposit_opens_account(
    ledger: Ledger,
    client_id: u64,
    transaction_id: u64,
    amount: Money,
)
    requires
        amount.wf(),
        amount.units > 0,
        !ledger.accounts.contains_key(client_id),
        !ledger.transactions.contains_key(transaction_id),
    ensures
        ({
            let after = ledger.deposit(client_id, transaction_id, amount);
            &&& after.accounts.contains_key(client_id)
            &&& after.accounts[client_id].available == amount
            &&& after.accounts[client_id].held == Money::zero()
            &&& !after.accounts[client_id].locked
            &&& after.transactions.contains_key(transaction_id)
            &&& after.transactions[transaction_id].amount == amount
        }),
{
}

/// A deposit into an account that is not locked, under a fresh transaction
/// id, adds exactly the amount to the available funds and leaves the held
/// funds alone, as long as the total stays in range.
pub proof fn lemma_deposit_adds(
    ledger: Ledger,
    client_id: u64,
    transaction_id: u64,
    amount: Money,
)
    requires
        amount.units > 0,
        !ledger.is_locked(client_id),
        !ledger.transactions.contains_key(transaction_id),
        ledger.account(client_id).deposit(amount) is Some,
    ensures
        ({
            let before = ledger.account(client_id);
            let after = ledger.deposit(client_id, transaction_id, amount).account(client_id);
            &&& after.available.units == before.available.units + amount.units
            &&& after.held == before.held
            &&& after.locked == before.locked
        }),
{
}

/// A dispute leaves the whole ledger unchanged where the transaction is
/// unknown, belongs to another client, is no deposit, or is disputed
/// already.
pub proof fn lemma_dispute_is_dropped(ledger: Ledger, client_id: u64, transaction_id: u64)
    requires
        !ledger.transactions.contains_key(transaction_id)
            || ledger.transactions[transaction_id].client_id != client_id
            || ledger.transactions[transaction_id].kind != crate::account::TransactionKind::Deposit
            || ledger.transactions[transaction_id].disputed,
    ensures
        ledger.dispute(client_id, transaction_id) == ledger,
{
}

/// A dispute that takes effect moves exactly the deposit's amount from the
/// available to the held funds: the total stays, and the available funds may
/// become negative.
pub proof fn lemma_dispute_holds_funds(ledger: Ledger, client_id: u64, transaction_id: u64)
    requires
        ledger.dispute(client_id, transaction_id) != ledger,
    ensures
        ({
            let amount = ledger.transactions[transaction_id].amount;
            let before = ledger.account(client_id);
            let after = ledger.dispute(client_id, transaction_id).account(client_id);
            &&& after.available.units == before.available.units - amount.units
            &&& after.held.units == before.held.units + amount.units
            &&& after.total().units == before.total().units
            &&& after.locked == before.locked
            &&& ledger.dispute(client_id, transaction_id).transactions[transaction_id].disputed
        }),
{
}

/// A dispute that takes effect, followed by its resolution, gives the client
/// back exactly the balances from before the dispute, and the deposit is
/// open to dispute again.
pub proof fn lemma_dispute_then_resolve(ledger: Ledger, client_id: u64, transaction_id: u64)
    requires
        ledger.wf(),
        ledger.dispute(client_id, transaction_id) != ledger,
    ensures
        ({
            let before = ledger.account(client_id);
            let after = ledger.dispute(client_id, transaction_id).resolve(
                client_id,
                transaction_id,
            );
            &&& after.account(client_id).available.units == before.available.units
            &&& after.account(client_id).held.units == before.held.units
            &&& after.account(client_id).locked == before.locked
            &&& after.transactions == ledger.transactions
        }),
{
    let disputed = ledger.dispute(client_id, transaction_id);
    let after = disputed.resolve(client_id, transaction_id);
    assert(after.transactions =~= ledger.transactions);
}

/// A dispute that takes effect, followed by its chargeback, locks the
/// account and takes the deposit's amount out of the ledger: the held funds
/// are back at what they were, and the available funds stay reduced by the
/// amount.
pub proof fn lemma_dispute_then_chargeback(ledger: Ledger, client_id: u64, transaction_id: u64)
    requires
        ledger.wf(),
        ledger.dispute(client_id, transaction_id) != ledger,
    ensures
        ({
            let amount = ledger.transactions[transaction_id].amount;
            let before = ledger.account(client_id);
            let after = ledger.dispute(client_id, transaction_id).chargeback(
                client_id,
                transaction_id,
            );
            &&& after.is_locked(client_id)
            &&& after.account(client_id).held.units == before.held.units
            &&& after.account(client_id).available.units == before.available.units
                - amount.units
            &&& after.account(client_id).total().units == before.total().units - amount.units
        }),
{
}

/// Once a client's account is locked, no event of any kind, for any client
/// and any transaction, changes the account or unlocks it.
pub proof fn lemma_locked_account_is_inert(
    ledger: Ledger,
    locked_client: u64,
    kind: Option<EventKind>,
    client_id: u64,
    transaction_id: u64,
    amount: Option<Money>,
)
    requires
        ledger.is_locked(locked_client),
    ensures
        ({
            let after = ledger.apply(kind, client_id, transaction_id, amount);
            &&& after.accounts.contains_key(locked_client)
            &&& after.accounts[locked_client] == ledger.accounts[locked_client]
            &&& after.is_locked(locked_client)
        }),
{
}

/// An event for a client whose account is locked leaves the whole ledger
/// unchanged.
pub proof fn lemma_event_on_locked_account_is_dropped(
    ledger: Ledger,
    kind: Option<EventKind>,
    client_id: u64,
    transaction_id: u64,
    amount: Option<Money>,
)
    requires
        ledger.is_locked(client_id),
    ensures
        ledger.apply(kind, client_id, transaction_id, amount) == ledger,
{
}

/// An event changes no account but that of its own client.
pub proof fn lemma_event_touches_one_account(
    ledger: Ledger,
    other_client: u64,
    kind: Option<EventKind>,
    client_id: u64,
    transaction_id: u64,
    amount: Option<Money>,
)
    requires
        other_client != client_id,
    ensures
        ledger.apply(kind, client_id, transaction_id, amount).account(other_client)
            == ledger.account(other_client),
        ledger.apply(kind, client_id, transaction_id, amount).accounts.contains_key(other_client)
            == ledger.accounts.contains_key(other_client),
{
}

/// A deposit or withdrawal under a transaction id that is in use, for the
/// same client or another, leaves the whole ledger unchanged: no balance
/// moves and the recorded transaction stays as it is.
pub proof fn lemma_used_transaction_id_is_dropped(
    ledger: Ledger,
    client_id: u64,
    transaction_id: u64,
    amount: Money,
)
    requires
        ledger.transactions.contains_key(transaction_id),
    ensures
        ledger.deposit(client_id, transaction_id, amount) == ledger,
        ledger.withdrawal(client_id, transaction_id, amount) == ledger,
{
}

/// A withdrawal of more than is available leaves the whole ledger unchanged:
/// no balance moves and no transaction is recorded.
pub proof fn lemma_overdraft_is_dropped(
    ledger: Ledger,
    client_id: u64,
    transaction_id: u64,
    amount: Money,
)
    requires
        amount.units > ledger.account(client_id).available.units,
    ensures
        ledger.withdrawal(client_id, transaction_id, amount) == ledger,
{
}

/// A withdrawal that the available funds cover, from an account that is not
/// locked and under a fresh transaction id, takes exactly the amount from
/// the available funds.
pub proof fn lemma_withdrawal_subtracts(
    ledger: Ledger,
    client_id: u64,
    transaction_id: u64,
    amount: Money,
)
    requires
        0 < amount.units <= ledger.account(client_id).available.units,
        !ledger.is_locked(client_id),
        !ledger.transactions.contains_key(transaction_id),
    ensures
        ({
            let before = ledger.account(client_id);
            let after = ledger.withdrawal(client_id, transaction_id, amount).account(client_id);
            &&& after.available.units == before.available.units - amount.units
            &&& after.held == before.held
            &&& after.locked == before.locked
        }),
{
}

/// Only a chargeback locks an account: after any other event, each account
/// is locked only if it was locked before.
pub proof fn lemma_only_chargeback_locks(
    ledger: Ledger,
    kind: Option<EventKind>,
    client_id: u64,
    transaction_id: u64,
    amount: Option<Money>,
    any_client: u64,
)
    requires
        kind != Some(EventKind::Chargeback),
    ensures
        ledger.apply(kind, client_id, transaction_id, amount).is_locked(any_client)
            == ledger.is_locked(any_client),
{
}

/// No event removes an account or a recorded transaction.
pub proof fn lemma_nothing_is_forgotten(
    ledger: Ledger,
    kind: Option<EventKind>,
    client_id: u64,
    transaction_id: u64,
    amount: Option<Money>,
)
    ensures
        ledger.accounts.dom().subset_of(
            ledger.apply(kind, client_id, transaction_id, amount).accounts.dom(),
        ),
        ledger.transactions.dom().subset_of(
            ledger.apply(kind, client_id, transaction_id, amount).transactions.dom(),
        ),
{
}

/// Whatever events a ledger takes, starting empty or from any well-formed
/// state, it stays well formed: at all times every balance is in range,
/// nothing negative is held, and every recorded amount is positive.
pub proof fn lemma_replay_keeps_wf(ledger: Ledger, events: Seq<Event>)
    requires
        ledger.wf(),
        forall|i: int| 0 <= i < events.len() ==> (#[trigger] events[i]).wf(),
    ensures
        ledger.replay(events).wf(),
    decreases events.len(),
{
    if events.len() > 0 {
        let earlier = events.drop_last();
        let last = events.last();
        assert forall|i: int| 0 <= i < earlier.len() implies (#[trigger] earlier[i]).wf() by {
            assert(earlier[i] == events[i]);
        }
        lemma_replay_keeps_wf(ledger, earlier);
        assert(last.wf());
        lemma_apply_keeps_wf(
            ledger.replay(earlier),
            last.kind,
            last.client_id,
            last.transaction_id,
            last.amount,
        );
    }
}

/// Once a client's account is locked, it stays exactly as it is whatever
/// events follow.
pub proof fn lemma_locked_account_stays(ledger: Ledger, locked_client: u64, events: Seq<Event>)
    requires
        ledger.is_locked(locked_client),
    ensures
        ledger.replay(events).accounts.contains_key(locked_client),
        ledger.replay(events).accounts[locked_client] == ledger.accounts[locked_client],
        ledger.replay(events).is_locked(locked_client),
    decreases events.len(),
{
    if events.len() > 0 {
        let earlier = events.drop_last();
        let last = events.last();
        lemma_locked_account_stays(ledger, locked_client, earlier);
        lemma_locked_account_is_inert(
            ledger.replay(earlier),
            locked_client,
            last.kind,
            last.client_id,
            last.transaction_id,
            last.amount,
        );
    }
}

/// A transaction, once recorded, keeps its client, its kind and its amount
/// whatever events follow; only its dispute flag may change.
pub proof fn lemma_recorded_transaction_stays(
    ledger: Ledger,
    recorded: u64,
    events: Seq<Event>,
)
    requires
        ledger.transactions.contains_key(recorded),
    ensures
        ledger.replay(events).transactions.contains_key(recorded),
        ledger.replay(events).transactions[recorded].client_id
            == ledger.transactions[recorded].client_id,
        ledger.replay(events).transactions[recorded].kind == ledger.transactions[recorded].kind,
        ledger.replay(events).transactions[recorded].amount
            == ledger.transactions[recorded].amount,
    decreases events.len(),
{
    if events.len() > 0 {
        lemma_recorded_transaction_stays(ledger, recorded, events.drop_last());
    }
}

} // verus!
