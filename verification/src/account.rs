//! Client accounts and the transactions recorded against them.

use crate::amount::{lemma_sum_wf, Amount, Money, MAX_UNITS};
use vstd::prelude::*;

verus! {

/// The mathematical value of an account.
pub struct AccountView {
    /// Funds the client may withdraw or have disputed.
    pub available: Money,
    /// Funds set aside while a dispute is open.
    pub held: Money,
    /// Whether a chargeback has frozen the account.
    pub locked: bool,
}

impl AccountView {
    /// An account is well formed if both balances are, nothing negative is
    /// held, and the total does not exceed `MAX_UNITS`.
    pub open spec fn wf(self) -> bool {
        &&& self.available.wf()
        &&& self.held.wf()
        &&& self.held.units >= 0
        &&& self.available.units + self.held.units <= MAX_UNITS
    }

    /// The account of a client of whom nothing is known yet.
    pub open spec fn fresh() -> AccountView {
        AccountView { available: Money::zero(), held: Money::zero(), locked: false }
    }

    /// Available and held funds together.
    pub open spec fn total(self) -> Money {
        self.available.plus(self.held)
    }

    /// The account after `amount` is paid in, or `None` where the account is
    /// locked, the amount is not positive, or the total would exceed
    /// `MAX_UNITS`.
    pub open spec fn deposit(self, amount: Money) -> Option<AccountView> {
        if self.locked || amount.units <= 0 || self.total().units + amount.units > MAX_UNITS {
            None
        } else {
            Some(AccountView { available: self.available.plus(amount), ..self })
        }
    }

    /// The account after `amount` is paid out, or `None` where the account
    /// is locked, the amount is not positive, or less than `amount` is
    /// available.
    pub open spec fn withdraw(self, amount: Money) -> Option<AccountView> {
        if self.locked || amount.units <= 0 || self.available.units < amount.units {
            None
        } else {
            Some(AccountView { available: self.available.minus(amount), ..self })
        }
    }

    /// The account after `amount` is moved from available to held, or `None`
    /// where the account is locked, the amount is not positive, or a balance
    /// would leave the range. The available funds may become negative.
    pub open spec fn hold(self, amount: Money) -> Option<AccountView> {
        if self.locked || amount.units <= 0 || !self.available.minus(amount).in_range()
            || !self.held.plus(amount).in_range() {
            None
        } else {
            Some(
                AccountView {
                    available: self.available.minus(amount),
                    held: self.held.plus(amount),
                    ..self
                },
            )
        }
    }

    /// The account after `amount` is moved back from held to available, or
    /// `None` where the account is locked, the amount is not positive, or
    /// less than `amount` is held.
    pub open spec fn release(self, amount: Money) -> Option<AccountView> {
        if self.locked || amount.units <= 0 || self.held.units < amount.units {
            None
        } else {
            Some(
                AccountView {
                    available: self.available.plus(amount),
                    held: self.held.minus(amount),
                    ..self
                },
            )
        }
    }

    /// The account after `amount` is taken out of the held funds for good and
    /// the account is locked, or `None` where the account is locked already,
    /// the amount is not positive, or less than `amount` is held.
    pub open spec fn charge_back(self, amount: Money) -> Option<AccountView> {
        if self.locked || amount.units <= 0 || self.held.units < amount.units {
            None
        } else {
            Some(AccountView { held: self.held.minus(amount), locked: true, ..self })
        }
    }
}

/// Each operation on a well-formed account with a well-formed amount gives a
/// well-formed account.
pub proof fn lemma_account_ops_wf(account: AccountView, amount: Money)
    requires
        account.wf(),
        amount.wf(),
    ensures
        account.total().wf(),
        account.deposit(amount) matches Some(a) ==> a.wf(),
        account.withdraw(amount) matches Some(a) ==> a.wf(),
        account.hold(amount) matches Some(a) ==> a.wf(),
        account.release(amount) matches Some(a) ==> a.wf(),
        account.charge_back(amount) matches Some(a) ==> a.wf(),
{
    lemma_sum_wf(account.available, account.held);
    lemma_sum_wf(account.available, amount);
    lemma_sum_wf(account.held, amount);
}

/// A client's account.
#[derive(Debug, Clone, Copy)]
pub struct Account {
    available: Amount,
    held: Amount,
    locked: bool,
}

impl View for Account {
    type V = AccountView;

    closed spec fn view(&self) -> AccountView {
        AccountView { available: self.available@, held: self.held@, locked: self.locked }
    }
}

impl Default for Account {
    /// The account of a client of whom nothing is known yet.
    fn default() -> (r: Account)
        ensures
            r@ == AccountView::fresh(),
    {
        Account::new()
    }
}

impl Account {
    /// Every account is well formed.
    #[verifier::type_invariant]
    pub open spec fn well_formed(self) -> bool {
        self@.wf()
    }

    /// The account of a client of whom nothing is known yet: no funds, not
    /// locked.
    pub fn new() -> (r: Account)
        ensures
            r@ == AccountView::fresh(),
    {
        Account { available: Amount::zero(), held: Amount::zero(), locked: false }
    }

    /// Funds the client may withdraw or have disputed.
    pub fn available(&self) -> (r: Amount)
        ensures
            r@ == self@.available,
    {
        self.available
    }

    /// Funds set aside while a dispute is open.
    pub fn held(&self) -> (r: Amount)
        ensures
            r@ == self@.held,
    {
        self.held
    }

    /// Whether a chargeback has frozen the account.
    pub fn locked(&self) -> (r: bool)
        ensures
            r == self@.locked,
    {
        self.locked
    }

    /// Available and held funds together: exactly their sum.
    pub fn total(&self) -> (r: Amount)
        ensures
            r@ == self@.total(),
            r@.units == self@.available.units + self@.held.units,
    {
        proof {
            use_type_invariant(self);
        }
        let sum = self.available.checked_plus(&self.held);
        sum.unwrap()
    }

    /// Pays `amount` in.
    pub fn deposit(&self, amount: &Amount) -> (r: Option<Account>)
        ensures
            r is Some <==> self@.deposit(amount@) is Some,
            r matches Some(a) ==> self@.deposit(amount@) == Some(a@),
    {
        proof {
            use_type_invariant(self);
            use_type_invariant(amount);
            lemma_account_ops_wf(self@, amount@);
        }
        if self.locked || amount.units() <= 0 {
            return None;
        }
        if self.total().units() + amount.units() > MAX_UNITS {
            return None;
        }
        match self.available.checked_plus(amount) {
            Some(available) => Some(Account { available, held: self.held, locked: self.locked }),
            None => None,
        }
    }

    /// Pays `amount` out.
    pub fn withdraw(&self, amount: &Amount) -> (r: Option<Account>)
        ensures
            r is Some <==> self@.withdraw(amount@) is Some,
            r matches Some(a) ==> self@.withdraw(amount@) == Some(a@),
    {
        proof {
            use_type_invariant(self);
            use_type_invariant(amount);
            lemma_account_ops_wf(self@, amount@);
        }
        if self.locked || amount.units() <= 0 || self.available.less_than(amount) {
            return None;
        }
        match self.available.checked_minus(amount) {
            Some(available) => Some(Account { available, held: self.held, locked: self.locked }),
            None => None,
        }
    }

    /// Moves `amount` from available to held.
    pub fn hold(&self, amount: &Amount) -> (r: Option<Account>)
        ensures
            r is Some <==> self@.hold(amount@) is Some,
            r matches Some(a) ==> self@.hold(amount@) == Some(a@),
    {
        proof {
            use_type_invariant(self);
            use_type_invariant(amount);
            lemma_account_ops_wf(self@, amount@);
        }
        if self.locked || amount.units() <= 0 {
            return None;
        }
        match (self.available.checked_minus(amount), self.held.checked_plus(amount)) {
            (Some(available), Some(held)) => Some(Account { available, held, locked: self.locked }),
            _ => None,
        }
    }

    /// Moves `amount` back from held to available.
    pub fn release(&self, amount: &Amount) -> (r: Option<Account>)
        ensures
            r is Some <==> self@.release(amount@) is Some,
            r matches Some(a) ==> self@.release(amount@) == Some(a@),
    {
        proof {
            use_type_invariant(self);
            use_type_invariant(amount);
            lemma_account_ops_wf(self@, amount@);
        }
        if self.locked || amount.units() <= 0 || self.held.less_than(amount) {
            return None;
        }
        match (self.available.checked_plus(amount), self.held.checked_minus(amount)) {
            (Some(available), Some(held)) => Some(Account { available, held, locked: self.locked }),
            _ => None,
        }
    }

    /// Takes `amount` out of the held funds for good and locks the account.
    pub fn charge_back(&self, amount: &Amount) -> (r: Option<Account>)
        ensures
            r is Some <==> self@.charge_back(amount@) is Some,
            r matches Some(a) ==> self@.charge_back(amount@) == Some(a@),
    {
        proof {
            use_type_invariant(self);
            use_type_invariant(amount);
            lemma_account_ops_wf(self@, amount@);
        }
        if self.locked || amount.units() <= 0 || self.held.less_than(amount) {
            return None;
        }
        match self.held.checked_minus(amount) {
            Some(held) => Some(Account { available: self.available, held, locked: true }),
            None => None,
        }
    }
}

/// What a recorded transaction did.
#[derive(Debug, Clone, Copy, PartialEq, Eq, Structural)]
pub enum TransactionKind {
    /// Funds were paid in.
    Deposit,
    /// Funds were paid out.
    Withdrawal,
}

/// The mathematical value of a recorded transaction.
pub struct TransactionView {
    /// The client that owns the transaction.
    pub client_id: u64,
    /// What the transaction did.
    pub kind: TransactionKind,
    /// The amount paid in or out.
    pub amount: Money,
    /// Whether a dispute of the transaction is open.
    pub disputed: bool,
}

impl TransactionView {
    /// A transaction is well formed if its amount is well formed and
    /// positive.
    pub open spec fn wf(self) -> bool {
        self.amount.wf() && self.amount.units > 0
    }
}

/// A deposit or withdrawal that the ledger accepted.
#[derive(Debug, Clone, Copy)]
pub struct Transaction {
    client_id: u64,
    kind: TransactionKind,
    amount: Amount,
    disputed: bool,
}

impl View for Transaction {
    type V = TransactionView;

    closed spec fn view(&self) -> TransactionView {
        TransactionView {
            client_id: self.client_id,
            kind: self.kind,
            amount: self.amount@,
            disputed: self.disputed,
        }
    }
}

impl Transaction {
    /// Every recorded transaction is well formed.
    #[verifier::type_invariant]
    pub open spec fn well_formed(self) -> bool {
        self@.wf()
    }

    /// Records a transaction of `amount` for `client_id`, not disputed.
    pub fn new(client_id: u64, kind: TransactionKind, amount: Amount) -> (r: Transaction)
        requires
            amount@.units > 0,
        ensures
            r@ == (TransactionView { client_id, kind, amount: amount@, disputed: false }),
    {
        proof {
            use_type_invariant(&amount);
        }
        Transaction { client_id, kind, amount, disputed: false }
    }

    /// The client that owns the transaction.
    pub fn client_id(&self) -> (r: u64)
        ensures
            r == self@.client_id,
    {
        self.client_id
    }

    /// What the transaction did.
    pub fn kind(&self) -> (r: TransactionKind)
        ensures
            r == self@.kind,
    {
        self.kind
    }

    /// The amount paid in or out; it is positive.
    pub fn amount(&self) -> (r: Amount)
        ensures
            r@ == self@.amount,
            r@.units > 0,
    {
        proof {
            use_type_invariant(self);
        }
        self.amount
    }

    /// Whether a dispute of the transaction is open.
    pub fn disputed(&self) -> (r: bool)
        ensures
            r == self@.disputed,
    {
        self.disputed
    }

    /// The same transaction with its dispute flag set to `disputed`.
    pub fn with_disputed(&self, disputed: bool) -> (r: Transaction)
        ensures
            r@ == (TransactionView { disputed, ..self@ }),
    {
        proof {
            use_type_invariant(self);
        }
        Transaction { client_id: self.client_id, kind: self.kind, amount: self.amount, disputed }
    }
}

} // verus!
