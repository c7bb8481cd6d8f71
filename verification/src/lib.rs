//! A ledger that replays deposits, withdrawals, disputes, resolutions and
//! chargebacks against client accounts, with every balance rule proved.
//!
//! `ledger` states the rules as a mathematical state machine, `theorems`
//! proves what follows from them, and `engine` is the executable ledger that
//! is proved to follow the state machine step by step.

pub mod account;
pub mod amount;
pub mod decimal;
pub mod engine;
pub mod event;
pub mod ledger;
pub mod report;
pub mod text;
pub mod theorems;

pub use account::{Account, Transaction, TransactionKind};
pub use amount::{amount_from_decimal, parse_amount, Amount, ParseError};
pub use decimal::display_text;
pub use engine::Engine;
pub use event::{parse_kind, InputRow};
pub use ledger::EventKind;
pub use report::{AccountSnapshot, ReportRow};
