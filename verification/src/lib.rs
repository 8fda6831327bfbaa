//! A batch ledger: an ordered list of client transactions is replayed into
//! the final state of every client account.

pub mod account;
pub mod amount;
pub mod engine;
pub mod guarantees;
pub mod numeral;
pub mod record;
pub mod search;
pub mod transaction;
