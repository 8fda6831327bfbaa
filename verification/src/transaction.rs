//! One record of the input: its kind, the client and transaction it names,
//! and the amount it carries.

use crate::amount::Amount;
use crate::numeral::parse_u16;
use crate::numeral::parse_u32;
use crate::numeral::same_text;
use crate::numeral::u16_of_text;
use crate::numeral::u32_of_text;
use crate::record::record_field;
use crate::record::record_fields;
use crate::record::record_len;
use csv::StringRecord;
use vstd::std_specs::convert::FromSpecImpl;
use vstd::prelude::*;

verus! {

/// The kind of a transaction record.
#[derive(Clone, Copy, Debug, PartialEq, Eq, Structural)]
pub enum TransactionType {
    Deposit,
    Withdraw,
    Dispute,
    Resolve,
    Chargeback,
    Invalid,
}

/// A transaction record. Deposits and withdrawals carry an amount; disputes,
/// resolutions and chargebacks name an earlier record by `tr_id` instead.
#[derive(Clone, Copy, Debug)]
pub struct Transaction {
    pub tr_type: TransactionType,
    pub client_id: u16,
    pub tr_id: u32,
    pub amount: Option<Amount>,
}

impl TransactionType {
    /// The kind that a token names; `Invalid` for any other text.
    pub open spec fn of_token(s: Seq<char>) -> TransactionType {
        if s == "deposit"@ {
            TransactionType::Deposit
        } else if s == "withdrawal"@ {
            TransactionType::Withdraw
        } else if s == "dispute"@ {
            TransactionType::Dispute
        } else if s == "resolve"@ {
            TransactionType::Resolve
        } else if s == "chargeback"@ {
            TransactionType::Chargeback
        } else {
            TransactionType::Invalid
        }
    }
}

impl<'a> From<&'a str> for TransactionType {
    fn from(value: &'a str) -> (r: TransactionType) {
        if same_text(value, "deposit") {
            TransactionType::Deposit
        } else if same_text(value, "withdrawal") {
            TransactionType::Withdraw
        } else if same_text(value, "dispute") {
            TransactionType::Dispute
        } else if same_text(value, "resolve") {
            TransactionType::Resolve
        } else if same_text(value, "chargeback") {
            TransactionType::Chargeback
        } else {
            TransactionType::Invalid
        }
    }
}

impl<'a> FromSpecImpl<&'a str> for TransactionType {
    open spec fn obeys_from_spec() -> bool {
        true
    }

    open spec fn from_spec(value: &'a str) -> TransactionType {
        TransactionType::of_token(value@)
    }
}

impl Transaction {
    /// The record that four fields denote: the kind by its token, the client
    /// and transaction ids by their numerals, 0 where a field is no numeral
    /// or is out of range, and the amount where the field is there.
    pub open spec fn of_fields(
        kind: Seq<char>,
        client: Seq<char>,
        tx: Seq<char>,
        amount: Option<Seq<char>>,
    ) -> Transaction {
        Transaction {
            tr_type: TransactionType::of_token(kind),
            client_id: match u16_of_text(client) {
                Some(v) => v,
                None => 0,
            },
            tr_id: match u32_of_text(tx) {
                Some(v) => v,
                None => 0,
            },
            amount: match amount {
                Some(text) => Some(Amount::of_text(text)),
                None => None,
            },
        }
    }

    /// The record that a row denotes. A row needs its first three fields; it
    /// carries an amount where it has exactly four.
    pub open spec fn of_row(fields: Seq<Seq<char>>) -> Option<Transaction> {
        if fields.len() < 3 {
            None
        } else {
            Some(
                Transaction::of_fields(
                    fields[0],
                    fields[1],
                    fields[2],
                    if fields.len() == 4 {
                        Some(fields[3])
                    } else {
                        None
                    },
                ),
            )
        }
    }

    /// Reads a record from the texts of its fields.
    pub fn from_fields(kind: &str, client: &str, tx: &str, amount: Option<&str>) -> (r: Transaction)
        ensures
            r == Transaction::of_fields(
                kind@,
                client@,
                tx@,
                match amount {
                    Some(text) => Some(text@),
                    None => None,
                },
            ),
    {
        Transaction {
            tr_type: TransactionType::from(kind),
            client_id: match parse_u16(client) {
                Some(v) => v,
                None => 0,
            },
            tr_id: match parse_u32(tx) {
                Some(v) => v,
                None => 0,
            },
            amount: match amount {
                Some(text) => Some(Amount::from(text)),
                None => None,
            },
        }
    }

    /// Reads a record from a row; nothing where the row has fewer than three
    /// fields.
    pub fn from_record(rec: &StringRecord) -> (r: Option<Transaction>)
        ensures
            r == Transaction::of_row(record_fields(*rec)),
    {
        let n = record_len(rec);
        let kind = record_field(rec, 0);
        let client = record_field(rec, 1);
        let tx = record_field(rec, 2);
        let amount = if n == 4 {
            record_field(rec, 3)
        } else {
            None
        };
        match (kind, client, tx) {
            (Some(k), Some(c), Some(t)) => Some(Transaction::from_fields(k, c, t, amount)),
            _ => None,
        }
    }
}

} // verus!
