//! The replay: every record, in input order, is applied to the account of its
//! client. Disputes, resolutions and chargebacks look the record they name up
//! among the records that came before.

use crate::account::AccountStatus;
use crate::amount::Amount;
use crate::guarantees::lemma_replay_clients_distinct;
use crate::search::first_index;
use crate::search::lemma_first_index;
use crate::transaction::Transaction;
use crate::transaction::TransactionType;
use vstd::prelude::*;

verus! {

/// What the replay has to report about one record.
#[derive(Clone, Copy, Debug, PartialEq, Eq, Structural)]
pub enum Diagnostic {
    /// Nothing to report.
    Clean,
    /// The record's kind was not recognised; the record changed nothing.
    InvalidKind,
    /// A deposit or withdrawal on an open account carried no amount; the
    /// record was skipped.
    MissingAmount,
}

/// The state of the replay as mathematics: the accounts in the order in which
/// their clients were first seen, and the transaction ids under dispute.
pub struct Books {
    pub accounts: Seq<AccountStatus>,
    pub disputes: Seq<u32>,
}

/// The state of the replay.
pub struct Ledger {
    pub accounts: Vec<AccountStatus>,
    pub disputes: Vec<u32>,
}

impl View for Ledger {
    type V = Books;

    open spec fn view(&self) -> Books {
        Books { accounts: self.accounts@, disputes: self.disputes@ }
    }
}

/// What `process_transactions` returns: the final accounts, in the order in
/// which their clients were first seen, and one diagnostic per input record.
pub struct Outcome {
    pub accounts: Vec<AccountStatus>,
    pub diagnostics: Vec<Diagnostic>,
}

/// The position of the account of client `id`, if it has one.
pub open spec fn account_index(accounts: Seq<AccountStatus>, id: u16) -> Option<int> {
    first_index(accounts, |a: AccountStatus| a.client_id == id)
}

/// The position of the first record with transaction id `id`, if there is one.
pub open spec fn transaction_index(history: Seq<Transaction>, id: u32) -> Option<int> {
    first_index(history, |t: Transaction| t.tr_id == id)
}

/// The amount of the first record in `history` with transaction id `id`;
/// nothing where there is no such record or it carries no amount.
pub open spec fn referenced_amount(history: Seq<Transaction>, id: u32) -> Option<Amount> {
    match transaction_index(history, id) {
        Some(i) => history[i].amount,
        None => None,
    }
}

/// The dispute list with every occurrence of `id` taken out.
pub open spec fn without(disputes: Seq<u32>, id: u32) -> Seq<u32> {
    disputes.filter(|e: u32| e != id)
}

/// The accounts with one opened for client `id` at the end, unless the client
/// has one already.
pub open spec fn with_account(accounts: Seq<AccountStatus>, id: u16) -> Seq<AccountStatus> {
    if account_index(accounts, id) is Some {
        accounts
    } else {
        accounts.push(AccountStatus::opened(id))
    }
}

/// The position of client `id`'s account in `with_account(accounts, id)`.
pub open spec fn account_slot(accounts: Seq<AccountStatus>, id: u16) -> int {
    match account_index(accounts, id) {
        Some(i) => i,
        None => accounts.len() as int,
    }
}

/// True where no two accounts belong to the same client.
pub open spec fn distinct_clients(accounts: Seq<AccountStatus>) -> bool {
    forall|i: int, j: int|
        0 <= i < j < accounts.len() ==> (#[trigger] accounts[i]).client_id != (
        #[trigger] accounts[j]).client_id
}

/// What a record does to the account of its client and to the dispute list.
/// `referenced` is the amount of the earlier record that a dispute, resolution
/// or chargeback names. A locked account is never changed.
pub open spec fn settle(
    account: AccountStatus,
    disputes: Seq<u32>,
    tr: Transaction,
    referenced: Option<Amount>,
) -> (AccountStatus, Seq<u32>) {
    if account.locked {
        (account, disputes)
    } else {
        match tr.tr_type {
            TransactionType::Deposit => match tr.amount {
                Some(m) => (
                    AccountStatus { available: account.available.plus(m), ..account },
                    disputes,
                ),
                None => (account, disputes),
            },
            TransactionType::Withdraw => match tr.amount {
                Some(m) => if account.available.minus(m).non_negative() {
                    (AccountStatus { available: account.available.minus(m), ..account }, disputes)
                } else {
                    (account, disputes)
                },
                None => (account, disputes),
            },
            TransactionType::Dispute => match referenced {
                Some(m) => (
                    AccountStatus {
                        available: account.available.minus(m),
                        held: account.held.plus(m),
                        ..account
                    },
                    disputes.push(tr.tr_id),
                ),
                None => (account, disputes),
            },
            TransactionType::Resolve => match referenced {
                Some(m) => if disputes.contains(tr.tr_id) {
                    (
                        AccountStatus {
                            available: account.available.plus(m),
                            held: account.held.minus(m),
                            ..account
                        },
                        without(disputes, tr.tr_id),
                    )
                } else {
                    (account, disputes)
                },
                None => (account, disputes),
            },
            TransactionType::Chargeback => match referenced {
                Some(m) => if disputes.contains(tr.tr_id) {
                    (
                        AccountStatus { held: account.held.minus(m), locked: true, ..account },
                        without(disputes, tr.tr_id),
                    )
                } else {
                    (account, disputes)
                },
                None => (account, disputes),
            },
            TransactionType::Invalid => (account, disputes),
        }
    }
}

/// What is reported about a record that meets `account`.
pub open spec fn diagnose(account: AccountStatus, tr: Transaction) -> Diagnostic {
    match tr.tr_type {
        TransactionType::Invalid => Diagnostic::InvalidKind,
        TransactionType::Deposit | TransactionType::Withdraw => if !account.locked
            && tr.amount is None {
            Diagnostic::MissingAmount
        } else {
            Diagnostic::Clean
        },
        _ => Diagnostic::Clean,
    }
}

impl Books {
    /// The state before any record: no accounts, no disputes.
    pub open spec fn empty() -> Books {
        Books { accounts: Seq::empty(), disputes: Seq::empty() }
    }

    /// The state after record `tr`, where `referenced` is the amount of the
    /// earlier record that `tr` names: the client's account is opened if need
    /// be, and the record is settled on it.
    pub open spec fn advance(self, tr: Transaction, referenced: Option<Amount>) -> Books {
        let accounts = with_account(self.accounts, tr.client_id);
        let k = account_slot(self.accounts, tr.client_id);
        let settled = settle(accounts[k], self.disputes, tr, referenced);
        Books { accounts: accounts.update(k, settled.0), disputes: settled.1 }
    }

    /// The state after record `tr`, which follows the records of `history`.
    pub open spec fn step(self, history: Seq<Transaction>, tr: Transaction) -> Books {
        self.advance(tr, referenced_amount(history, tr.tr_id))
    }

    /// What is reported about record `tr` when it meets this state.
    pub open spec fn notice(self, tr: Transaction) -> Diagnostic {
        diagnose(
            with_account(self.accounts, tr.client_id)[account_slot(self.accounts, tr.client_id)],
            tr,
        )
    }
}

/// The state after all of `trs` have been applied in order, each with the
/// records before it as its history.
pub open spec fn replay(trs: Seq<Transaction>) -> Books
    decreases trs.len(),
{
    if trs.len() == 0 {
        Books::empty()
    } else {
        replay(trs.drop_last()).step(trs.drop_last(), trs.last())
    }
}

/// Finds the account of client `id`: the first position that holds it.
pub fn handle_account(id: u16, statuses: &Vec<AccountStatus>) -> (r: Option<usize>)
    ensures
        match r {
            Some(i) => i < statuses@.len() && account_index(statuses@, id) == Some(i as int),
            None => account_index(statuses@, id) is None,
        },
{
    let mut i: usize = 0;
    while i < statuses.len()
        invariant
            i <= statuses.len(),
            forall|j: int| 0 <= j < i ==> (#[trigger] statuses@[j]).client_id != id,
        decreases statuses.len() - i,
    {
        if statuses[i].client_id == id {
            proof {
                lemma_first_index(statuses@, |a: AccountStatus| a.client_id == id);
            }
            return Some(i);
        }
        i += 1;
    }
    proof {
        lemma_first_index(statuses@, |a: AccountStatus| a.client_id == id);
    }
    None
}

/// Finds the first of the first `upto` records that has transaction id
/// `tr_id`.
pub fn find_transaction(tr_id: u32, transactions: &Vec<Transaction>, upto: usize) -> (r: Option<
    usize,
>)
    requires
        upto <= transactions.len(),
    ensures
        match r {
            Some(i) => i < upto && transaction_index(transactions@.take(upto as int), tr_id)
                == Some(i as int),
            None => transaction_index(transactions@.take(upto as int), tr_id) is None,
        },
{
    let ghost history = transactions@.take(upto as int);
    let mut i: usize = 0;
    while i < upto
        invariant
            i <= upto <= transactions.len(),
            history == transactions@.take(upto as int),
            forall|j: int| 0 <= j < i ==> (#[trigger] history[j]).tr_id != tr_id,
        decreases upto - i,
    {
        if transactions[i].tr_id == tr_id {
            proof {
                assert(history[i as int] == transactions@[i as int]);
                lemma_first_index(history, |t: Transaction| t.tr_id == tr_id);
            }
            return Some(i);
        }
        assert(history[i as int] == transactions@[i as int]);
        i += 1;
    }
    proof {
        lemma_first_index(history, |t: Transaction| t.tr_id == tr_id);
    }
    None
}

/// Finds the first record that has transaction id `tr_id`.
pub fn get_transaction_with_id<'a>(tr_id: u32, transactions: &'a Vec<Transaction>) -> (r: Option<
    &'a Transaction,
>)
    ensures
        match r {
            Some(t) => match transaction_index(transactions@, tr_id) {
                Some(i) => 0 <= i < transactions@.len() && *t == transactions@[i],
                None => false,
            },
            None => transaction_index(transactions@, tr_id) is None,
        },
{
    assert(transactions@.take(transactions@.len() as int) == transactions@);
    match find_transaction(tr_id, transactions, transactions.len()) {
        Some(i) => Some(&transactions[i]),
        None => None,
    }
}

/// Tells whether transaction `id` is under dispute.
pub fn is_disputed_transaction(id: u32, dis: &Vec<u32>) -> (r: bool)
    ensures
        r == dis@.contains(id),
{
    let mut i: usize = 0;
    while i < dis.len()
        invariant
            i <= dis.len(),
            forall|j: int| 0 <= j < i ==> dis@[j] != id,
        decreases dis.len() - i,
    {
        if dis[i] == id {
            return true;
        }
        i += 1;
    }
    false
}

/// Takes transaction `id` out of the dispute list, wherever it occurs; the
/// other ids keep their order.
pub fn remove_dispute(id: u32, dis: &mut Vec<u32>)
    ensures
        final(dis)@ == without(old(dis)@, id),
{
    let mut kept: Vec<u32> = Vec::new();
    let mut i: usize = 0;
    proof {
        reveal(Seq::filter);
        assert(dis@.take(0) == Seq::<u32>::empty());
    }
    while i < dis.len()
        invariant
            i <= dis.len(),
            dis@ == old(dis)@,
            kept@ == without(dis@.take(i as int), id),
        decreases dis.len() - i,
    {
        proof {
            reveal(Seq::filter);
            assert(dis@.take(i + 1).drop_last() == dis@.take(i as int));
            assert(dis@.take(i + 1).last() == dis@[i as int]);
        }
        if dis[i] != id {
            kept.push(dis[i]);
        }
        i += 1;
    }
    assert(dis@.take(dis@.len() as int) == dis@);
    *dis = kept;
}

/// Settles one record on an account: returns the account as the record leaves
/// it and what there is to report, and updates the dispute list.
pub fn settle_account(
    account: AccountStatus,
    disputes: &mut Vec<u32>,
    tr: &Transaction,
    referenced: Option<Amount>,
) -> (r: (AccountStatus, Diagnostic))
    ensures
        (r.0, final(disputes)@) == settle(account, old(disputes)@, *tr, referenced),
        r.1 == diagnose(account, *tr),
{
    let mut next = account;
    let mut report = Diagnostic::Clean;
    match tr.tr_type {
        TransactionType::Deposit => {
            if !account.locked {
                match tr.amount {
                    Some(m) => {
                        next.available = account.available + m;
                    },
                    None => {
                        report = Diagnostic::MissingAmount;
                    },
                }
            }
        },
        TransactionType::Withdraw => {
            if !account.locked {
                match tr.amount {
                    Some(m) => {
                        let rest = account.available - m;
                        if rest >= Amount::default() {
                            next.available = rest;
                        }
                    },
                    None => {
                        report = Diagnostic::MissingAmount;
                    },
                }
            }
        },
        TransactionType::Dispute => {
            if !account.locked {
                if let Some(m) = referenced {
                    disputes.push(tr.tr_id);
                    next.available = account.available - m;
                    next.held = account.held + m;
                }
            }
        },
        TransactionType::Resolve => {
            if !account.locked {
                if let Some(m) = referenced {
                    if is_disputed_transaction(tr.tr_id, disputes) {
                        next.available = account.available + m;
                        next.held = account.held - m;
                        remove_dispute(tr.tr_id, disputes);
                    }
                }
            }
        },
        TransactionType::Chargeback => {
            if !account.locked {
                if let Some(m) = referenced {
                    if is_disputed_transaction(tr.tr_id, disputes) {
                        next.held = account.held - m;
                        next.locked = true;
                        remove_dispute(tr.tr_id, disputes);
                    }
                }
            }
        },
        TransactionType::Invalid => {
            report = Diagnostic::InvalidKind;
        },
    }
    (next, report)
}

impl Ledger {
    /// A ledger with no accounts and no disputes.
    pub fn new() -> (r: Ledger)
        ensures
            r@ == Books::empty(),
    {
        Ledger { accounts: Vec::new(), disputes: Vec::new() }
    }

    /// Applies one record: opens the account of its client if it has none, and
    /// settles the record on it. `referenced` is the amount of the earlier
    /// record that the record names.
    pub fn apply(&mut self, tr: &Transaction, referenced: Option<Amount>) -> (d: Diagnostic)
        ensures
            final(self)@ == old(self)@.advance(*tr, referenced),
            d == old(self)@.notice(*tr),
    {
        let k: usize = match handle_account(tr.client_id, &self.accounts) {
            Some(i) => i,
            None => {
                self.accounts.push(AccountStatus::new(tr.client_id));
                self.accounts.len() - 1
            },
        };
        proof {
            lemma_first_index(old(self)@.accounts, |a: AccountStatus| a.client_id == tr.client_id);
        }
        let (next, report) = settle_account(self.accounts[k], &mut self.disputes, tr, referenced);
        self.accounts.set(k, next);
        report
    }
}

/// Replays the records in order and returns the final accounts, in the order
/// in which their clients were first seen, with one diagnostic per record.
pub fn process_transactions(trs: &Vec<Transaction>) -> (r: Outcome)
    ensures
        r.accounts@ == replay(trs@).accounts,
        distinct_clients(r.accounts@),
        r.diagnostics@.len() == trs@.len(),
        forall|i: int|
            0 <= i < trs@.len() ==> #[trigger] r.diagnostics@[i] == replay(trs@.take(i)).notice(
                trs@[i],
            ),
{
    let mut ledger = Ledger::new();
    let mut diagnostics: Vec<Diagnostic> = Vec::new();
    let mut i: usize = 0;
    assert(trs@.take(0) == Seq::<Transaction>::empty());
    while i < trs.len()
        invariant
            i <= trs.len(),
            ledger@ == replay(trs@.take(i as int)),
            diagnostics@.len() == i,
            forall|j: int|
                0 <= j < i ==> #[trigger] diagnostics@[j] == replay(trs@.take(j)).notice(trs@[j]),
        decreases trs.len() - i,
    {
        let tr = &trs[i];
        let referenced = match tr.tr_type {
            TransactionType::Dispute | TransactionType::Resolve | TransactionType::Chargeback => {
                match find_transaction(tr.tr_id, trs, i) {
                    Some(at) => trs[at].amount,
                    None => None,
                }
            },
            _ => None,
        };
        proof {
            let history = trs@.take(i as int);
            assert(trs@.take(i + 1).drop_last() == history);
            assert(trs@.take(i + 1).last() == *tr);
            lemma_first_index(history, |t: Transaction| t.tr_id == tr.tr_id);
            assert(ledger@.advance(*tr, referenced) == ledger@.step(history, *tr));
        }
        let report = ledger.apply(tr, referenced);
        diagnostics.push(report);
        i += 1;
    }
    proof {
        assert(trs@.take(trs@.len() as int) == trs@);
        lemma_replay_clients_distinct(trs@);
    }
    Outcome { accounts: ledger.accounts, diagnostics }
}

} // verus!
