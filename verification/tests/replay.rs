use ledger_replay::account::AccountStatus;
use ledger_replay::amount::Amount;
use ledger_replay::engine::find_transaction;
use ledger_replay::engine::get_transaction_with_id;
use ledger_replay::engine::handle_account;
use ledger_replay::engine::is_disputed_transaction;
use ledger_replay::engine::process_transactions;
use ledger_replay::engine::remove_dispute;
use ledger_replay::engine::settle_account;
use ledger_replay::engine::Diagnostic;
use ledger_replay::engine::Ledger;
use ledger_replay::transaction::Transaction;
use ledger_replay::transaction::TransactionType;

fn amt(whole: i64, decimal: u16) -> Amount {
    Amount { whole, decimal }
}

fn deposit(client: u16, tx: u32, text: &str) -> Transaction {
    Transaction {
        tr_type: TransactionType::Deposit,
        client_id: client,
        tr_id: tx,
        amount: Some(Amount::from(text)),
    }
}

fn withdraw(client: u16, tx: u32, text: &str) -> Transaction {
    Transaction {
        tr_type: TransactionType::Withdraw,
        client_id: client,
        tr_id: tx,
        amount: Some(Amount::from(text)),
    }
}

fn reference(kind: TransactionType, client: u16, tx: u32) -> Transaction {
    Transaction { tr_type: kind, client_id: client, tr_id: tx, amount: None }
}

fn dispute(client: u16, tx: u32) -> Transaction {
    reference(TransactionType::Dispute, client, tx)
}

fn resolve(client: u16, tx: u32) -> Transaction {
    reference(TransactionType::Resolve, client, tx)
}

fn chargeback(client: u16, tx: u32) -> Transaction {
    reference(TransactionType::Chargeback, client, tx)
}

fn account(client: u16, available: Amount, held: Amount, locked: bool) -> AccountStatus {
    AccountStatus { client_id: client, available, held, locked }
}

#[test]
fn new_account_is_empty() {
    assert_eq!(AccountStatus::new(7), account(7, amt(0, 0), amt(0, 0), false));
}

#[test]
fn total_is_available_plus_held() {
    let a = account(1, amt(3, 6000), amt(1, 5000), false);
    assert_eq!(a.total_amount(), amt(5, 1000));
}

#[test]
fn account_text_lists_all_columns() {
    let a = account(2, amt(1, 5), amt(10, 0), true);
    assert_eq!(a.text(), "2, 1.5, 10.0, 11.5, true");
    let b = account(65535, amt(-1, 0), amt(0, 0), false);
    assert_eq!(b.text(), "65535, -1.0, 0.0, -1.0, false");
}

#[test]
fn handle_account_finds_first_position() {
    let accounts = vec![AccountStatus::new(4), AccountStatus::new(9), AccountStatus::new(4)];
    assert_eq!(handle_account(4, &accounts), Some(0));
    assert_eq!(handle_account(9, &accounts), Some(1));
    assert_eq!(handle_account(5, &accounts), None);
    assert_eq!(handle_account(5, &Vec::new()), None);
}

#[test]
fn get_transaction_finds_first_with_id() {
    let trs = vec![deposit(1, 10, "1.0"), deposit(2, 11, "2.0"), deposit(3, 10, "3.0")];
    let found = get_transaction_with_id(10, &trs).unwrap();
    assert_eq!(found.client_id, 1);
    assert_eq!(found.amount, Some(amt(1, 0)));
    assert_eq!(get_transaction_with_id(11, &trs).unwrap().client_id, 2);
    assert!(get_transaction_with_id(12, &trs).is_none());
}

#[test]
fn find_transaction_looks_only_at_the_prefix() {
    let trs = vec![deposit(1, 10, "1.0"), deposit(2, 11, "2.0"), deposit(3, 12, "3.0")];
    assert_eq!(find_transaction(11, &trs, 3), Some(1));
    assert_eq!(find_transaction(11, &trs, 2), Some(1));
    assert_eq!(find_transaction(11, &trs, 1), None);
    assert_eq!(find_transaction(10, &trs, 0), None);
}

#[test]
fn disputed_membership() {
    let dis = vec![3u32, 8, 3];
    assert!(is_disputed_transaction(3, &dis));
    assert!(is_disputed_transaction(8, &dis));
    assert!(!is_disputed_transaction(4, &dis));
    assert!(!is_disputed_transaction(3, &Vec::new()));
}

#[test]
fn remove_dispute_takes_every_occurrence() {
    let mut dis = vec![3u32, 8, 3, 5];
    remove_dispute(3, &mut dis);
    assert_eq!(dis, vec![8u32, 5]);
    remove_dispute(3, &mut dis);
    assert_eq!(dis, vec![8u32, 5]);
    remove_dispute(5, &mut dis);
    assert_eq!(dis, vec![8u32]);
}

#[test]
fn settle_deposit_adds() {
    let mut dis: Vec<u32> = Vec::new();
    let (a, d) = settle_account(AccountStatus::new(1), &mut dis, &deposit(1, 1, "2.5"), None);
    assert_eq!(a, account(1, amt(2, 5), amt(0, 0), false));
    assert_eq!(d, Diagnostic::Clean);
    assert!(dis.is_empty());
}

#[test]
fn settle_reports_missing_amount() {
    let mut dis: Vec<u32> = Vec::new();
    let start = account(1, amt(2, 0), amt(0, 0), false);
    let (a, d) =
        settle_account(start, &mut dis, &reference(TransactionType::Deposit, 1, 1), None);
    assert_eq!(a, start);
    assert_eq!(d, Diagnostic::MissingAmount);
    let (b, e) =
        settle_account(start, &mut dis, &reference(TransactionType::Withdraw, 1, 2), None);
    assert_eq!(b, start);
    assert_eq!(e, Diagnostic::MissingAmount);
}

#[test]
fn settle_on_locked_account_is_silent() {
    let mut dis = vec![1u32];
    let start = account(1, amt(2, 0), amt(3, 0), true);
    let (a, d) =
        settle_account(start, &mut dis, &reference(TransactionType::Deposit, 1, 1), None);
    assert_eq!(a, start);
    assert_eq!(d, Diagnostic::Clean);
    let (b, _) = settle_account(start, &mut dis, &deposit(1, 2, "5.0"), None);
    assert_eq!(b, start);
    let (c, _) = settle_account(start, &mut dis, &resolve(1, 1), Some(amt(1, 0)));
    assert_eq!(c, start);
    let (e, _) = settle_account(start, &mut dis, &chargeback(1, 1), Some(amt(1, 0)));
    assert_eq!(e, start);
    let (f, _) = settle_account(start, &mut dis, &dispute(1, 1), Some(amt(1, 0)));
    assert_eq!(f, start);
    assert_eq!(dis, vec![1u32]);
}

#[test]
fn settle_reports_invalid_kind() {
    let mut dis: Vec<u32> = Vec::new();
    let start = account(1, amt(2, 0), amt(0, 0), false);
    let (a, d) =
        settle_account(start, &mut dis, &reference(TransactionType::Invalid, 1, 1), None);
    assert_eq!(a, start);
    assert_eq!(d, Diagnostic::InvalidKind);
    let locked = account(1, amt(2, 0), amt(0, 0), true);
    let (_, e) =
        settle_account(locked, &mut dis, &reference(TransactionType::Invalid, 1, 1), None);
    assert_eq!(e, Diagnostic::InvalidKind);
}

#[test]
fn settle_withdraw_checks_funds() {
    let mut dis: Vec<u32> = Vec::new();
    let start = account(1, amt(4, 0), amt(0, 0), false);
    let (a, _) = settle_account(start, &mut dis, &withdraw(1, 1, "4.0"), None);
    assert_eq!(a.available, amt(0, 0));
    let (b, d) = settle_account(start, &mut dis, &withdraw(1, 1, "5.0"), None);
    assert_eq!(b, start);
    assert_eq!(d, Diagnostic::Clean);
    let (c, _) = settle_account(start, &mut dis, &withdraw(1, 1, "4.1"), None);
    assert_eq!(c, start);
}

#[test]
fn settle_dispute_resolve_chargeback() {
    let mut dis: Vec<u32> = Vec::new();
    let start = account(1, amt(10, 0), amt(0, 0), false);
    let (a, _) = settle_account(start, &mut dis, &dispute(1, 7), Some(amt(4, 0)));
    assert_eq!(a, account(1, amt(6, 0), amt(4, 0), false));
    assert_eq!(dis, vec![7u32]);
    let (b, _) = settle_account(a, &mut dis, &resolve(1, 7), Some(amt(4, 0)));
    assert_eq!(b, start);
    assert!(dis.is_empty());
    let (c, _) = settle_account(a, &mut dis, &resolve(1, 7), Some(amt(4, 0)));
    assert_eq!(c, a);
    let mut again = vec![7u32];
    let (e, _) = settle_account(a, &mut again, &chargeback(1, 7), Some(amt(4, 0)));
    assert_eq!(e, account(1, amt(6, 0), amt(0, 0), true));
    assert!(again.is_empty());
    let mut other = vec![7u32];
    let (f, _) = settle_account(a, &mut other, &dispute(1, 8), None);
    assert_eq!(f, a);
    assert_eq!(other, vec![7u32]);
}

#[test]
fn ledger_apply_opens_accounts_in_order() {
    let mut ledger = Ledger::new();
    assert_eq!(ledger.apply(&deposit(5, 1, "1.0"), None), Diagnostic::Clean);
    assert_eq!(ledger.apply(&deposit(3, 2, "2.0"), None), Diagnostic::Clean);
    assert_eq!(ledger.apply(&deposit(5, 3, "4.0"), None), Diagnostic::Clean);
    assert_eq!(
        ledger.accounts,
        vec![account(5, amt(5, 0), amt(0, 0), false), account(3, amt(2, 0), amt(0, 0), false)]
    );
    assert!(ledger.disputes.is_empty());
}

#[test]
fn deposits_add_up() {
    let trs = vec![deposit(1, 1, "1.5000"), deposit(1, 2, "2.6000"), deposit(1, 3, "0.9999")];
    let out = process_transactions(&trs);
    let sum = Amount::default() + amt(1, 5000) + amt(2, 6000) + amt(0, 9999);
    assert_eq!(sum, amt(5, 999));
    assert_eq!(out.accounts, vec![account(1, sum, amt(0, 0), false)]);
    assert_eq!(out.diagnostics, vec![Diagnostic::Clean; 3]);
}

#[test]
fn deposits_then_withdrawal() {
    let trs = vec![deposit(1, 1, "5.0"), deposit(1, 2, "3.0"), withdraw(1, 3, "4.0")];
    let out = process_transactions(&trs);
    assert_eq!(out.accounts, vec![account(1, amt(4, 0), amt(0, 0), false)]);
}

#[test]
fn overdraft_leaves_available_unchanged() {
    let trs = vec![deposit(1, 1, "5.0"), withdraw(1, 2, "5.1"), withdraw(1, 3, "9.0")];
    let out = process_transactions(&trs);
    assert_eq!(out.accounts, vec![account(1, amt(5, 0), amt(0, 0), false)]);
    assert_eq!(out.diagnostics, vec![Diagnostic::Clean; 3]);
}

#[test]
fn dispute_moves_amount_to_held() {
    let trs = vec![deposit(2, 4, "10.0"), dispute(2, 4)];
    let out = process_transactions(&trs);
    assert_eq!(out.accounts, vec![account(2, amt(0, 0), amt(10, 0), false)]);
    assert_eq!(out.accounts[0].total_amount(), amt(10, 0));
}

#[test]
fn chargeback_locks_and_freezes() {
    let trs =
        vec![deposit(2, 4, "10.0"), dispute(2, 4), chargeback(2, 4), deposit(2, 5, "100.0")];
    let out = process_transactions(&trs);
    assert_eq!(out.accounts, vec![account(2, amt(0, 0), amt(0, 0), true)]);
    let more = vec![
        deposit(2, 4, "10.0"),
        dispute(2, 4),
        chargeback(2, 4),
        deposit(2, 5, "100.0"),
        withdraw(2, 6, "0.0"),
        dispute(2, 4),
        resolve(2, 4),
        chargeback(2, 4),
        deposit(3, 7, "1.0"),
    ];
    let later = process_transactions(&more);
    assert_eq!(
        later.accounts,
        vec![account(2, amt(0, 0), amt(0, 0), true), account(3, amt(1, 0), amt(0, 0), false)]
    );
}

#[test]
fn resolve_moves_amount_back() {
    let trs = vec![deposit(1, 1, "10.0"), deposit(1, 2, "2.5"), dispute(1, 1), resolve(1, 1)];
    let out = process_transactions(&trs);
    assert_eq!(out.accounts, vec![account(1, amt(12, 5), amt(0, 0), false)]);
}

#[test]
fn resolve_without_dispute_changes_nothing() {
    let trs = vec![deposit(1, 1, "10.0"), resolve(1, 1), resolve(1, 99), chargeback(1, 1)];
    let out = process_transactions(&trs);
    assert_eq!(out.accounts, vec![account(1, amt(10, 0), amt(0, 0), false)]);
    assert_eq!(out.diagnostics, vec![Diagnostic::Clean; 4]);
}

#[test]
fn second_resolve_changes_nothing() {
    let once = vec![deposit(1, 1, "10.0"), dispute(1, 1), resolve(1, 1)];
    let twice = vec![deposit(1, 1, "10.0"), dispute(1, 1), resolve(1, 1), resolve(1, 1)];
    assert_eq!(process_transactions(&once).accounts, process_transactions(&twice).accounts);
    let then_chargeback =
        vec![deposit(1, 1, "10.0"), dispute(1, 1), resolve(1, 1), chargeback(1, 1)];
    assert_eq!(
        process_transactions(&then_chargeback).accounts,
        vec![account(1, amt(10, 0), amt(0, 0), false)]
    );
}

#[test]
fn second_chargeback_changes_nothing() {
    let once = vec![deposit(1, 1, "10.0"), dispute(1, 1), chargeback(1, 1)];
    let twice = vec![deposit(1, 1, "10.0"), dispute(1, 1), chargeback(1, 1), chargeback(1, 1)];
    assert_eq!(process_transactions(&once).accounts, process_transactions(&twice).accounts);
}

#[test]
fn dispute_of_unknown_transaction_only_opens_the_account() {
    let trs = vec![deposit(1, 1, "10.0"), dispute(7, 99)];
    let out = process_transactions(&trs);
    assert_eq!(
        out.accounts,
        vec![account(1, amt(10, 0), amt(0, 0), false), account(7, amt(0, 0), amt(0, 0), false)]
    );
    assert_eq!(out.diagnostics, vec![Diagnostic::Clean; 2]);
}

#[test]
fn reference_must_come_earlier() {
    let trs = vec![dispute(1, 5), deposit(1, 5, "3.0")];
    let out = process_transactions(&trs);
    assert_eq!(out.accounts, vec![account(1, amt(3, 0), amt(0, 0), false)]);
    let shadowed = vec![dispute(1, 5), deposit(1, 5, "3.0"), dispute(1, 5)];
    let after = process_transactions(&shadowed);
    assert_eq!(after.accounts, vec![account(1, amt(3, 0), amt(0, 0), false)]);
}

#[test]
fn dispute_may_name_another_clients_transaction() {
    let trs = vec![deposit(1, 1, "10.0"), dispute(2, 1)];
    let out = process_transactions(&trs);
    assert_eq!(
        out.accounts,
        vec![account(1, amt(10, 0), amt(0, 0), false), account(2, amt(-10, 0), amt(10, 0), false)]
    );
}

#[test]
fn diagnostics_follow_the_records() {
    let trs = vec![
        deposit(1, 1, "1.0"),
        reference(TransactionType::Invalid, 1, 2),
        reference(TransactionType::Deposit, 1, 3),
        reference(TransactionType::Withdraw, 2, 4),
        withdraw(1, 5, "1.0"),
    ];
    let out = process_transactions(&trs);
    assert_eq!(
        out.diagnostics,
        vec![
            Diagnostic::Clean,
            Diagnostic::InvalidKind,
            Diagnostic::MissingAmount,
            Diagnostic::MissingAmount,
            Diagnostic::Clean,
        ]
    );
    assert_eq!(
        out.accounts,
        vec![account(1, amt(0, 0), amt(0, 0), false), account(2, amt(0, 0), amt(0, 0), false)]
    );
}

#[test]
fn empty_input_gives_no_accounts() {
    let out = process_transactions(&Vec::new());
    assert!(out.accounts.is_empty());
    assert!(out.diagnostics.is_empty());
}

#[test]
fn accounts_come_in_first_seen_order() {
    let trs = vec![deposit(9, 1, "1.0"), deposit(2, 2, "2.0"), deposit(9, 3, "3.0"), dispute(5, 2)];
    let out = process_transactions(&trs);
    let ids: Vec<u16> = out.accounts.iter().map(|a| a.client_id).collect();
    assert_eq!(ids, vec![9u16, 2, 5]);
}
