use csv::StringRecord;
use ledger_replay::amount::Amount;
use ledger_replay::numeral::dot_position;
use ledger_replay::numeral::same_text;
use ledger_replay::transaction::Transaction;
use ledger_replay::transaction::TransactionType;

#[test]
fn kind_tokens() {
    assert_eq!(TransactionType::from("deposit"), TransactionType::Deposit);
    assert_eq!(TransactionType::from("withdrawal"), TransactionType::Withdraw);
    assert_eq!(TransactionType::from("dispute"), TransactionType::Dispute);
    assert_eq!(TransactionType::from("resolve"), TransactionType::Resolve);
    assert_eq!(TransactionType::from("chargeback"), TransactionType::Chargeback);
}

#[test]
fn other_tokens_are_invalid() {
    assert_eq!(TransactionType::from("withdraw"), TransactionType::Invalid);
    assert_eq!(TransactionType::from("Deposit"), TransactionType::Invalid);
    assert_eq!(TransactionType::from(" deposit"), TransactionType::Invalid);
    assert_eq!(TransactionType::from(""), TransactionType::Invalid);
}

#[test]
fn same_text_compares_whole_texts() {
    assert!(same_text("abc", "abc"));
    assert!(!same_text("abc", "abd"));
    assert!(!same_text("abc", "ab"));
    assert!(same_text("", ""));
}

#[test]
fn dot_position_finds_first() {
    assert_eq!(dot_position("1.2.3"), Some(1));
    assert_eq!(dot_position("123"), None);
    assert_eq!(dot_position(""), None);
    assert_eq!(dot_position("é."), Some(1));
}

#[test]
fn fields_make_a_record() {
    let t = Transaction::from_fields("deposit", "3", "17", Some("2.5"));
    assert_eq!(t.tr_type, TransactionType::Deposit);
    assert_eq!(t.client_id, 3);
    assert_eq!(t.tr_id, 17);
    assert_eq!(t.amount, Some(Amount { whole: 2, decimal: 5 }));
}

#[test]
fn bad_numeric_fields_become_zero() {
    let t = Transaction::from_fields("dispute", "x", "-4", None);
    assert_eq!(t.tr_type, TransactionType::Dispute);
    assert_eq!(t.client_id, 0);
    assert_eq!(t.tr_id, 0);
    assert_eq!(t.amount, None);
    let u = Transaction::from_fields("deposit", "65536", "4294967296", Some("oops"));
    assert_eq!(u.client_id, 0);
    assert_eq!(u.tr_id, 0);
    assert_eq!(u.amount, Some(Amount { whole: 0, decimal: 0 }));
    let v = Transaction::from_fields("deposit", "65535", "4294967295", Some("1"));
    assert_eq!(v.client_id, 65535);
    assert_eq!(v.tr_id, 4294967295);
}

#[test]
fn row_with_four_fields_carries_amount() {
    let rec = StringRecord::from(vec!["withdrawal", "9", "12", "1.25"]);
    let t = Transaction::from_record(&rec).unwrap();
    assert_eq!(t.tr_type, TransactionType::Withdraw);
    assert_eq!(t.client_id, 9);
    assert_eq!(t.tr_id, 12);
    assert_eq!(t.amount, Some(Amount { whole: 1, decimal: 25 }));
}

#[test]
fn row_with_three_fields_has_no_amount() {
    let rec = StringRecord::from(vec!["resolve", "9", "12"]);
    let t = Transaction::from_record(&rec).unwrap();
    assert_eq!(t.tr_type, TransactionType::Resolve);
    assert_eq!(t.client_id, 9);
    assert_eq!(t.tr_id, 12);
    assert_eq!(t.amount, None);
}

#[test]
fn row_with_five_fields_has_no_amount() {
    let rec = StringRecord::from(vec!["deposit", "1", "2", "3.0", "extra"]);
    let t = Transaction::from_record(&rec).unwrap();
    assert_eq!(t.tr_type, TransactionType::Deposit);
    assert_eq!(t.amount, None);
}

#[test]
fn short_row_gives_nothing() {
    assert!(Transaction::from_record(&StringRecord::from(vec!["deposit", "1"])).is_none());
    assert!(Transaction::from_record(&StringRecord::new()).is_none());
}

#[test]
fn row_fields_are_taken_in_order() {
    let rec = StringRecord::from(vec!["chargeback", "21", "43"]);
    let t = Transaction::from_record(&rec).unwrap();
    assert_eq!(t.tr_type, TransactionType::Chargeback);
    assert_eq!(t.client_id, 21);
    assert_eq!(t.tr_id, 43);
}

#[test]
fn numerals_take_a_sign_and_leading_zeros() {
    let t = Transaction::from_fields("deposit", "+7", "007", Some("-0.5"));
    assert_eq!(t.client_id, 7);
    assert_eq!(t.tr_id, 7);
    assert_eq!(t.amount, Some(Amount { whole: 0, decimal: 5 }));
    let u = Transaction::from_fields("deposit", "+", "1 ", Some("-.+5"));
    assert_eq!(u.client_id, 0);
    assert_eq!(u.tr_id, 0);
    assert_eq!(u.amount, Some(Amount { whole: 0, decimal: 5 }));
    let v = Transaction::from_fields("deposit", "1", "1", Some("-9223372036854775808.0"));
    assert_eq!(v.amount, Some(Amount { whole: i64::MIN, decimal: 0 }));
    let w = Transaction::from_fields("deposit", "1", "1", Some("9223372036854775808.0"));
    assert_eq!(w.amount, Some(Amount { whole: 0, decimal: 0 }));
}
