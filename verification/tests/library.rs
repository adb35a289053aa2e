//! Tests of amounts, records, error reasons and whole-ledger properties on
//! concrete values.

use payments_engine::account::Account;
use payments_engine::engine::PaymentsEngine;
use payments_engine::error::{ProcessingError, ProcessingErrorKind};
use payments_engine::model::{Amount, Transaction, TxType, MAX_MANTISSA, MAX_UNITS};
use payments_engine::record::AccountRecord;

fn amt(s: &str) -> Amount {
    let d: rust_decimal::Decimal = s.parse().expect("valid decimal literal in test");
    Amount::from_decimal(d.mantissa(), d.scale()).expect("amount in range")
}

fn run(engine: &mut PaymentsEngine, tx: Transaction) -> Result<(), ProcessingError> {
    assert!(engine.within_limits_after(&tx));
    engine.process_transaction(&tx)
}

fn deposit(client: u16, tx: u32, a: &str) -> Transaction {
    Transaction::new(TxType::Deposit, client, tx, Some(amt(a)))
}

fn withdrawal(client: u16, tx: u32, a: &str) -> Transaction {
    Transaction::new(TxType::Withdrawal, client, tx, Some(amt(a)))
}

fn refer(kind: TxType, client: u16, tx: u32) -> Transaction {
    Transaction::new(kind, client, tx, None)
}

// --- Amounts ------------------------------------------------------------

#[test]
fn amounts_keep_four_places() {
    assert_eq!(Amount::from_decimal(15, 1), Some(Amount { units: 15000 }));
    assert_eq!(Amount::from_decimal(12345, 4), Some(Amount { units: 12345 }));
    assert_eq!(Amount::from_decimal(-7, 0), Some(Amount { units: -70000 }));
}

#[test]
fn amounts_round_to_four_places_half_to_even() {
    // 1.23456 -> 1.2346
    assert_eq!(Amount::from_decimal(123456, 5), Some(Amount { units: 12346 }));
    // 1.23445 -> 1.2344 (midpoint, 4 is even)
    assert_eq!(Amount::from_decimal(123445, 5), Some(Amount { units: 12344 }));
    // 1.23455 -> 1.2346 (midpoint, 5 is odd)
    assert_eq!(Amount::from_decimal(123455, 5), Some(Amount { units: 12346 }));
    // -1.23455 -> -1.2346
    assert_eq!(Amount::from_decimal(-123455, 5), Some(Amount { units: -12346 }));
    // 0.000049 -> 0.0000
    assert_eq!(Amount::from_decimal(49, 6), Some(Amount { units: 0 }));
    // 0.00005 -> 0.0000 (midpoint, 0 is even); -0.00001 -> 0
    assert_eq!(Amount::from_decimal(5, 5), Some(Amount { units: 0 }));
    assert_eq!(Amount::from_decimal(-1, 5), Some(Amount { units: 0 }));
}

#[test]
fn amounts_out_of_range_are_refused() {
    assert_eq!(Amount::from_decimal(1, 29), None);
    assert_eq!(Amount::from_decimal(MAX_MANTISSA + 1, 4), None);
    assert_eq!(Amount::from_decimal(MAX_MANTISSA, 0), None);
    assert_eq!(Amount::from_decimal(MAX_MANTISSA, 4), Some(Amount { units: MAX_UNITS }));
    assert_eq!(Amount::from_decimal(-MAX_MANTISSA, 4), Some(Amount { units: -MAX_UNITS }));
}

#[test]
fn amount_sign_and_zero() {
    assert_eq!(Amount::zero().units, 0);
    assert!(!Amount::zero().is_sign_negative());
    assert!(amt("-0.0001").is_sign_negative());
    assert!(!amt("-0.00001").is_sign_negative());
}

// --- Errors ---------------------------------------------------------------

#[test]
fn error_reasons() {
    assert_eq!(ProcessingErrorKind::MissingAmount.reason(), "missing amount");
    assert_eq!(ProcessingErrorKind::NegativeAmount.reason(), "negative amount");
    assert_eq!(ProcessingErrorKind::AccountLocked.reason(), "account is locked");
    assert_eq!(ProcessingErrorKind::DuplicateTx.reason(), "duplicate transaction id");
    assert_eq!(ProcessingErrorKind::InsufficientFunds.reason(), "insufficient funds");
    assert_eq!(ProcessingErrorKind::UnknownTx.reason(), "unknown transaction");
    assert_eq!(
        ProcessingErrorKind::ClientMismatch.reason(),
        "transaction belongs to another client"
    );
    assert_eq!(
        ProcessingErrorKind::IneligibleState.reason(),
        "transaction is in an ineligible state"
    );
    assert_eq!(
        ProcessingError::new(2, ProcessingErrorKind::InsufficientFunds).message(),
        "transaction 2: insufficient funds"
    );
    assert_eq!(
        ProcessingError::new(99, ProcessingErrorKind::UnknownTx).message(),
        "transaction 99: unknown transaction"
    );
    assert_eq!(
        ProcessingError::new(0, ProcessingErrorKind::AccountLocked).message(),
        "transaction 0: account is locked"
    );
    assert_eq!(
        ProcessingError::new(4294967295, ProcessingErrorKind::DuplicateTx).message(),
        "transaction 4294967295: duplicate transaction id"
    );
    let e = ProcessingError::new(7, ProcessingErrorKind::UnknownTx);
    assert_eq!(e.tx_id, 7);
    assert_eq!(e.kind, ProcessingErrorKind::UnknownTx);
}

// --- Accounts and records -----------------------------------------------

#[test]
fn account_default_and_total() {
    let a = Account::default();
    assert_eq!(a.available.units, 0);
    assert_eq!(a.held.units, 0);
    assert!(!a.locked);
    let b = Account { available: amt("-90.0"), held: amt("100.0"), locked: false };
    assert!(b.total_fits());
    assert_eq!(b.total(), amt("10.0"));
    let big = Account {
        available: Amount { units: MAX_UNITS },
        held: Amount { units: 1 },
        locked: false,
    };
    assert!(!big.total_fits());
}

#[test]
fn record_from_account() {
    let a = Account { available: amt("1.5"), held: amt("2.25"), locked: true };
    let r = AccountRecord::from_account(9, &a);
    assert_eq!(r.client, 9);
    assert_eq!(r.available, amt("1.5"));
    assert_eq!(r.held, amt("2.25"));
    assert_eq!(r.total, amt("3.75"));
    assert!(r.locked);
}

#[test]
fn accounts_lists_each_client_once() {
    let mut engine = PaymentsEngine::new();
    assert!(engine.accounts().is_empty());
    run(&mut engine, deposit(1, 1, "1.0")).unwrap();
    run(&mut engine, deposit(2, 2, "2.0")).unwrap();
    run(&mut engine, deposit(1, 3, "0.5")).unwrap();
    let mut all = engine.accounts();
    all.sort_by_key(|p| p.0);
    assert_eq!(all.len(), 2);
    assert_eq!(all[0].0, 1);
    assert_eq!(all[0].1.available, amt("1.5"));
    assert_eq!(all[1].0, 2);
    assert_eq!(all[1].1.available, amt("2.0"));

    let mut records = engine.account_records().expect("totals in range");
    records.sort_by_key(|r| r.client);
    assert_eq!(records.len(), 2);
    assert_eq!(records[0].total, amt("1.5"));
    assert_eq!(records[1].total, amt("2.0"));
}

#[test]
fn account_records_refuse_totals_out_of_range() {
    let mut engine = PaymentsEngine::new();
    let max = Amount { units: MAX_UNITS };
    run(&mut engine, Transaction::new(TxType::Deposit, 1, 1, Some(max))).unwrap();
    run(&mut engine, refer(TxType::Dispute, 1, 1)).unwrap();
    run(&mut engine, Transaction::new(TxType::Deposit, 1, 2, Some(max))).unwrap();
    let a = engine.account(1).unwrap();
    assert!(!a.total_fits());
    assert!(engine.account_records().is_none());
}

#[test]
fn refused_withdrawal_leaves_no_trace() {
    let mut engine = PaymentsEngine::new();
    let e = run(&mut engine, withdrawal(7, 1, "1.0")).unwrap_err();
    assert_eq!(e, ProcessingError::new(1, ProcessingErrorKind::InsufficientFunds));
    assert!(engine.account(7).is_none());
    assert!(engine.accounts().is_empty());
}

// --- Limits ---------------------------------------------------------------

#[test]
fn limits_are_checked_before_processing() {
    let mut engine = PaymentsEngine::new();
    let max = Amount { units: MAX_UNITS };
    let first = Transaction::new(TxType::Deposit, 1, 1, Some(max));
    assert!(engine.within_limits_after(&first));
    engine.process_transaction(&first).unwrap();
    let second = Transaction::new(TxType::Deposit, 1, 2, Some(Amount { units: 1 }));
    assert!(!engine.within_limits_after(&second));
    let beyond = Transaction::new(TxType::Deposit, 2, 3, Some(Amount { units: MAX_UNITS + 1 }));
    assert!(!engine.within_limits_after(&beyond));
    let within = Transaction::new(TxType::Withdrawal, 1, 4, Some(Amount { units: 1 }));
    assert!(engine.within_limits_after(&within));
}

// --- Whole-ledger properties on concrete values ---------------------------

#[test]
fn resolve_restores_balances_before_dispute() {
    let mut engine = PaymentsEngine::new();
    run(&mut engine, deposit(1, 1, "2.5")).unwrap();
    run(&mut engine, withdrawal(1, 2, "1.0")).unwrap();
    let before = engine.account(1).unwrap();
    run(&mut engine, refer(TxType::Dispute, 1, 1)).unwrap();
    run(&mut engine, refer(TxType::Resolve, 1, 1)).unwrap();
    assert_eq!(engine.account(1).unwrap(), before);
}

#[test]
fn dispute_keeps_total() {
    let mut engine = PaymentsEngine::new();
    run(&mut engine, deposit(1, 1, "2.5")).unwrap();
    run(&mut engine, deposit(1, 2, "1.25")).unwrap();
    let before = engine.account(1).unwrap();
    run(&mut engine, refer(TxType::Dispute, 1, 2)).unwrap();
    let after = engine.account(1).unwrap();
    assert_eq!(after.total(), before.total());
    assert_eq!(after.held, amt("1.25"));
    assert_eq!(after.available, amt("2.5"));
}

#[test]
fn withdrawals_are_not_disputable() {
    let mut engine = PaymentsEngine::new();
    run(&mut engine, deposit(1, 1, "5.0")).unwrap();
    run(&mut engine, withdrawal(1, 2, "1.0")).unwrap();
    let e = run(&mut engine, refer(TxType::Dispute, 1, 2)).unwrap_err();
    assert_eq!(e, ProcessingError::new(2, ProcessingErrorKind::UnknownTx));
}

#[test]
fn other_clients_are_untouched_by_a_chargeback() {
    let mut engine = PaymentsEngine::new();
    run(&mut engine, deposit(1, 1, "1.0")).unwrap();
    run(&mut engine, deposit(2, 2, "3.0")).unwrap();
    let other = engine.account(2).unwrap();
    run(&mut engine, refer(TxType::Dispute, 1, 1)).unwrap();
    run(&mut engine, refer(TxType::Chargeback, 1, 1)).unwrap();
    assert_eq!(engine.account(2).unwrap(), other);
    assert!(engine.account(1).unwrap().locked);
    // The locked client stays locked, the other client carries on.
    run(&mut engine, deposit(2, 3, "1.0")).unwrap();
    assert!(engine.account(1).unwrap().locked);
    let e = run(&mut engine, deposit(1, 4, "1.0")).unwrap_err();
    assert_eq!(e.kind, ProcessingErrorKind::AccountLocked);
}

#[test]
fn resolve_and_chargeback_of_unknown_tx() {
    let mut engine = PaymentsEngine::new();
    let e = run(&mut engine, refer(TxType::Resolve, 1, 5)).unwrap_err();
    assert_eq!(e, ProcessingError::new(5, ProcessingErrorKind::UnknownTx));
    let e = run(&mut engine, refer(TxType::Chargeback, 1, 6)).unwrap_err();
    assert_eq!(e, ProcessingError::new(6, ProcessingErrorKind::UnknownTx));
    assert!(engine.accounts().is_empty());
}

#[test]
fn negative_withdrawal_is_rejected() {
    let mut engine = PaymentsEngine::new();
    let e = run(&mut engine, withdrawal(1, 1, "-2")).unwrap_err();
    assert_eq!(e, ProcessingError::new(1, ProcessingErrorKind::NegativeAmount));
    assert!(engine.account(1).is_none());
}

// --- End-to-end scenarios on the engine -----------------------------------

#[test]
fn scenario_basic_deposits_and_withdrawals() {
    let mut engine = PaymentsEngine::new();
    run(&mut engine, deposit(1, 1, "1.0")).unwrap();
    run(&mut engine, deposit(2, 2, "2.0")).unwrap();
    run(&mut engine, deposit(1, 3, "2.0")).unwrap();
    run(&mut engine, withdrawal(1, 4, "1.5")).unwrap();
    run(&mut engine, withdrawal(2, 5, "3.0")).unwrap_err();
    let mut records = engine.account_records().unwrap();
    records.sort_by_key(|r| r.client);
    assert_eq!(records.len(), 2);
    assert_eq!((records[0].available, records[0].held, records[0].total), (amt("1.5"), amt("0"), amt("1.5")));
    assert!(!records[0].locked);
    assert_eq!((records[1].available, records[1].held, records[1].total), (amt("2.0"), amt("0"), amt("2.0")));
    assert!(!records[1].locked);
}

#[test]
fn scenario_disputes_resolves_and_chargebacks() {
    let mut engine = PaymentsEngine::new();
    run(&mut engine, deposit(1, 1, "1.5")).unwrap();
    run(&mut engine, deposit(2, 2, "2.0")).unwrap();
    run(&mut engine, deposit(3, 3, "0.75")).unwrap();
    run(&mut engine, refer(TxType::Dispute, 1, 1)).unwrap();
    run(&mut engine, refer(TxType::Resolve, 1, 1)).unwrap();
    run(&mut engine, refer(TxType::Dispute, 2, 2)).unwrap();
    run(&mut engine, refer(TxType::Chargeback, 2, 2)).unwrap();
    run(&mut engine, deposit(2, 4, "9.0")).unwrap_err();
    run(&mut engine, refer(TxType::Dispute, 3, 3)).unwrap();
    run(&mut engine, refer(TxType::Chargeback, 3, 3)).unwrap();
    let mut records = engine.account_records().unwrap();
    records.sort_by_key(|r| r.client);
    assert_eq!(records.len(), 3);
    assert_eq!((records[0].available, records[0].total, records[0].locked), (amt("1.5"), amt("1.5"), false));
    assert_eq!((records[1].available, records[1].held, records[1].total, records[1].locked), (amt("0"), amt("0"), amt("0"), true));
    assert_eq!((records[2].available, records[2].held, records[2].total, records[2].locked), (amt("0"), amt("0"), amt("0"), true));
}

#[test]
fn scenario_precision_is_four_places() {
    let mut engine = PaymentsEngine::new();
    run(&mut engine, deposit(1, 1, "1.2345")).unwrap();
    run(&mut engine, deposit(1, 2, "0.1000")).unwrap();
    run(&mut engine, withdrawal(1, 3, "0.0345")).unwrap();
    let a = engine.account(1).unwrap();
    assert_eq!(a.available, Amount { units: 13000 });
    assert_eq!(a.total(), amt("1.3"));
}

#[test]
fn scenario_dispute_can_drive_available_negative() {
    let mut engine = PaymentsEngine::new();
    run(&mut engine, deposit(1, 1, "100.0")).unwrap();
    run(&mut engine, withdrawal(1, 2, "90.0")).unwrap();
    run(&mut engine, refer(TxType::Dispute, 1, 1)).unwrap();
    let a = engine.account(1).unwrap();
    assert_eq!(a.available, amt("-90.0"));
    assert_eq!(a.held, amt("100.0"));
    assert_eq!(a.total(), amt("10.0"));
    assert!(!a.locked);
}

#[test]
fn independent_transactions_commute() {
    let mut one = PaymentsEngine::new();
    let mut two = PaymentsEngine::new();
    for e in [&mut one, &mut two] {
        run(e, deposit(1, 1, "4.0")).unwrap();
        run(e, deposit(2, 2, "1.0")).unwrap();
    }
    let t1 = refer(TxType::Dispute, 1, 1);
    let t2 = withdrawal(2, 3, "5.0");
    let r1a = run(&mut one, t1);
    let r2a = run(&mut one, t2);
    let r2b = run(&mut two, t2);
    let r1b = run(&mut two, t1);
    assert_eq!(r1a, r1b);
    assert_eq!(r2a, r2b);
    let mut a = one.accounts();
    let mut b = two.accounts();
    a.sort_by_key(|p| p.0);
    b.sort_by_key(|p| p.0);
    assert_eq!(a, b);
}

#[test]
fn total_is_deposits_less_withdrawals_less_chargebacks() {
    let mut engine = PaymentsEngine::new();
    run(&mut engine, deposit(1, 1, "10.0")).unwrap();
    run(&mut engine, deposit(1, 2, "3.0")).unwrap();
    run(&mut engine, withdrawal(1, 3, "4.5")).unwrap();
    run(&mut engine, withdrawal(1, 4, "100.0")).unwrap_err();
    run(&mut engine, refer(TxType::Dispute, 1, 2)).unwrap();
    run(&mut engine, refer(TxType::Chargeback, 1, 2)).unwrap();
    // 10.0 + 3.0 - 4.5 - 3.0
    assert_eq!(engine.account(1).unwrap().total(), amt("5.5"));
}

#[test]
fn locked_only_after_a_successful_chargeback() {
    let mut engine = PaymentsEngine::new();
    run(&mut engine, deposit(1, 1, "1.0")).unwrap();
    run(&mut engine, refer(TxType::Chargeback, 1, 1)).unwrap_err();
    assert!(!engine.account(1).unwrap().locked);
    run(&mut engine, refer(TxType::Dispute, 1, 1)).unwrap();
    assert!(!engine.account(1).unwrap().locked);
    run(&mut engine, refer(TxType::Chargeback, 1, 1)).unwrap();
    assert!(engine.account(1).unwrap().locked);
}
