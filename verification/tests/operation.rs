use std::collections::HashMap;
use std::str::FromStr;

use accounts_solution::account::Account;
use accounts_solution::account_map::empty_accounts;
use accounts_solution::amount::Amount;
use accounts_solution::operation::{Operation, ParseError, Record, RecordType, TxId};
use accounts_solution::transaction::{DisputeState, StoredTx};
use iddqd::IdOrdMap;
use rust_decimal::Decimal;

fn dec(s: &str) -> Amount {
    let d = Decimal::from_str(s).unwrap();
    Amount::new(d.mantissa(), d.scale()).unwrap()
}

fn row(kind: RecordType, client: u16, tx: u32, amount: Option<&str>) -> Record {
    Record::new(kind, client, tx, amount.map(dec))
}

#[test]
fn parses_deposit() {
    assert_eq!(
        Operation::try_from(row(RecordType::Deposit, 1, 1, Some("1.0"))).unwrap(),
        Operation::Deposit { client: 1, tx: 1, amount: dec("1.0") }
    );
}

#[test]
fn parses_withdrawal() {
    assert_eq!(
        Operation::try_from(row(RecordType::Withdrawal, 2, 5, Some("3.0"))).unwrap(),
        Operation::Withdrawal { client: 2, tx: 5, amount: dec("3.0") }
    );
}

#[test]
fn parses_four_decimal_precision() {
    let op = Operation::try_from(row(RecordType::Deposit, 1, 6, Some("5.1234"))).unwrap();
    assert_eq!(op, Operation::Deposit { client: 1, tx: 6, amount: dec("5.1234") });
    match op {
        Operation::Deposit { amount, .. } => {
            assert_eq!(amount.mantissa(), 51234);
            assert_eq!(amount.scale(), 4);
        }
        _ => unreachable!(),
    }
}

#[test]
fn parses_dispute_resolve_chargeback_without_amount() {
    assert_eq!(
        Operation::try_from(row(RecordType::Dispute, 1, 1, None)).unwrap(),
        Operation::Dispute { client: 1, tx: 1 }
    );
    assert_eq!(
        Operation::try_from(row(RecordType::Resolve, 1, 1, None)).unwrap(),
        Operation::Resolve { client: 1, tx: 1 }
    );
    assert_eq!(
        Operation::try_from(row(RecordType::Chargeback, 2, 2, None)).unwrap(),
        Operation::Chargeback { client: 2, tx: 2 }
    );
}

#[test]
fn errors_on_missing_amount_for_deposit() {
    assert_eq!(
        Operation::try_from(row(RecordType::Deposit, 1, 1, None)),
        Err(ParseError::MissingAmount)
    );
}

#[test]
fn errors_on_missing_amount_for_withdrawal() {
    assert_eq!(
        Operation::try_from(row(RecordType::Withdrawal, 1, 1, None)),
        Err(ParseError::MissingAmount)
    );
}

#[test]
fn errors_on_negative_amount() {
    assert_eq!(
        Operation::try_from(row(RecordType::Deposit, 1, 1, Some("-1.0"))),
        Err(ParseError::NegativeAmount)
    );
    assert_eq!(
        Operation::try_from(row(RecordType::Withdrawal, 1, 1, Some("-0.0001"))),
        Err(ParseError::NegativeAmount)
    );
}

#[test]
fn zero_amount_is_accepted() {
    assert_eq!(
        Operation::try_from(row(RecordType::Deposit, 1, 1, Some("-0.0"))).unwrap(),
        Operation::Deposit { client: 1, tx: 1, amount: dec("0") }
    );
}

#[test]
fn amount_on_dispute_is_ignored() {
    assert_eq!(
        Operation::try_from(row(RecordType::Dispute, 3, 4, Some("-7"))).unwrap(),
        Operation::Dispute { client: 3, tx: 4 }
    );
}

#[test]
fn client_of_each_operation() {
    assert_eq!(Operation::Deposit { client: 5, tx: 1, amount: dec("1") }.client(), 5);
    assert_eq!(Operation::Withdrawal { client: 6, tx: 1, amount: dec("1") }.client(), 6);
    assert_eq!(Operation::Dispute { client: 7, tx: 1 }.client(), 7);
    assert_eq!(Operation::Resolve { client: 8, tx: 1 }.client(), 8);
    assert_eq!(Operation::Chargeback { client: 9, tx: 1 }.client(), 9);
}

/// Drive a full dispute lifecycle through `process` and assert both the
/// account balances and the transaction store after each phase: dispute and
/// resolve on tx 1, then dispute and chargeback on tx 2.
#[test]
fn operation_dispute_resolve_and_chargeback() {
    let mut accounts = IdOrdMap::<Account>::new();
    let mut txs = HashMap::<TxId, StoredTx>::new();

    // Two deposits: available 150, held 0.
    Operation::Deposit { client: 1, tx: 1, amount: dec("100.0") }.process(&mut accounts, &mut txs);
    Operation::Deposit { client: 1, tx: 2, amount: dec("50.0") }.process(&mut accounts, &mut txs);

    // Dispute tx 1: available 50, held 100, total unchanged at 150.
    Operation::Dispute { client: 1, tx: 1 }.process(&mut accounts, &mut txs);
    let account = accounts.get(&1).unwrap();
    assert_eq!(account.available(), dec("50.0"));
    assert_eq!(account.held(), dec("100.0"));
    assert_eq!(account.total(), dec("150.0"));
    assert_eq!(txs[&1].state, DisputeState::Disputed);

    // Resolve tx 1: held funds returned to available.
    Operation::Resolve { client: 1, tx: 1 }.process(&mut accounts, &mut txs);
    let account = accounts.get(&1).unwrap();
    assert_eq!(account.available(), dec("150.0"));
    assert_eq!(account.held(), dec("0"));
    assert_ne!(txs[&1].state, DisputeState::Disputed);

    // Dispute then chargeback tx 2: 50 is reversed and the account freezes.
    Operation::Dispute { client: 1, tx: 2 }.process(&mut accounts, &mut txs);
    Operation::Chargeback { client: 1, tx: 2 }.process(&mut accounts, &mut txs);
    let account = accounts.get(&1).unwrap();
    assert_eq!(account.available(), dec("100.0"));
    assert_eq!(account.held(), dec("0"));
    assert_eq!(account.total(), dec("100.0"));
    assert!(account.locked());
    assert_ne!(txs[&2].state, DisputeState::Disputed);
}

/// Disputes referencing an unknown transaction are ignored.
#[test]
fn operation_dispute_of_unknown_tx_is_ignored() {
    let mut accounts = IdOrdMap::<Account>::new();
    let mut txs = HashMap::<TxId, StoredTx>::new();

    Operation::Deposit { client: 1, tx: 1, amount: dec("10.0") }.process(&mut accounts, &mut txs);
    Operation::Dispute { client: 1, tx: 99 }.process(&mut accounts, &mut txs);

    let account = accounts.get(&1).unwrap();
    assert_eq!(account.available(), dec("10.0"));
    assert_eq!(account.held(), dec("0"));
}

/// `process` stores only credited deposits: a withdrawal is never stored, so a
/// dispute of it is ignored.
#[test]
fn process_dispute_of_withdrawal_is_ignored() {
    let mut accounts = IdOrdMap::<Account>::new();
    let mut txs = HashMap::<TxId, StoredTx>::new();
    Operation::Deposit { client: 1, tx: 1, amount: dec("100.0") }.process(&mut accounts, &mut txs);
    Operation::Withdrawal { client: 1, tx: 2, amount: dec("30.0") }.process(&mut accounts, &mut txs);
    Operation::Dispute { client: 1, tx: 2 }.process(&mut accounts, &mut txs);
    let account = accounts.get(&1).unwrap();
    assert_eq!(account.available(), dec("70.0"));
    assert_eq!(account.held(), dec("0"));
    assert!(!txs.contains_key(&2));
}

/// `process` leaves a locked account alone, deposits included.
#[test]
fn process_locked_account_ignores_deposit() {
    let mut accounts = IdOrdMap::<Account>::new();
    let mut txs = HashMap::<TxId, StoredTx>::new();
    Operation::Deposit { client: 1, tx: 1, amount: dec("100.0") }.process(&mut accounts, &mut txs);
    Operation::Dispute { client: 1, tx: 1 }.process(&mut accounts, &mut txs);
    Operation::Chargeback { client: 1, tx: 1 }.process(&mut accounts, &mut txs);
    Operation::Deposit { client: 1, tx: 2, amount: dec("50.0") }.process(&mut accounts, &mut txs);
    let account = accounts.get(&1).unwrap();
    assert!(account.locked());
    assert_eq!(account.available(), dec("0"));
    assert_eq!(account.total(), dec("0"));
}

/// `process` never disputes or charges back a charged-back deposit again.
#[test]
fn process_chargeback_is_final() {
    let mut accounts = IdOrdMap::<Account>::new();
    let mut txs = HashMap::<TxId, StoredTx>::new();
    let mut account = Account::new(1);
    account.available = dec("0");
    accounts.insert_unique(account).unwrap();
    txs.insert(1, StoredTx { client: 1, amount: dec("100.0"), state: DisputeState::ChargedBack });
    Operation::Dispute { client: 1, tx: 1 }.process(&mut accounts, &mut txs);
    Operation::Chargeback { client: 1, tx: 1 }.process(&mut accounts, &mut txs);
    let account = accounts.get(&1).unwrap();
    assert_eq!(account.available(), dec("0"));
    assert_eq!(account.held(), dec("0"));
    assert_eq!(txs[&1].state, DisputeState::ChargedBack);
}

/// `process` credits a deposit id only once.
#[test]
fn process_reused_deposit_id_is_ignored() {
    let mut accounts = IdOrdMap::<Account>::new();
    let mut txs = HashMap::<TxId, StoredTx>::new();
    Operation::Deposit { client: 1, tx: 1, amount: dec("100.0") }.process(&mut accounts, &mut txs);
    Operation::Deposit { client: 1, tx: 1, amount: dec("100.0") }.process(&mut accounts, &mut txs);
    Operation::Withdrawal { client: 1, tx: 1, amount: dec("50.0") }.process(&mut accounts, &mut txs);
    assert_eq!(accounts.get(&1).unwrap().available(), dec("100.0"));
}

/// `try_process` refuses an operation that would overflow.
#[test]
fn try_process_refuses_overflow() {
    let mut accounts = IdOrdMap::<Account>::new();
    let mut txs = HashMap::<TxId, StoredTx>::new();
    let max = Amount::new(Decimal::MAX.mantissa(), 0).unwrap();
    let mut account = Account::new(1);
    account.held = max;
    accounts.insert_unique(account).unwrap();
    // The total of this account can be taken, but not the total plus more
    // once available is large too.
    let mut other = Account::new(2);
    other.available = max;
    other.held = max;
    accounts.insert_unique(other).unwrap();
    let op = Operation::Deposit { client: 2, tx: 1, amount: dec("1") };
    assert!(!op.fits_process(&accounts, &txs));
    assert!(!op.try_process(&mut accounts, &mut txs));
    assert!(txs.is_empty());
    // Here the total overflows, so the deposit itself is refused and not stored.
    let op = Operation::Deposit { client: 1, tx: 1, amount: dec("1") };
    assert!(op.try_process(&mut accounts, &mut txs));
    assert_eq!(accounts.get(&1).unwrap().available(), dec("0"));
    assert!(!txs.contains_key(&1));
}

/// The public empty map starts a `process` run.
#[test]
fn empty_accounts_start_processing() {
    let mut accounts = empty_accounts();
    let mut txs = HashMap::<TxId, StoredTx>::new();
    assert!(accounts.is_empty());
    Operation::Deposit { client: 3, tx: 1, amount: dec("2") }.process(&mut accounts, &mut txs);
    assert_eq!(accounts.get(&3).unwrap().available(), dec("2"));
}
