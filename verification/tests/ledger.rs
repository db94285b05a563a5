use std::str::FromStr;

use accounts_solution::amount::Amount;
use accounts_solution::ledger::Ledger;
use accounts_solution::operation::Operation;
use accounts_solution::transaction::DisputeState;
use rust_decimal::Decimal;

fn dec(s: &str) -> Amount {
    let d = Decimal::from_str(s).unwrap();
    Amount::new(d.mantissa(), d.scale()).unwrap()
}

fn max() -> Amount {
    Amount::new(Decimal::MAX.mantissa(), 0).unwrap()
}

/// Drive a full dispute lifecycle and assert both the account balances and
/// the transaction store after each phase: dispute and resolve on tx 1, then
/// dispute and chargeback on tx 2.
#[test]
fn ledger_dispute_resolve_and_chargeback() {
    let mut ledger = Ledger::new();

    // Two deposits: available 150, held 0.
    ledger.apply(Operation::Deposit { client: 1, tx: 1, amount: dec("100.0") });
    ledger.apply(Operation::Deposit { client: 1, tx: 2, amount: dec("50.0") });

    // Dispute tx 1: available 50, held 100, total unchanged at 150.
    ledger.apply(Operation::Dispute { client: 1, tx: 1 });
    let account = ledger.account(1).unwrap();
    assert_eq!(account.available(), dec("50.0"));
    assert_eq!(account.held(), dec("100.0"));
    assert_eq!(account.total(), dec("150.0"));
    assert_eq!(ledger.stored_deposit(1).unwrap().state, DisputeState::Disputed);

    // Resolve tx 1: held funds returned to available.
    ledger.apply(Operation::Resolve { client: 1, tx: 1 });
    let account = ledger.account(1).unwrap();
    assert_eq!(account.available(), dec("150.0"));
    assert_eq!(account.held(), dec("0"));
    assert_eq!(ledger.stored_deposit(1).unwrap().state, DisputeState::Undisputed);

    // Dispute then chargeback tx 2: 50 is reversed and the account freezes.
    ledger.apply(Operation::Dispute { client: 1, tx: 2 });
    ledger.apply(Operation::Chargeback { client: 1, tx: 2 });
    let account = ledger.account(1).unwrap();
    assert_eq!(account.available(), dec("100.0"));
    assert_eq!(account.held(), dec("0"));
    assert_eq!(account.total(), dec("100.0"));
    assert!(account.locked());
    assert_eq!(ledger.stored_deposit(2).unwrap().state, DisputeState::ChargedBack);
}

/// A charged-back transaction is terminal: re-disputing and charging it back
/// again must be ignored, not double-reverse the funds.
#[test]
fn cannot_chargeback_twice() {
    let mut ledger = Ledger::new();

    ledger.apply(Operation::Deposit { client: 1, tx: 1, amount: dec("100.0") });
    ledger.apply(Operation::Dispute { client: 1, tx: 1 });
    ledger.apply(Operation::Chargeback { client: 1, tx: 1 });

    // Second dispute + chargeback on the same tx should have no effect.
    ledger.apply(Operation::Dispute { client: 1, tx: 1 });
    ledger.apply(Operation::Chargeback { client: 1, tx: 1 });

    let account = ledger.account(1).unwrap();
    assert_eq!(account.available(), dec("0"));
    assert_eq!(account.held(), dec("0"));
    assert_eq!(account.total(), dec("0"));
    assert!(account.locked());
}

/// A locked account rejects further withdrawals, leaving its balance intact.
#[test]
fn locked_account_cannot_withdraw() {
    let mut ledger = Ledger::new();

    // Deposit 150, then chargeback tx 1 (100) to lock the account with 50 left.
    ledger.apply(Operation::Deposit { client: 1, tx: 1, amount: dec("100.0") });
    ledger.apply(Operation::Deposit { client: 1, tx: 2, amount: dec("50.0") });
    ledger.apply(Operation::Dispute { client: 1, tx: 1 });
    ledger.apply(Operation::Chargeback { client: 1, tx: 1 });

    ledger.apply(Operation::Withdrawal { client: 1, tx: 3, amount: dec("20.0") });

    let account = ledger.account(1).unwrap();
    assert!(account.locked());
    assert_eq!(account.available(), dec("50.0"));
}

/// Disputes referencing an unknown transaction are ignored.
#[test]
fn ledger_dispute_of_unknown_tx_is_ignored() {
    let mut ledger = Ledger::new();

    ledger.apply(Operation::Deposit { client: 1, tx: 1, amount: dec("10.0") });
    ledger.apply(Operation::Dispute { client: 1, tx: 99 });

    let account = ledger.account(1).unwrap();
    assert_eq!(account.available(), dec("10.0"));
    assert_eq!(account.held(), dec("0"));
}

/// A frozen account rejects every operation, including deposits.
#[test]
fn locked_account_ignores_all_operations() {
    let mut ledger = Ledger::new();

    ledger.apply(Operation::Deposit { client: 1, tx: 1, amount: dec("100.0") });
    ledger.apply(Operation::Dispute { client: 1, tx: 1 });
    ledger.apply(Operation::Chargeback { client: 1, tx: 1 });

    // The account is now frozen; a further deposit must be ignored.
    ledger.apply(Operation::Deposit { client: 1, tx: 2, amount: dec("50.0") });

    let account = ledger.account(1).unwrap();
    assert!(account.locked());
    assert_eq!(account.available(), dec("0"));
    assert_eq!(account.total(), dec("0"));
}

/// A second deposit reusing an existing tx id is ignored, not applied twice.
#[test]
fn duplicate_deposit_is_ignored() {
    let mut ledger = Ledger::new();

    ledger.apply(Operation::Deposit { client: 1, tx: 1, amount: dec("100.0") });
    ledger.apply(Operation::Deposit { client: 1, tx: 1, amount: dec("100.0") });

    let account = ledger.account(1).unwrap();
    assert_eq!(account.available(), dec("100.0"));
    assert_eq!(account.total(), dec("100.0"));
}

/// A deposit that would overflow the balance is ignored, not panicking.
#[test]
fn deposit_overflow_is_ignored() {
    let mut ledger = Ledger::new();

    ledger.apply(Operation::Deposit { client: 1, tx: 1, amount: max() });
    ledger.apply(Operation::Deposit { client: 1, tx: 2, amount: max() });

    let account = ledger.account(1).unwrap();
    assert_eq!(account.available(), max());
    assert_eq!(account.total(), max());
    assert!(ledger.stored_deposit(2).is_none());
}

/// A dispute naming another client's deposit is ignored.
#[test]
fn dispute_of_other_clients_tx_is_ignored() {
    let mut ledger = Ledger::new();
    ledger.apply(Operation::Deposit { client: 1, tx: 1, amount: dec("10") });
    ledger.apply(Operation::Dispute { client: 2, tx: 1 });
    assert_eq!(ledger.account(1).unwrap().held(), dec("0"));
    assert_eq!(ledger.stored_deposit(1).unwrap().state, DisputeState::Undisputed);
    // The referenced client still gets an account, with zero balances.
    let account = ledger.account(2).unwrap();
    assert_eq!(account.available(), dec("0"));
    assert_eq!(account.held(), dec("0"));
}

/// A withdrawal cannot be disputed: it is never stored.
#[test]
fn withdrawal_cannot_be_disputed() {
    let mut ledger = Ledger::new();
    ledger.apply(Operation::Deposit { client: 1, tx: 1, amount: dec("10") });
    ledger.apply(Operation::Withdrawal { client: 1, tx: 2, amount: dec("4") });
    ledger.apply(Operation::Dispute { client: 1, tx: 2 });
    let account = ledger.account(1).unwrap();
    assert_eq!(account.available(), dec("6"));
    assert_eq!(account.held(), dec("0"));
    assert!(ledger.stored_deposit(2).is_none());
}

/// Resolve and chargeback without an active dispute are ignored.
#[test]
fn resolve_and_chargeback_need_a_dispute() {
    let mut ledger = Ledger::new();
    ledger.apply(Operation::Deposit { client: 1, tx: 1, amount: dec("10") });
    ledger.apply(Operation::Resolve { client: 1, tx: 1 });
    ledger.apply(Operation::Chargeback { client: 1, tx: 1 });
    let account = ledger.account(1).unwrap();
    assert_eq!(account.available(), dec("10"));
    assert_eq!(account.held(), dec("0"));
    assert!(!account.locked());
}

/// A failed withdrawal still creates the account, with zero balances.
#[test]
fn failed_withdrawal_creates_account() {
    let mut ledger = Ledger::new();
    ledger.apply(Operation::Withdrawal { client: 4, tx: 1, amount: dec("1") });
    let account = ledger.account(4).unwrap();
    assert_eq!(account.available(), dec("0"));
    assert_eq!(account.total(), dec("0"));
    assert!(!account.locked());
}

/// Held funds cannot be withdrawn.
#[test]
fn held_funds_cannot_be_withdrawn() {
    let mut ledger = Ledger::new();
    ledger.apply(Operation::Deposit { client: 1, tx: 1, amount: dec("10") });
    ledger.apply(Operation::Dispute { client: 1, tx: 1 });
    ledger.apply(Operation::Withdrawal { client: 1, tx: 2, amount: dec("5") });
    let account = ledger.account(1).unwrap();
    assert_eq!(account.available(), dec("0"));
    assert_eq!(account.held(), dec("10"));
}

/// Deposit, withdraw, then chargeback of the deposit: the loss lands on the
/// account.
#[test]
fn chargeback_after_withdrawal_goes_negative() {
    let mut ledger = Ledger::new();
    ledger.apply(Operation::Deposit { client: 1, tx: 1, amount: dec("10") });
    ledger.apply(Operation::Withdrawal { client: 1, tx: 2, amount: dec("10") });
    ledger.apply(Operation::Dispute { client: 1, tx: 1 });
    ledger.apply(Operation::Chargeback { client: 1, tx: 1 });
    let account = ledger.account(1).unwrap();
    assert_eq!(account.available(), dec("-10"));
    assert_eq!(account.total(), dec("-10"));
    assert!(account.locked());
}

/// Accounts come out in client-id order.
#[test]
fn accounts_in_client_order() {
    let mut ledger = Ledger::new();
    ledger.apply(Operation::Deposit { client: 3, tx: 1, amount: dec("3") });
    ledger.apply(Operation::Deposit { client: 1, tx: 2, amount: dec("1") });
    ledger.apply(Operation::Withdrawal { client: 2, tx: 3, amount: dec("1") });
    let ids: Vec<u16> = ledger.accounts().iter().map(|a| a.client_id).collect();
    assert_eq!(ids, vec![1, 2, 3]);
}

/// An operation whose balances would leave the range of a decimal number is
/// refused by `try_apply`, leaving the ledger as it is.
#[test]
fn try_apply_refuses_overflowing_resolve() {
    let mut ledger = Ledger::new();
    let big = max();
    // Deposit the largest amount, spend it, then dispute the deposit.
    assert!(ledger.try_apply(Operation::Deposit { client: 1, tx: 1, amount: big }));
    assert!(ledger.try_apply(Operation::Withdrawal { client: 1, tx: 9, amount: big }));
    assert!(ledger.try_apply(Operation::Dispute { client: 1, tx: 1 }));
    assert!(ledger.try_apply(Operation::Deposit { client: 1, tx: 2, amount: big }));
    // The second hold overflows held: refused inside, yet the tx is marked disputed.
    assert!(ledger.try_apply(Operation::Dispute { client: 1, tx: 2 }));
    assert_eq!(ledger.stored_deposit(2).unwrap().state, DisputeState::Disputed);
    assert!(ledger.try_apply(Operation::Resolve { client: 1, tx: 1 }));
    // Releasing tx 2 would take available beyond the range.
    assert!(!ledger.can_apply(&Operation::Resolve { client: 1, tx: 2 }));
    let before = ledger.account(1).unwrap();
    assert!(!ledger.try_apply(Operation::Resolve { client: 1, tx: 2 }));
    assert_eq!(ledger.account(1).unwrap(), before);
    assert_eq!(ledger.stored_deposit(2).unwrap().state, DisputeState::Disputed);
}

/// An operation leaves the other clients' accounts alone, and a stored deposit
/// keeps its client and amount through its dispute lifecycle.
#[test]
fn operations_touch_only_their_client() {
    let mut ledger = Ledger::new();
    ledger.apply(Operation::Deposit { client: 1, tx: 1, amount: dec("10") });
    ledger.apply(Operation::Deposit { client: 2, tx: 2, amount: dec("20") });
    let before = ledger.account(2).unwrap();
    ledger.apply(Operation::Withdrawal { client: 1, tx: 3, amount: dec("5") });
    ledger.apply(Operation::Dispute { client: 1, tx: 1 });
    ledger.apply(Operation::Chargeback { client: 1, tx: 1 });
    assert_eq!(ledger.account(2).unwrap(), before);
    let stored = ledger.stored_deposit(1).unwrap();
    assert_eq!(stored.client, 1);
    assert_eq!(stored.amount, dec("10"));
    assert_eq!(stored.state, DisputeState::ChargedBack);
}

/// A withdrawal that reuses a deposit's transaction id moves no money.
#[test]
fn withdrawal_reusing_deposit_id_is_ignored() {
    let mut ledger = Ledger::new();
    ledger.apply(Operation::Deposit { client: 1, tx: 1, amount: dec("100.0") });
    ledger.apply(Operation::Withdrawal { client: 1, tx: 1, amount: dec("50.0") });
    let account = ledger.account(1).unwrap();
    assert_eq!(account.available(), dec("100.0"));
    assert_eq!(account.total(), dec("100.0"));
}

/// A withdrawal id, even of a failed withdrawal, counts: a later operation with
/// the same id moves no money.
#[test]
fn reused_withdrawal_id_is_ignored() {
    let mut ledger = Ledger::new();
    ledger.apply(Operation::Withdrawal { client: 1, tx: 7, amount: dec("5") });
    ledger.apply(Operation::Deposit { client: 1, tx: 7, amount: dec("10") });
    ledger.apply(Operation::Deposit { client: 1, tx: 8, amount: dec("10") });
    ledger.apply(Operation::Withdrawal { client: 1, tx: 8, amount: dec("10") });
    let account = ledger.account(1).unwrap();
    assert_eq!(account.available(), dec("10"));
    assert!(ledger.stored_deposit(7).is_none());
}

/// A dispute of an unknown transaction still creates the client's account.
#[test]
fn failed_dispute_creates_account() {
    let mut ledger = Ledger::new();
    ledger.apply(Operation::Dispute { client: 5, tx: 99 });
    let accounts = ledger.accounts();
    assert_eq!(accounts.len(), 1);
    assert_eq!(accounts[0].client_id, 5);
    assert_eq!(accounts[0].available(), dec("0"));
    assert_eq!(accounts[0].held(), dec("0"));
    assert_eq!(accounts[0].total(), dec("0"));
    assert!(!accounts[0].locked());
}

/// Held funds equal the client's disputed deposits, and the lock follows the
/// chargeback.
#[test]
fn held_matches_disputed_deposits() {
    let mut ledger = Ledger::new();
    ledger.apply(Operation::Deposit { client: 1, tx: 1, amount: dec("1.5") });
    ledger.apply(Operation::Deposit { client: 1, tx: 2, amount: dec("2.25") });
    ledger.apply(Operation::Deposit { client: 1, tx: 3, amount: dec("4") });
    ledger.apply(Operation::Dispute { client: 1, tx: 1 });
    ledger.apply(Operation::Dispute { client: 1, tx: 3 });
    assert_eq!(ledger.account(1).unwrap().held(), dec("5.5"));
    assert!(!ledger.account(1).unwrap().locked());
    ledger.apply(Operation::Chargeback { client: 1, tx: 3 });
    assert_eq!(ledger.account(1).unwrap().held(), dec("1.5"));
    assert!(ledger.account(1).unwrap().locked());
}
