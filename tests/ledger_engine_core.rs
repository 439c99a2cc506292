use ledger_engine::accounts::AccountBalance;
use ledger_engine::custom_errors::{TransactionErrorType, TransactionRecordError};
use ledger_engine::ledger::{process, Ledger};
use ledger_engine::transactions::{Transaction, TransactionType};

fn tx(kind: TransactionType, client: u16, id: u32, amount: Option<i64>) -> Transaction {
    Transaction { tx_type: kind, client_id: client, tx_id: id, amount }
}

fn acct(client: u16, available: i64, held: i64, locked: bool) -> AccountBalance {
    AccountBalance { client, available, held, locked }
}

#[test]
fn total_is_available_plus_held() {
    assert_eq!(acct(1, 15000, 2500, false).get_total(), 17500);
    assert_eq!(acct(1, i64::MAX, i64::MAX, false).get_total(), 2 * (i64::MAX as i128));
    assert_eq!(acct(1, -10000, 10000, true).get_total(), 0);
}

#[test]
fn single_deposit() {
    let r = process(&vec![tx(TransactionType::Deposit, 3, 1, Some(12345))]).unwrap();
    assert_eq!(r, vec![acct(3, 12345, 0, false)]);
}

#[test]
fn deposit_then_withdrawal_within_funds() {
    let r = process(&vec![
        tx(TransactionType::Deposit, 1, 1, Some(30000)),
        tx(TransactionType::Withdrawal, 1, 2, Some(10000)),
    ])
    .unwrap();
    assert_eq!(r, vec![acct(1, 20000, 0, false)]);
    let r = process(&vec![
        tx(TransactionType::Deposit, 1, 1, Some(30000)),
        tx(TransactionType::Withdrawal, 1, 2, Some(30000)),
    ])
    .unwrap();
    assert_eq!(r, vec![acct(1, 0, 0, false)]);
}

#[test]
fn deposit_then_withdrawal_beyond_funds() {
    let r = process(&vec![
        tx(TransactionType::Deposit, 1, 1, Some(30000)),
        tx(TransactionType::Withdrawal, 1, 2, Some(30001)),
    ])
    .unwrap();
    assert_eq!(r, vec![acct(1, 30000, 0, false)]);
}

#[test]
fn dispute_moves_to_held() {
    let r = process(&vec![
        tx(TransactionType::Deposit, 1, 1, Some(10000)),
        tx(TransactionType::Dispute, 1, 1, None),
    ])
    .unwrap();
    assert_eq!(r, vec![acct(1, 0, 10000, false)]);
}

#[test]
fn resolve_moves_back() {
    let r = process(&vec![
        tx(TransactionType::Deposit, 1, 1, Some(10000)),
        tx(TransactionType::Dispute, 1, 1, None),
        tx(TransactionType::Resolve, 1, 1, None),
    ])
    .unwrap();
    assert_eq!(r, vec![acct(1, 10000, 0, false)]);
}

#[test]
fn chargeback_locks() {
    let r = process(&vec![
        tx(TransactionType::Deposit, 1, 1, Some(10000)),
        tx(TransactionType::Dispute, 1, 1, None),
        tx(TransactionType::Chargeback, 1, 1, None),
    ])
    .unwrap();
    assert_eq!(r, vec![acct(1, 0, 0, true)]);
}

#[test]
fn unknown_references_change_nothing() {
    let mut ledger = Ledger::new();
    ledger.apply(&tx(TransactionType::Deposit, 1, 1, Some(10000))).unwrap();
    let before = ledger.snapshot();
    for kind in [TransactionType::Dispute, TransactionType::Resolve, TransactionType::Chargeback] {
        assert_eq!(ledger.apply(&tx(kind, 1, 99, None)), Ok(()));
        assert_eq!(ledger.snapshot(), before);
    }
    assert_eq!(ledger.apply(&tx(TransactionType::Dispute, 2, 99, None)), Ok(()));
    assert_eq!(ledger.snapshot(), vec![acct(1, 10000, 0, false), acct(2, 0, 0, false)]);
}

#[test]
fn missing_amounts_are_errors() {
    let mut ledger = Ledger::new();
    assert_eq!(
        ledger.apply(&tx(TransactionType::Deposit, 1, 1, None)),
        Err(TransactionRecordError { error_type: TransactionErrorType::NoDepositAmount })
    );
    assert_eq!(
        ledger.apply(&tx(TransactionType::Withdrawal, 1, 1, None)),
        Err(TransactionRecordError { error_type: TransactionErrorType::NoWithdrawalAmount })
    );
    assert_eq!(
        process(&vec![tx(TransactionType::Withdrawal, 1, 1, None), tx(TransactionType::Deposit, 1, 2, Some(1))]),
        Err(TransactionRecordError { error_type: TransactionErrorType::NoWithdrawalAmount })
    );
}

#[test]
fn locked_account_is_frozen() {
    let mut ledger = Ledger::new();
    for t in [
        tx(TransactionType::Deposit, 1, 1, Some(10000)),
        tx(TransactionType::Deposit, 1, 2, Some(5000)),
        tx(TransactionType::Dispute, 1, 1, None),
        tx(TransactionType::Chargeback, 1, 1, None),
    ] {
        ledger.apply(&t).unwrap();
    }
    let frozen = ledger.snapshot();
    assert_eq!(frozen, vec![acct(1, 5000, 0, true)]);
    for t in [
        tx(TransactionType::Deposit, 1, 3, Some(10000)),
        tx(TransactionType::Withdrawal, 1, 4, Some(1000)),
        tx(TransactionType::Dispute, 1, 2, None),
        tx(TransactionType::Resolve, 1, 1, None),
        tx(TransactionType::Chargeback, 1, 1, None),
        tx(TransactionType::Deposit, 1, 5, None),
    ] {
        assert_eq!(ledger.apply(&t), Ok(()));
        assert_eq!(ledger.snapshot(), frozen);
    }
}

#[test]
fn snapshot_sorted_regardless_of_arrival() {
    let r = process(&vec![
        tx(TransactionType::Deposit, 9, 1, Some(1)),
        tx(TransactionType::Deposit, 4, 2, Some(2)),
        tx(TransactionType::Deposit, 7, 3, Some(3)),
        tx(TransactionType::Deposit, 4, 4, Some(4)),
    ])
    .unwrap();
    assert_eq!(r, vec![acct(4, 6, 0, false), acct(7, 3, 0, false), acct(9, 1, 0, false)]);
}

#[test]
fn overflowing_deposit_is_ignored() {
    let r = process(&vec![
        tx(TransactionType::Deposit, 1, 1, Some(i64::MAX)),
        tx(TransactionType::Deposit, 1, 2, Some(1)),
    ])
    .unwrap();
    assert_eq!(r, vec![acct(1, i64::MAX, 0, false)]);
}

#[test]
fn kind_names() {
    assert_eq!(TransactionType::try_from(b"deposit"), Ok(TransactionType::Deposit));
    assert_eq!(TransactionType::try_from(b"withdrawal"), Ok(TransactionType::Withdrawal));
    assert_eq!(TransactionType::try_from(b"dispute"), Ok(TransactionType::Dispute));
    assert_eq!(TransactionType::try_from(b"resolve"), Ok(TransactionType::Resolve));
    assert_eq!(TransactionType::try_from(b"chargeback"), Ok(TransactionType::Chargeback));
    assert!(TransactionType::try_from(b"deposits").is_err());
    assert!(TransactionType::try_from(b"").is_err());
}

#[test]
fn error_messages() {
    assert_eq!(
        TransactionRecordError { error_type: TransactionErrorType::NoDepositAmount }.message(),
        "A deposit must have an amount"
    );
    assert_eq!(
        TransactionRecordError { error_type: TransactionErrorType::NoWithdrawalAmount }.message(),
        "An withdrawal must have an amount"
    );
    assert_eq!(
        ledger_engine::transactions::TransactionTypeFromStrError.message(),
        "Could not decode CSV type into the transaction type enum"
    );
}
