use ledger_engine::accounts::AccountBalance;
use ledger_engine::decode::{process_csv, DecodeError, ProcessError};
use ledger_engine::render::render;

fn run_csv(input: &str) -> Result<String, ProcessError> {
    let accounts = process_csv(input.as_bytes())?;
    Ok(String::from_utf8(render(&accounts)).unwrap())
}

fn test_csv(input: &str, expected: &str) {
    let output = run_csv(input).unwrap();
    assert_eq!(output, String::from(expected));
}

#[test]
fn test_multiple_clients() {
    test_csv(
        "type, client, tx, amount
deposit, 1, 1, 1.0
deposit, 2, 2, 2.0
deposit, 1, 3, 2.0
withdrawal, 2, 4, 1.5
deposit, 3, 5, 5.5
dispute, 3, 5,
deposit, 1, 6, 1.0
dispute, 1, 3,
chargeback, 1, 3,
deposit, 1, 7, 9.0
",
        r"client, available, held, total, locked
1, 2.0000, 0.0000, 2.0000, true
2, 0.5000, 0.0000, 0.5000, false
3, 0.0000, 5.5000, 5.5000, false",
    );
}

#[test]
fn test_deposit_withdrawal() {
    test_csv(
        "type, client, tx, amount
deposit, 1, 1, 1.0
deposit, 2, 2, 2.0
deposit, 1, 3, 2.0
withdrawal, 1, 4, 1.5
withdrawal, 2, 5, 1.5
",
        r"client, available, held, total, locked
1, 1.5000, 0.0000, 1.5000, false
2, 0.5000, 0.0000, 0.5000, false",
    );
}

#[test]
fn test_missing_tx_dispute() {
    let expected = r"client, available, held, total, locked
1, 1.0000, 0.0000, 1.0000, false";
    test_csv("type, client, tx, amount\ndeposit, 1, 1, 1.0\ndispute, 1, 2,\n", expected);
}

#[test]
fn test_missing_tx_resolve() {
    let expected = r"client, available, held, total, locked
1, 1.0000, 0.0000, 1.0000, false";
    test_csv("type, client, tx, amount\ndeposit, 1, 1, 1.0\nresolve, 1, 2,\nresolve, 1, 1,\n", expected);
}

#[test]
fn test_missing_tx_chargeback() {
    let expected = r"client, available, held, total, locked
1, 1.0000, 0.0000, 1.0000, false";
    test_csv(
        "type, client, tx, amount\ndeposit, 1, 1, 1.0\nchargeback, 1, 2,\nchargeback, 1, 1,\n",
        expected,
    );
}

#[test]
fn test_dispute_chargeback() {
    let expected = r"client, available, held, total, locked
1, 0.0000, 0.0000, 0.0000, true";
    test_csv(
        "type, client, tx, amount\ndeposit, 1, 1, 1.0\ndispute, 1, 1,\nchargeback, 1, 1,\n",
        expected,
    );
}

#[test]
fn test_dispute_resolve() {
    let expected = r"client, available, held, total, locked
1, 1.0000, 0.0000, 1.0000, false";
    test_csv(
        "type, client, tx, amount\ndeposit, 1, 1, 1.0\ndispute, 1, 1,\nresolve, 1, 1,\n",
        expected,
    );
}

#[test]
fn test_dispute() {
    let expected = r"client, available, held, total, locked
1, 0.0000, 1.0000, 1.0000, false";
    test_csv("type, client, tx, amount\ndeposit, 1, 1, 1.0\ndispute, 1, 1,\n", expected);
}

#[test]
fn test_invalid_csv() {
    assert!(run_csv("type, client, tx, amount\ntransfer, 1, 1, 1.0\n").is_err());
}

#[test]
fn test_withdrawal_insufficient_funds() {
    let expected = r"client, available, held, total, locked
1, 1.0000, 0.0000, 1.0000, false";
    test_csv("type, client, tx, amount\ndeposit, 1, 1, 1.0\nwithdrawal, 1, 2, 2.0\n", expected);
}

#[test]
fn empty_input_gives_header_only() {
    assert_eq!(run_csv("").unwrap(), "client, available, held, total, locked");
    assert_eq!(run_csv("type, client, tx, amount\n").unwrap(), "client, available, held, total, locked");
}

#[test]
fn output_sorted_by_client() {
    let accounts = process_csv(
        b"type,client,tx,amount\ndeposit,300,1,1\ndeposit,2,2,1\ndeposit,65535,3,1\ndeposit,0,4,1\n",
    )
    .unwrap();
    let clients: Vec<u16> = accounts.iter().map(|a| a.client).collect();
    assert_eq!(clients, vec![0, 2, 300, 65535]);
}

#[test]
fn missing_deposit_amount_aborts() {
    let r = process_csv(b"type, client, tx, amount\ndeposit, 1, 1, 1.0\ndeposit, 1, 2,\ndeposit, 1, 3, 1.0\n");
    match r {
        Err(ProcessError::Record(e)) => {
            assert_eq!(e.error_type, ledger_engine::custom_errors::TransactionErrorType::NoDepositAmount)
        }
        other => panic!("unexpected {:?}", other),
    }
}

#[test]
fn missing_withdrawal_amount_aborts() {
    let r = process_csv(b"type, client, tx\ndeposit, 1, 1\n");
    assert!(matches!(r, Err(ProcessError::Record(_))));
    let r = process_csv(b"type, client, tx, amount\nwithdrawal, 1, 2\n");
    match r {
        Err(ProcessError::Record(e)) => assert_eq!(
            e.error_type,
            ledger_engine::custom_errors::TransactionErrorType::NoWithdrawalAmount
        ),
        other => panic!("unexpected {:?}", other),
    }
}

#[test]
fn missing_amount_ignored_on_locked_account() {
    let out = run_csv(
        "type, client, tx, amount\ndeposit, 1, 1, 1.0\ndispute, 1, 1,\nchargeback, 1, 1,\ndeposit, 1, 2,\n",
    )
    .unwrap();
    assert_eq!(out, "client, available, held, total, locked\n1, 0.0000, 0.0000, 0.0000, true");
}

#[test]
fn decode_errors() {
    let head = "type, client, tx, amount\n";
    let cases: Vec<(&str, DecodeError)> = vec![
        ("transfer, 1, 1, 1.0", DecodeError::UnknownType),
        ("Deposit, 1, 1, 1.0", DecodeError::UnknownType),
        ("deposit, 65536, 1, 1.0", DecodeError::BadClient),
        ("deposit, -1, 1, 1.0", DecodeError::BadClient),
        ("deposit, 1, 4294967296, 1.0", DecodeError::BadTx),
        ("deposit, 1, x, 1.0", DecodeError::BadTx),
        ("deposit, 1, 1, 1.00001", DecodeError::BadAmount),
        ("deposit, 1, 1, abc", DecodeError::BadAmount),
        ("deposit, 1, 1, .", DecodeError::BadAmount),
        ("deposit, 1", DecodeError::MissingField),
    ];
    for (row, err) in cases {
        let input = format!("{}{}\n", head, row);
        assert_eq!(process_csv(input.as_bytes()), Err(ProcessError::Decode(err)), "{}", row);
    }
}

#[test]
fn decode_error_after_fatal_record_reports_record() {
    let r = process_csv(b"type, client, tx, amount\nwithdrawal, 1, 1,\ntransfer, 1, 2, 1.0\n");
    assert!(matches!(r, Err(ProcessError::Record(_))));
}

#[test]
fn columns_found_by_name() {
    let accounts = process_csv(b"amount,tx,client,type,extra\n2.5,1,7,deposit,x\n").unwrap();
    assert_eq!(
        accounts,
        vec![AccountBalance { client: 7, available: 25000, held: 0, locked: false }]
    );
}

#[test]
fn amounts_to_four_places() {
    let accounts = process_csv(
        b"type,client,tx,amount\ndeposit,1,1,0.0001\ndeposit,2,2,+12.5\ndeposit,3,3,.25\ndeposit,4,4,7.\ndeposit,5,5,-3.1234\n",
    )
    .unwrap();
    let avail: Vec<i64> = accounts.iter().map(|a| a.available).collect();
    assert_eq!(avail, vec![1, 125000, 2500, 70000, -31234]);
}

#[test]
fn negative_balances_render_with_sign() {
    let out = run_csv("type,client,tx,amount\ndeposit,1,1,1.5\nwithdrawal,1,2,1.0\ndispute,1,1,\n").unwrap();
    assert_eq!(out, "client, available, held, total, locked\n1, -1.0000, 1.5000, 0.5000, false");
}

#[test]
fn repeated_resolve_applies_twice() {
    let out = run_csv(
        "type,client,tx,amount\ndeposit,1,1,1.0\ndispute,1,1,\nresolve,1,1,\nresolve,1,1,\n",
    )
    .unwrap();
    assert_eq!(out, "client, available, held, total, locked\n1, 2.0000, -1.0000, 1.0000, false");
}
