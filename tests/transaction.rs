// The record validator and the ingestion policy.
use payment_engine::ingest::{
    process_csv_from_buffer, process_csv_into_ledger, process_records, validate_records, IngestError,
    RecordError, RecordFailure,
};
use payment_engine::ledger::{Ledger, LedgerError};
use payment_engine::transaction::{
    amount_units, process_row, translate_trx_type, Field, TransactionType, ValidationError,
};

fn record(fields: &[&str]) -> Vec<String> {
    fields.iter().map(|f| f.to_string()).collect()
}

fn first_error(csv_content: &str) -> RecordError {
    match process_csv_from_buffer(csv_content, false) {
        Err(IngestError::Record(f)) => f.error,
        _ => panic!("expected a failing record"),
    }
}

#[test]
fn test_process_success() {
    let csv_content =
        "type, client, tx, amount\ndeposit,101,1000001,123.4567\nwithdraw,202,1000002,78.90\ndeposit,101,1000003,50.00";
    let report = process_csv_from_buffer(csv_content, false).unwrap();
    let processed_transactions = report.accepted;

    assert_eq!(processed_transactions.len(), 3);
    assert_eq!(processed_transactions[0].tx_type, TransactionType::Deposit);
    assert_eq!(processed_transactions[0].client_id, 101);
    assert_eq!(processed_transactions[0].tx_id, 1000001);
    assert_eq!(processed_transactions[0].amount, 1234567);

    assert_eq!(processed_transactions[1].tx_type, TransactionType::Withdrawal);
    assert_eq!(processed_transactions[1].client_id, 202);
    assert_eq!(processed_transactions[1].tx_id, 1000002);
    assert_eq!(processed_transactions[1].amount, 789000);

    assert_eq!(processed_transactions[2].tx_type, TransactionType::Deposit);
    assert_eq!(processed_transactions[2].client_id, 101);
    assert_eq!(processed_transactions[2].tx_id, 1000003);
    assert_eq!(processed_transactions[2].amount, 500000);
}

#[test]
fn test_process_invalid_client_id() {
    let csv_content = "type, client, tx, amount\ndeposit,abc,1000001,100.00";
    assert_eq!(
        first_error(csv_content),
        RecordError::Validation(ValidationError::MalformedField(Field::Client))
    );
}

#[test]
fn test_amount_precesion() {
    let csv_content = "type, client, tx, amount\ndeposit,101,1000001,123.45678";
    assert_eq!(first_error(csv_content), RecordError::Validation(ValidationError::PrecisionExceeded));

    let csv_content = "type, client, tx, amount\ndeposit,101,1000001,123.0";
    process_csv_from_buffer(csv_content, false).unwrap();

    let csv_content = "type, client, tx, amount\ndeposit,101,1000001,123";
    process_csv_from_buffer(csv_content, false).unwrap();
}

#[test]
fn test_process_invalid_tx_id() {
    let csv_content = "type, client, tx, amount\ndeposit,101,xyz,100.00";
    assert_eq!(
        first_error(csv_content),
        RecordError::Validation(ValidationError::MalformedField(Field::Tx))
    );
}

#[test]
fn test_process_invalid_amount() {
    let csv_content = "type, client, tx, amount\ndeposit,101,1000001,not_a_number";
    assert_eq!(
        first_error(csv_content),
        RecordError::Validation(ValidationError::MalformedField(Field::Amount))
    );
}

#[test]
fn test_process_invalid_record_format() {
    let csv_content = "type, client, tx, amount\ndeposit,101,1000001"; // Missing amount field
    assert_eq!(first_error(csv_content), RecordError::Validation(ValidationError::MalformedRecord));
}

#[test]
fn test_process_csv_from_buffer_success() {
    let csv_content =
        "type, client, tx, amount\ndeposit,101,1000001,123.4567\nwithdraw,202,1000002,78.90";
    let processed_transactions = process_csv_from_buffer(csv_content, false).unwrap().accepted;

    assert_eq!(processed_transactions.len(), 2);
    assert_eq!(processed_transactions[0].tx_type, TransactionType::Deposit);
    assert_eq!(processed_transactions[0].client_id, 101);
    assert_eq!(processed_transactions[0].tx_id, 1000001);
    assert_eq!(processed_transactions[0].amount, 1234567);
    assert_eq!(processed_transactions[1].amount, 789000);
}

#[test]
fn precision_normalizes_to_same_value() {
    assert_eq!(amount_units(12345678, 5), Err(ValidationError::PrecisionExceeded));
    assert_eq!(amount_units(1230, 1), Ok(1230000));
    assert_eq!(amount_units(123, 0), Ok(1230000));
    assert_eq!(amount_units(1230000, 4), Ok(1230000));
    assert_eq!(amount_units(12300000, 5), Ok(1230000));
    let a = process_row(&record(&["deposit", "1", "1", "123.0"]), 0).unwrap();
    let b = process_row(&record(&["deposit", "1", "1", "123"]), 0).unwrap();
    let c = process_row(&record(&["deposit", "1", "1", "123.0000"]), 0).unwrap();
    assert_eq!(a.amount, 1230000);
    assert_eq!(a.amount, b.amount);
    assert_eq!(b.amount, c.amount);
    assert_eq!(
        process_row(&record(&["deposit", "1", "1", "123.45678"]), 0),
        Err(ValidationError::PrecisionExceeded)
    );
}

#[test]
fn amount_edges() {
    assert_eq!(amount_units(-1, 0), Err(ValidationError::MalformedField(Field::Amount)));
    assert_eq!(amount_units(79228162514264337593543950335, 4), Ok(79228162514264337593543950335));
    assert_eq!(
        amount_units(79228162514264337593543950335, 3),
        Err(ValidationError::MalformedField(Field::Amount))
    );
    assert_eq!(amount_units(0, 60), Ok(0));
    assert_eq!(amount_units(5, 60), Err(ValidationError::PrecisionExceeded));
    assert_eq!(
        process_row(&record(&["deposit", "1", "1", "-2.5"]), 0),
        Err(ValidationError::MalformedField(Field::Amount))
    );
}

#[test]
fn type_spellings() {
    assert_eq!(translate_trx_type("deposit"), Ok(TransactionType::Deposit));
    assert_eq!(translate_trx_type("withdrawal"), Ok(TransactionType::Withdrawal));
    assert_eq!(translate_trx_type("withdraw"), Ok(TransactionType::Withdrawal));
    assert_eq!(translate_trx_type("dispute"), Ok(TransactionType::Dispute));
    assert_eq!(translate_trx_type("resolve"), Ok(TransactionType::Resolve));
    assert_eq!(translate_trx_type("chargeback"), Ok(TransactionType::Chargeback));
    assert_eq!(translate_trx_type("Deposit"), Err(ValidationError::UnknownTransactionType));
    assert_eq!(translate_trx_type("refund"), Err(ValidationError::UnknownTransactionType));
    assert_eq!(translate_trx_type(""), Err(ValidationError::UnknownTransactionType));
}

#[test]
fn row_fields_parsed() {
    let t = process_row(&record(&["resolve", "+65535", "4294967295", "0.0001"]), 9).unwrap();
    assert_eq!(t.tx_type, TransactionType::Resolve);
    assert_eq!(t.client_id, 65535);
    assert_eq!(t.tx_id, 4294967295);
    assert_eq!(t.amount, 1);
    assert_eq!(t.seq_num, 9);
    assert_eq!(
        process_row(&record(&["deposit", "65536", "1", "1"]), 0),
        Err(ValidationError::MalformedField(Field::Client))
    );
    assert_eq!(
        process_row(&record(&["deposit", "1", "4294967296", "1"]), 0),
        Err(ValidationError::MalformedField(Field::Tx))
    );
    assert_eq!(
        process_row(&record(&["deposit", "-1", "1", "1"]), 0),
        Err(ValidationError::MalformedField(Field::Client))
    );
    assert_eq!(
        process_row(&record(&["deposit", "1", "1", "1", "1"]), 0),
        Err(ValidationError::MalformedRecord)
    );
    assert_eq!(
        process_row(&record(&["transfer", "1", "1", "1"]), 0),
        Err(ValidationError::UnknownTransactionType)
    );
}

#[test]
fn fields_are_trimmed() {
    let rep = process_csv_from_buffer("type,client,tx,amount\n  deposit ,  7 , 8 ,  1.5  ", false).unwrap();
    assert_eq!(rep.accepted.len(), 1);
    assert_eq!(rep.accepted[0].client_id, 7);
    assert_eq!(rep.accepted[0].tx_id, 8);
    assert_eq!(rep.accepted[0].amount, 15000);
}

#[test]
fn sequence_numbers_skip_malformed_records() {
    let records = vec![
        record(&["deposit", "1", "1", "1.0"]),
        record(&["deposit", "1"]),
        record(&["deposit", "x", "2", "1.0"]),
        record(&["deposit", "1", "3", "1.0"]),
    ];
    let rep = validate_records(&records, true).unwrap();
    assert_eq!(rep.accepted.len(), 2);
    assert_eq!(rep.accepted[0].seq_num, 0);
    // the short record takes no number; the bad client id takes 1
    assert_eq!(rep.accepted[1].seq_num, 2);
    assert_eq!(
        rep.failures,
        vec![
            RecordFailure { index: 1, error: RecordError::Validation(ValidationError::MalformedRecord) },
            RecordFailure {
                index: 2,
                error: RecordError::Validation(ValidationError::MalformedField(Field::Client))
            },
        ]
    );
}

#[test]
fn continue_policy_applies_every_valid_record() {
    let mut ledger = Ledger::new();
    let csv_content = "type,client,tx,amount\ndeposit,1,1,200.00\nwithdrawal,1,2,300.00\ndeposit,1,1,5.00\nbogus,1,3,1\ndeposit,1,4,10.00";
    let rep = process_csv_into_ledger(&mut ledger, csv_content, true).unwrap();
    assert_eq!(rep.accepted.len(), 2);
    assert_eq!(
        rep.failures,
        vec![
            RecordFailure { index: 1, error: RecordError::Ledger(LedgerError::InsufficientFunds) },
            RecordFailure { index: 2, error: RecordError::Ledger(LedgerError::DuplicateTransaction) },
            RecordFailure { index: 3, error: RecordError::Validation(ValidationError::UnknownTransactionType) },
        ]
    );
    assert_eq!(ledger.account(1).unwrap().available, 2100000);
}

#[test]
fn stop_policy_aborts_at_first_failure() {
    let mut ledger = Ledger::new();
    let records = vec![
        record(&["deposit", "1", "1", "200.00"]),
        record(&["withdrawal", "1", "2", "300.00"]),
        record(&["deposit", "1", "3", "10.00"]),
    ];
    let r = process_records(&mut ledger, &records, false);
    assert_eq!(
        r.err(),
        Some(RecordFailure { index: 1, error: RecordError::Ledger(LedgerError::InsufficientFunds) })
    );
    // what came before stays applied; what came after was never attempted
    assert_eq!(ledger.account(1).unwrap().available, 2000000);
    assert!(!ledger.is_existing_transaction(3));
}

#[test]
fn scenario_deposit_dispute_chargeback_from_text() {
    let mut ledger = Ledger::new();
    let csv_content = "type,client,tx,amount\ndeposit,1,1,400.00\ndeposit,1,2,400.00\ndispute,1,2,400.00\nchargeback,1,2,400.00";
    let rep = process_csv_into_ledger(&mut ledger, csv_content, false).unwrap();
    assert_eq!(rep.accepted.len(), 4);
    let a = ledger.account(1).unwrap();
    assert_eq!(a.available, 4000000);
    assert_eq!(a.held, 0);
    assert!(a.locked);
}

#[test]
fn empty_input_has_no_records() {
    let rep = process_csv_from_buffer("type,client,tx,amount\n", false).unwrap();
    assert!(rep.accepted.is_empty());
    assert!(rep.failures.is_empty());
    assert!(validate_records(&vec![], false).unwrap().accepted.is_empty());
}
