use kafka_client::error::ClientError;
use kafka_client::producer::{
    delivery_outcome, numbered_record, numbered_records, push_decimal, test_record, BatchProgress,
    DeliveryReceipt,
};

#[test]
fn delivery_outcome_gives_receipt() {
    let r = delivery_outcome(Ok((3, 17)));
    assert_eq!(r.unwrap(), DeliveryReceipt { partition: 3, offset: 17 });
}

#[test]
fn delivery_outcome_reports_failure() {
    let r = delivery_outcome(Err("timed out".to_string()));
    match r {
        Err(ClientError::DeliveryFailed(reason)) => assert_eq!(reason, "timed out"),
        other => panic!("unexpected {:?}", other),
    }
}

#[test]
fn decimal_digits() {
    for (n, s) in [(0usize, "0"), (7, "7"), (10, "10"), (305, "305"), (usize::MAX, "18446744073709551615")] {
        let mut out = "n=".to_string();
        push_decimal(&mut out, n);
        assert_eq!(out, format!("n={}", s));
    }
}

#[test]
fn numbered_record_text() {
    let (key, payload) = numbered_record(12);
    assert_eq!(key, "test-key-12");
    assert_eq!(payload, "Тестовое сообщение номер 12");
}

#[test]
fn numbered_records_start_at_one() {
    let records = numbered_records(3);
    assert_eq!(records.len(), 3);
    assert_eq!(records[0].0, "test-key-1");
    assert_eq!(records[2].0, "test-key-3");
    assert_eq!(records[2].1, "Тестовое сообщение номер 3");
    assert!(numbered_records(0).is_empty());
}

#[test]
fn single_test_record() {
    let (key, payload) = test_record();
    assert_eq!(key, "test-key");
    assert_eq!(payload, "Привет из Rust Kafka Producer! Это тестовое сообщение.");
}

#[test]
fn failed_record_does_not_stop_the_batch() {
    let records = numbered_records(5);
    let mut progress = BatchProgress::new(records.len());
    let mut sent = Vec::new();
    let mut position = 0;
    while !progress.is_done() {
        let (key, _payload) = &records[position];
        sent.push(key.clone());
        let outcome = if position == 2 {
            delivery_outcome(Err("not confirmed".to_string()))
        } else {
            delivery_outcome(Ok((0, position as i64)))
        };
        progress.record(&outcome);
        position += 1;
    }
    assert_eq!(sent.len(), 5);
    assert_eq!(sent[3], "test-key-4");
    assert_eq!(sent[4], "test-key-5");
    assert_eq!(progress.attempted, 5);
    assert_eq!(progress.failed, vec![2]);
    assert_eq!(progress.receipts.len(), 4);
    assert_eq!(progress.receipts[3], DeliveryReceipt { partition: 0, offset: 4 });
}

#[test]
fn empty_batch_is_done_at_once() {
    let progress = BatchProgress::new(0);
    assert!(progress.is_done());
    assert!(progress.failed.is_empty());
}
