use kafka_client::consumer::{process_message, LoopAction, MessageInfo, RawRecord, RetryState, TextView, MAX_RETRIES};
use kafka_client::error::{ClientError, DecodeFault};

fn raw(key: TextView, payload: TextView, timestamp: Option<i64>) -> RawRecord {
    RawRecord {
        topic: "orders".to_string(),
        partition: 2,
        offset: 41,
        key,
        payload,
        timestamp,
    }
}

fn text(s: &str) -> TextView {
    TextView::Text(s.to_string())
}

fn decode_ok(r: RawRecord) -> MessageInfo {
    match process_message(r) {
        Ok(m) => m,
        Err(e) => panic!("unexpected error {:?}", e),
    }
}

#[test]
fn empty_key_becomes_absent() {
    let m = decode_ok(raw(text(""), text("v"), Some(5)));
    assert_eq!(m.key, None);
}

#[test]
fn non_empty_key_is_kept_verbatim() {
    let m = decode_ok(raw(text(" k 1 "), text("v"), Some(5)));
    assert_eq!(m.key, Some(" k 1 ".to_string()));
}

#[test]
fn absent_or_binary_key_becomes_absent() {
    assert_eq!(decode_ok(raw(TextView::Absent, text("v"), None)).key, None);
    assert_eq!(decode_ok(raw(TextView::NotText, text("v"), None)).key, None);
}

#[test]
fn decoded_fields_are_carried_over() {
    let m = decode_ok(raw(text("k1"), text("v1"), Some(1_700_000_000_000)));
    assert_eq!(m.topic, "orders");
    assert_eq!(m.partition, 2);
    assert_eq!(m.offset, 41);
    assert_eq!(m.payload, "v1");
    assert_eq!(m.timestamp, 1_700_000_000_000);
}

#[test]
fn missing_timestamp_defaults_to_zero() {
    assert_eq!(decode_ok(raw(text("k"), text("v"), None)).timestamp, 0);
}

#[test]
fn absent_payload_fails_to_decode() {
    let r = process_message(raw(text("k"), TextView::Absent, None));
    assert!(matches!(r, Err(ClientError::DecodeFailed(DecodeFault::EmptyPayload))));
}

#[test]
fn binary_payload_fails_to_decode() {
    let r = process_message(raw(text("k"), TextView::NotText, None));
    assert!(matches!(r, Err(ClientError::DecodeFailed(DecodeFault::NotText))));
}

#[test]
fn empty_text_payload_decodes() {
    assert_eq!(decode_ok(raw(text("k"), text(""), None)).payload, "");
}

#[test]
fn transient_errors_back_off_linearly_then_reset() {
    for n in 0..MAX_RETRIES {
        let mut state = RetryState::new();
        let mut waits = Vec::new();
        for _ in 0..n {
            match state.on_transport_error() {
                LoopAction::Wait(secs) => waits.push(secs),
                other => panic!("unexpected action {:?}", other),
            }
        }
        let expected: Vec<u64> = (1..=n as u64).map(|k| 2 * k).collect();
        assert_eq!(waits, expected);
        assert_eq!(state.attempt_count, n);
        let action = state.on_record(raw(text("k"), text("v"), None));
        assert!(matches!(action, LoopAction::Deliver(_)));
        assert_eq!(state.attempt_count, 0);
    }
}

#[test]
fn four_errors_wait_two_to_eight_seconds() {
    let mut state = RetryState::new();
    let mut waits = Vec::new();
    for _ in 0..4 {
        if let LoopAction::Wait(secs) = state.on_transport_error() {
            waits.push(secs);
        }
    }
    assert_eq!(waits, vec![2, 4, 6, 8]);
}

#[test]
fn fifth_consecutive_error_exhausts_retries() {
    let mut state = RetryState::new();
    let mut receives = 0;
    let outcome = loop {
        receives += 1;
        match state.on_transport_error() {
            LoopAction::Wait(_) => continue,
            LoopAction::Stop(e) => break e,
            LoopAction::Deliver(_) | LoopAction::Cancelled => panic!("unexpected action"),
        }
    };
    assert!(matches!(outcome, ClientError::RetriesExhausted));
    assert_eq!(receives, 5);
}

#[test]
fn success_between_errors_restarts_the_count() {
    let mut state = RetryState::new();
    for _ in 0..4 {
        assert!(matches!(state.on_transport_error(), LoopAction::Wait(_)));
    }
    assert!(matches!(state.on_record(raw(text("k"), text("v"), None)), LoopAction::Deliver(_)));
    assert!(matches!(state.on_transport_error(), LoopAction::Wait(2)));
}

#[test]
fn undecodable_record_stops_the_loop() {
    let mut state = RetryState::new();
    assert!(matches!(state.on_transport_error(), LoopAction::Wait(2)));
    let action = state.on_record(raw(text("k"), TextView::NotText, None));
    assert!(matches!(action, LoopAction::Stop(ClientError::DecodeFailed(DecodeFault::NotText))));
    let action = RetryState::new().on_record(raw(text("k"), TextView::Absent, None));
    assert!(matches!(action, LoopAction::Stop(ClientError::DecodeFailed(DecodeFault::EmptyPayload))));
}

#[test]
fn cancellation_ends_the_loop_without_error() {
    let mut state = RetryState::new();
    assert!(matches!(state.on_transport_error(), LoopAction::Wait(2)));
    assert!(matches!(state.on_cancel(), LoopAction::Cancelled));
    assert_eq!(state.attempt_count, 1);
}
