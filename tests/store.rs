use event_processing_service::{
    Event, EventPayload, EventStatus, EventType, MemoryStore, StoreError, Timestamp, WaitStep,
};

fn payload(text: &str) -> EventPayload {
    EventPayload(serde_json::from_str(text).unwrap())
}

fn event(id: &str, body: &str) -> Event {
    Event {
        event_id: id.to_string(),
        event_type: EventType::UserLoginFailed,
        occurred_at: Timestamp { micros: chrono::Utc::now().timestamp_micros() },
        payload: payload(body),
    }
}

#[test]
fn insert_and_get() {
    let mut store = MemoryStore::new();
    let ev = event("e1", r#"{"user_id": "u1"}"#);
    let (_rec, inserted) = store.insert_if_absent(ev.clone());
    assert!(inserted);
    let got = store.get(&ev.event_id).unwrap();
    assert_eq!(got.event.event_id, "e1");
    assert_eq!(got.status, EventStatus::Received);

    // idempotent insert
    let (_rec2, inserted2) = store.insert_if_absent(ev);
    assert!(!inserted2);
}

#[test]
fn claim_and_complete() {
    let mut store = MemoryStore::new();
    let ev = event("e2", "{}");
    let (_rec, _ins) = store.insert_if_absent(ev.clone());
    let claimed = store.claim_for_processing(&ev.event_id).unwrap();
    assert!(claimed);
    // second claim returns false because the record is Processing now
    let claimed2 = store.claim_for_processing(&ev.event_id).unwrap();
    assert!(!claimed2);

    store.set_result(&ev.event_id, serde_json::from_str(r#"{"ok": true}"#).unwrap()).unwrap();
    let got = store.get(&ev.event_id).unwrap();
    assert_eq!(got.status, EventStatus::Completed);
    assert_eq!(got.result.unwrap()["ok"], serde_json::Value::Bool(true));
}

#[test]
fn set_failed_marks_failed() {
    let mut store = MemoryStore::new();
    let ev = event("e3", "{}");
    let (_rec, _ins) = store.insert_if_absent(ev.clone());
    // Failed is entered only from Processing
    assert!(store.claim_for_processing(&ev.event_id).unwrap());
    store.set_failed(&ev.event_id, "boom".to_string()).unwrap();
    let got = store.get(&ev.event_id).unwrap();
    assert_eq!(got.status, EventStatus::Failed);
    assert_eq!(got.last_error.unwrap(), "boom");
}

#[test]
fn set_failed_on_received_record_is_rejected() {
    let mut store = MemoryStore::new();
    let ev = event("e3b", "{}");
    store.insert_if_absent(ev.clone());
    assert_eq!(store.set_failed(&ev.event_id, "boom".to_string()), Err(StoreError::InvalidTransition));
    let got = store.get(&ev.event_id).unwrap();
    assert_eq!(got.status, EventStatus::Received);
    assert_eq!(got.last_error, None);
}

#[test]
fn get_event_missing_returns_404() {
    let store = MemoryStore::new();
    assert!(matches!(store.get("nope"), Err(StoreError::NotFound)));
}

#[test]
fn operations_on_unknown_id_are_not_found() {
    let mut store = MemoryStore::new();
    assert_eq!(store.claim_for_processing("x"), Err(StoreError::NotFound));
    assert_eq!(store.set_result("x", serde_json::Value::Null), Err(StoreError::NotFound));
    assert_eq!(store.set_failed("x", "e".to_string()), Err(StoreError::NotFound));
    assert_eq!(store.set_error_and_mark_received("x", "e".to_string()), Err(StoreError::NotFound));
}

#[test]
fn duplicate_insert_returns_existing_record_unchanged() {
    let mut store = MemoryStore::new();
    let first = event("dup", r#"{"n": 1}"#);
    let (rec1, ins1) = store.insert_if_absent(first);
    assert!(ins1);
    assert!(store.claim_for_processing("dup").unwrap());
    let second = event("dup", r#"{"n": 2}"#);
    let (rec2, ins2) = store.insert_if_absent(second);
    assert!(!ins2);
    assert_eq!(rec2.status, EventStatus::Processing);
    assert_eq!(rec2.attempts, 1);
    assert_eq!(rec2.event.payload, rec1.event.payload);
    assert_eq!(rec2.created_at, rec1.created_at);
}

#[test]
fn only_one_of_many_claims_wins() {
    let mut store = MemoryStore::new();
    store.insert_if_absent(event("c1", "{}"));
    let results: Vec<bool> = (0..8).map(|_| store.claim_for_processing("c1").unwrap()).collect();
    assert_eq!(results.iter().filter(|b| **b).count(), 1);
    assert!(results[0]);
    assert_eq!(store.get("c1").unwrap().attempts, 1);
}

#[test]
fn claim_of_terminal_record_changes_nothing() {
    let mut store = MemoryStore::new();
    store.insert_if_absent(event("t1", "{}"));
    assert!(store.claim_for_processing("t1").unwrap());
    store.set_result("t1", serde_json::Value::Bool(true)).unwrap();
    let before = store.get("t1").unwrap();
    assert!(!store.claim_for_processing("t1").unwrap());
    let after = store.get("t1").unwrap();
    assert_eq!(after.status, EventStatus::Completed);
    assert_eq!(after.attempts, before.attempts);
    assert_eq!(after.updated_at, before.updated_at);
}

#[test]
fn retry_returns_record_to_received_with_error() {
    let mut store = MemoryStore::new();
    store.insert_if_absent(event("r1", "{}"));
    assert!(store.claim_for_processing("r1").unwrap());
    store.set_error_and_mark_received("r1", "transient".to_string()).unwrap();
    let got = store.get("r1").unwrap();
    assert_eq!(got.status, EventStatus::Received);
    assert_eq!(got.attempts, 1);
    assert_eq!(got.last_error.as_deref(), Some("transient"));
    assert!(store.claim_for_processing("r1").unwrap());
    assert_eq!(store.get("r1").unwrap().attempts, 2);
}

#[test]
fn set_result_requires_processing() {
    let mut store = MemoryStore::new();
    store.insert_if_absent(event("s1", "{}"));
    assert_eq!(store.set_result("s1", serde_json::Value::Null), Err(StoreError::InvalidTransition));
    assert_eq!(
        store.set_error_and_mark_received("s1", "e".to_string()),
        Err(StoreError::InvalidTransition)
    );
    assert_eq!(store.get("s1").unwrap().result, None);
}

#[test]
fn wait_reports_reached_status() {
    let mut store = MemoryStore::new();
    store.insert_if_absent(event("w1", "{}"));
    assert!(store.claim_for_processing("w1").unwrap());
    assert_eq!(
        store.wait_for_status("w1", EventStatus::Completed, 0, 5000),
        WaitStep::AwaitChange { remaining_ms: 5000 }
    );
    store.set_result("w1", serde_json::Value::Null).unwrap();
    assert_eq!(store.wait_for_status("w1", EventStatus::Completed, 10, 5000), WaitStep::Reached);
}

#[test]
fn wait_times_out_for_record_stuck_in_processing() {
    let mut store = MemoryStore::new();
    store.insert_if_absent(event("w2", "{}"));
    assert!(store.claim_for_processing("w2").unwrap());
    assert_eq!(
        store.wait_for_status("w2", EventStatus::Completed, 4990, 5000),
        WaitStep::AwaitChange { remaining_ms: 10 }
    );
    assert_eq!(store.wait_for_status("w2", EventStatus::Completed, 5000, 5000), WaitStep::TimedOut);
}

#[test]
fn wait_polls_while_id_is_unknown() {
    let store = MemoryStore::new();
    assert_eq!(store.wait_for_status("w3", EventStatus::Completed, 0, 1000), WaitStep::Poll { delay_ms: 50 });
    assert_eq!(store.wait_for_status("w3", EventStatus::Completed, 980, 1000), WaitStep::Poll { delay_ms: 20 });
    assert_eq!(store.wait_for_status("w3", EventStatus::Completed, 1000, 1000), WaitStep::TimedOut);
}
