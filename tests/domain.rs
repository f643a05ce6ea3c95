use event_processing_service::{DomainError, EventStatus, EventType, RequestId};

#[test]
fn transition_table_is_exact() {
    let all = [
        EventStatus::Received,
        EventStatus::Processing,
        EventStatus::Completed,
        EventStatus::Failed,
    ];
    let allowed = [
        (EventStatus::Received, EventStatus::Processing),
        (EventStatus::Processing, EventStatus::Completed),
        (EventStatus::Processing, EventStatus::Failed),
        (EventStatus::Processing, EventStatus::Received),
    ];
    for from in all {
        for to in all {
            assert_eq!(from.can_transition(to), allowed.contains(&(from, to)), "{:?} -> {:?}", from, to);
        }
    }
}

#[test]
fn checked_transition_reports_invalid_moves() {
    assert_eq!(EventStatus::Received.transition(EventStatus::Processing), Ok(EventStatus::Processing));
    assert_eq!(EventStatus::Completed.transition(EventStatus::Received), Err(DomainError::InvalidTransition));
    assert_eq!(EventStatus::Received.transition(EventStatus::Completed), Err(DomainError::InvalidTransition));
}

#[test]
fn status_names() {
    assert_eq!(EventStatus::Received.name(), "Received");
    assert_eq!(EventStatus::Processing.name(), "Processing");
    assert_eq!(EventStatus::Completed.name(), "Completed");
    assert_eq!(EventStatus::Failed.name(), "Failed");
}

#[test]
fn event_type_tags_round_trip() {
    assert_eq!(EventType::from_tag("user.login_failed".to_string()), EventType::UserLoginFailed);
    assert_eq!(EventType::from_tag("order.placed".to_string()), EventType::Other("order.placed".to_string()));
    assert_eq!(EventType::UserLoginFailed.into_tag(), "user.login_failed");
    assert_eq!(EventType::Other("x.y".to_string()).into_tag(), "x.y");
}

#[test]
fn request_id_extractor_generates_uuid_when_missing() {
    let rid = RequestId::resolve(None);
    assert!(!rid.0.is_empty());
    assert_eq!(rid.0.len(), 36);
    assert_ne!(RequestId::resolve(None), rid);
}

#[test]
fn request_id_extractor_uses_header() {
    let rid = RequestId::resolve(Some("testid".to_string()));
    assert_eq!(rid.0, "testid");
}
