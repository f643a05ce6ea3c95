use vstd::prelude::*;

use crate::domain::state::EventStatus;
use crate::domain::time::{current_time, Timestamp};

verus! {

/// serde_json's structured value, carried through the core unread.
#[verifier::external_type_specification]
#[verifier::external_body]
pub struct ExJsonValue(serde_json::Value);

/// Relies on the derived `Clone` of serde_json::Value: the copy is equal,
/// variant for variant and field for field, to the value it was taken from.
pub assume_specification[ <serde_json::Value as Clone>::clone ](v: &serde_json::Value) -> (r:
    serde_json::Value)
    ensures
        r == *v,
;

/// The tag of the one event type the core knows by name.
pub open spec fn login_failed_tag() -> Seq<char> {
    "user.login_failed"@
}

/// Type of an event: the known tags, and every other tag kept as written.
#[derive(Debug, PartialEq, Eq)]
pub enum EventType {
    UserLoginFailed,
    Other(String),
}

/// The tag that an event type stands for.
pub open spec fn type_tag(t: EventType) -> Seq<char> {
    match t {
        EventType::UserLoginFailed => login_failed_tag(),
        EventType::Other(s) => s@,
    }
}

impl EventType {
    /// Maps a tag to its event type; a tag the core does not know becomes
    /// `Other`, carrying the tag unchanged.
    pub fn from_tag(s: String) -> (r: EventType)
        ensures
            s@ == login_failed_tag() ==> r == EventType::UserLoginFailed,
            s@ != login_failed_tag() ==> r == EventType::Other(s),
    {
        let known = String::from_str("user.login_failed");
        if s == known {
            EventType::UserLoginFailed
        } else {
            EventType::Other(s)
        }
    }

    /// The tag of this event type.
    pub fn into_tag(self) -> (r: String)
        ensures
            r@ == type_tag(self),
    {
        match self {
            EventType::UserLoginFailed => String::from_str("user.login_failed"),
            EventType::Other(s) => s,
        }
    }
}

impl Clone for EventType {
    fn clone(&self) -> (r: Self)
        ensures
            r == *self,
    {
        match self {
            EventType::UserLoginFailed => EventType::UserLoginFailed,
            EventType::Other(s) => EventType::Other(s.clone()),
        }
    }
}

/// The body of an event: a structured value that only the handler reads.
#[derive(Debug, PartialEq)]
pub struct EventPayload(pub serde_json::Value);

impl Clone for EventPayload {
    fn clone(&self) -> (r: Self)
        ensures
            r == *self,
    {
        EventPayload(self.0.clone())
    }
}

/// An immutable input fact, identified by `event_id`.
#[derive(Debug)]
pub struct Event {
    pub event_id: String,
    pub event_type: EventType,
    pub occurred_at: Timestamp,
    pub payload: EventPayload,
}

impl Clone for Event {
    fn clone(&self) -> (r: Self)
        ensures
            r == *self,
    {
        Event {
            event_id: self.event_id.clone(),
            event_type: self.event_type.clone(),
            occurred_at: self.occurred_at,
            payload: self.payload.clone(),
        }
    }
}

/// What the lifecycle rules read of a record: everything but its timestamps.
pub ghost struct RecordView {
    pub event: Event,
    pub status: EventStatus,
    pub attempts: nat,
    pub last_error: Option<Seq<char>>,
    pub result: Option<serde_json::Value>,
}

/// The mutable processing state of one event.
#[derive(Debug)]
pub struct EventRecord {
    pub event: Event,
    pub status: EventStatus,
    pub attempts: u32,
    pub last_error: Option<String>,
    pub result: Option<serde_json::Value>,
    pub created_at: Timestamp,
    pub updated_at: Timestamp,
}

/// The record that the first admission of `event` creates.
pub open spec fn initial_view(event: Event) -> RecordView {
    RecordView {
        event,
        status: EventStatus::Received,
        attempts: 0,
        last_error: None,
        result: None,
    }
}

impl View for EventRecord {
    type V = RecordView;

    open spec fn view(&self) -> RecordView {
        RecordView {
            event: self.event,
            status: self.status,
            attempts: self.attempts as nat,
            last_error: match self.last_error {
                Some(e) => Some(e@),
                None => None,
            },
            result: self.result,
        }
    }
}

impl EventRecord {
    /// A fresh record for `event`: Received, no attempts, no error, no
    /// result, created and updated now.
    pub fn new(event: Event) -> (r: EventRecord)
        ensures
            r@ == initial_view(event),
            r.created_at == r.updated_at,
    {
        let now = current_time();
        EventRecord {
            event,
            status: EventStatus::Received,
            attempts: 0,
            last_error: None,
            result: None,
            created_at: now,
            updated_at: now,
        }
    }
}

impl Clone for EventRecord {
    fn clone(&self) -> (r: Self)
        ensures
            r == *self,
    {
        let last_error = match &self.last_error {
            Some(e) => Some(e.clone()),
            None => None,
        };
        let result = match &self.result {
            Some(v) => Some(v.clone()),
            None => None,
        };
        EventRecord {
            event: self.event.clone(),
            status: self.status,
            attempts: self.attempts,
            last_error,
            result,
            created_at: self.created_at,
            updated_at: self.updated_at,
        }
    }
}

} // verus!
