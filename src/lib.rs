//! Event lifecycle engine: an in-memory store of event records with a
//! checked state machine, idempotent admission, and the decisions a worker
//! makes when it claims, processes and retries an event.

pub mod domain;
pub mod http;
pub mod service;
pub mod store;

pub use domain::error::DomainError;
pub use domain::event::{Event, EventPayload, EventRecord, EventType};
pub use domain::state::EventStatus;
pub use domain::time::Timestamp;
pub use http::extractors::RequestId;
pub use service::ingest::{ingest, Admission};
pub use service::processor::{backoff_delay_ms, begin_attempt, finish_attempt, Disposition};
pub use store::memory::{MemoryStore, StoreError, WaitStep};
