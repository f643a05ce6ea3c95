//! Admission of events and the decisions of the processing workers.

pub mod idempotency;
pub mod ingest;
pub mod processor;
