//! The data model: statuses, events, records and their errors.

pub mod error;
pub mod event;
pub mod state;
pub mod time;
