//! The authoritative table of event records.

pub mod memory;
