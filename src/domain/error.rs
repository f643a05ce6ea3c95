use vstd::prelude::*;

verus! {

/// Errors raised by the domain model.
#[derive(Debug, Clone, Copy, PartialEq, Eq, Structural)]
pub enum DomainError {
    /// The requested event id has no record.
    NotFound,
    /// A status change that the lifecycle table does not allow.
    InvalidTransition,
}

} // verus!
