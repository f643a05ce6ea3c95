use vstd::prelude::*;

use crate::domain::error::DomainError;

verus! {

/// Processing status of an event record.
#[derive(Debug, Clone, Copy, PartialEq, Eq, Structural)]
pub enum EventStatus {
    Received,
    Processing,
    Completed,
    Failed,
}

/// The lifecycle table: the only status changes a record may undergo.
pub open spec fn transition_allowed(from: EventStatus, to: EventStatus) -> bool {
    ||| from == EventStatus::Received && to == EventStatus::Processing
    ||| from == EventStatus::Processing && to == EventStatus::Completed
    ||| from == EventStatus::Processing && to == EventStatus::Failed
    ||| from == EventStatus::Processing && to == EventStatus::Received
}

/// A status from which no transition leaves.
pub open spec fn is_terminal(s: EventStatus) -> bool {
    s == EventStatus::Completed || s == EventStatus::Failed
}

/// The name under which a status is reported to callers.
pub open spec fn status_name(s: EventStatus) -> Seq<char> {
    match s {
        EventStatus::Received => "Received"@,
        EventStatus::Processing => "Processing"@,
        EventStatus::Completed => "Completed"@,
        EventStatus::Failed => "Failed"@,
    }
}

impl EventStatus {
    /// Whether the lifecycle table allows moving from `self` to `next`.
    pub fn can_transition(self, next: EventStatus) -> (r: bool)
        ensures
            r == transition_allowed(self, next),
    {
        match (self, next) {
            (EventStatus::Received, EventStatus::Processing) => true,
            (EventStatus::Processing, EventStatus::Completed) => true,
            (EventStatus::Processing, EventStatus::Failed) => true,
            (EventStatus::Processing, EventStatus::Received) => true,
            _ => false,
        }
    }

    /// Validates a status change against the lifecycle table, yielding the
    /// new status or `InvalidTransition`.
    pub fn transition(self, next: EventStatus) -> (r: Result<EventStatus, DomainError>)
        ensures
            transition_allowed(self, next) ==> r == Ok::<EventStatus, DomainError>(next),
            !transition_allowed(self, next) ==> r == Err::<EventStatus, DomainError>(
                DomainError::InvalidTransition,
            ),
    {
        if self.can_transition(next) {
            Ok(next)
        } else {
            Err(DomainError::InvalidTransition)
        }
    }

    /// The status's name, as reported to callers.
    pub fn name(self) -> (r: &'static str)
        ensures
            r@ == status_name(self),
    {
        match self {
            EventStatus::Received => "Received",
            EventStatus::Processing => "Processing",
            EventStatus::Completed => "Completed",
            EventStatus::Failed => "Failed",
        }
    }
}

/// No status can be left once it is terminal, and no status can be entered
/// from itself.
pub proof fn terminal_statuses_are_final(s: EventStatus, t: EventStatus)
    ensures
        is_terminal(s) ==> !transition_allowed(s, t),
        !transition_allowed(s, s),
{
}

} // verus!
