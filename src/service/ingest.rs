use vstd::prelude::*;

use crate::domain::event::{Event, EventRecord};
use crate::store::memory::{insert_outcome, MemoryStore};

verus! {

/// What admitting an event produced: the record filed under its id, whether
/// it was new, and the id to place on the work queue, if any.
#[derive(Debug)]
pub struct Admission {
    pub record: EventRecord,
    pub inserted: bool,
    pub enqueue: Option<String>,
}

/// What `ingest(event)` does to the table and returns: the id goes to the
/// work queue exactly when the record is new.
pub open spec fn admission_outcome(
    before: Map<Seq<char>, EventRecord>,
    after: Map<Seq<char>, EventRecord>,
    event: Event,
    a: Admission,
) -> bool {
    &&& insert_outcome(before, after, event, a.record, a.inserted)
    &&& match a.enqueue {
        Some(id) => a.inserted && id@ == event.event_id@,
        None => !a.inserted,
    }
}

/// Idempotent admission: files a new record and hands its id to the work
/// queue; an id already known is left alone and nothing is queued.
pub fn ingest(store: &mut MemoryStore, event: Event) -> (r: Admission)
    requires
        old(store).well_formed(),
    ensures
        final(store).well_formed(),
        admission_outcome(old(store)@, final(store)@, event, r),
{
    let (record, inserted) = store.insert_if_absent(event);
    let enqueue = if inserted {
        Some(record.event.event_id.clone())
    } else {
        None
    };
    Admission { record, inserted, enqueue }
}

/// Admitting the same id twice creates one record and queues it once: the
/// first admission is new and queues the id, the second finds the first's
/// record, changes nothing and queues nothing.
pub proof fn ingest_twice_is_idempotent(
    m0: Map<Seq<char>, EventRecord>,
    m1: Map<Seq<char>, EventRecord>,
    m2: Map<Seq<char>, EventRecord>,
    event: Event,
    again: Event,
    first: Admission,
    second: Admission,
)
    requires
        !m0.contains_key(event.event_id@),
        again.event_id@ == event.event_id@,
        admission_outcome(m0, m1, event, first),
        admission_outcome(m1, m2, again, second),
    ensures
        first.inserted,
        !second.inserted,
        first.enqueue is Some,
        second.enqueue is None,
        second.record == first.record,
        m2 == m1,
        m2.dom() == m0.dom().insert(event.event_id@),
{
    assert(m1.contains_key(event.event_id@));
}

} // verus!
