use vstd::prelude::*;

use crate::domain::event::{Event, EventRecord};
use crate::store::memory::{insert_outcome, MemoryStore};

verus! {

/// Files `ev` in `store` unless its id is already known; returns the record
/// filed under the id and whether this call created it.
pub fn insert_if_absent(store: &mut MemoryStore, ev: Event) -> (r: (EventRecord, bool))
    requires
        old(store).well_formed(),
    ensures
        final(store).well_formed(),
        insert_outcome(old(store)@, final(store)@, ev, r.0, r.1),
{
    store.insert_if_absent(ev)
}

} // verus!
