use vstd::prelude::*;

use crate::domain::event::{initial_view, Event, EventRecord, RecordView};
use crate::domain::state::{transition_allowed, EventStatus};
use crate::domain::time::current_time;

verus! {

/// Errors of the store's operations.
#[derive(Debug, Clone, Copy, PartialEq, Eq, Structural)]
pub enum StoreError {
    /// No record exists for the id.
    NotFound,
    /// The record is not in the status that the operation leaves from.
    InvalidTransition,
}

/// Pause between checks while a waited-for id has no record yet.
pub const POLL_INTERVAL_MS: u64 = 50;

/// The id under which a record is filed.
pub open spec fn id_of(r: EventRecord) -> Seq<char> {
    r.event.event_id@
}

/// Claiming: the record moves to Processing and one more attempt is counted
/// (the count stops at its largest value).
pub open spec fn claimed(v: RecordView) -> RecordView {
    RecordView {
        status: EventStatus::Processing,
        attempts: if v.attempts < u32::MAX { v.attempts + 1 } else { v.attempts },
        ..v
    }
}

/// Success: the record is Completed and holds the handler's value.
pub open spec fn completed(v: RecordView, value: serde_json::Value) -> RecordView {
    RecordView { status: EventStatus::Completed, result: Some(value), ..v }
}

/// Final failure: the record is Failed and holds the error.
pub open spec fn failed(v: RecordView, err: Seq<char>) -> RecordView {
    RecordView { status: EventStatus::Failed, last_error: Some(err), ..v }
}

/// Failure with a retry to come: the record is Received again and holds the
/// error.
pub open spec fn requeued(v: RecordView, err: Seq<char>) -> RecordView {
    RecordView { status: EventStatus::Received, last_error: Some(err), ..v }
}

/// `after` is `before` with the record under `id` replaced by one whose view
/// is `v` and whose creation time is kept.
pub open spec fn rewritten(
    before: Map<Seq<char>, EventRecord>,
    after: Map<Seq<char>, EventRecord>,
    id: Seq<char>,
    v: RecordView,
) -> bool {
    &&& before.contains_key(id)
    &&& after == before.insert(id, after[id])
    &&& after[id]@ == v
    &&& after[id].created_at == before[id].created_at
}

/// What `insert_if_absent(event)` does to the table and returns.
pub open spec fn insert_outcome(
    before: Map<Seq<char>, EventRecord>,
    after: Map<Seq<char>, EventRecord>,
    event: Event,
    rec: EventRecord,
    inserted: bool,
) -> bool {
    let id = event.event_id@;
    if before.contains_key(id) {
        &&& !inserted
        &&& after == before
        &&& rec == before[id]
    } else {
        &&& inserted
        &&& rec@ == initial_view(event)
        &&& rec.created_at == rec.updated_at
        &&& after == before.insert(id, rec)
    }
}

/// What `claim_for_processing(id)` does to the table and returns.
pub open spec fn claim_outcome(
    before: Map<Seq<char>, EventRecord>,
    after: Map<Seq<char>, EventRecord>,
    id: Seq<char>,
    r: Result<bool, StoreError>,
) -> bool {
    if !before.contains_key(id) {
        r == Err::<bool, StoreError>(StoreError::NotFound) && after == before
    } else if before[id].status == EventStatus::Received {
        r == Ok::<bool, StoreError>(true) && rewritten(before, after, id, claimed(before[id]@))
    } else {
        r == Ok::<bool, StoreError>(false) && after == before
    }
}

/// What an operation that ends a Processing record does: it rewrites the
/// record to `target`, or reports why it could not.
pub open spec fn finish_outcome(
    before: Map<Seq<char>, EventRecord>,
    after: Map<Seq<char>, EventRecord>,
    id: Seq<char>,
    target: RecordView,
    r: Result<(), StoreError>,
) -> bool {
    if !before.contains_key(id) {
        r == Err::<(), StoreError>(StoreError::NotFound) && after == before
    } else if before[id].status == EventStatus::Processing {
        r == Ok::<(), StoreError>(()) && rewritten(before, after, id, target)
    } else {
        r == Err::<(), StoreError>(StoreError::InvalidTransition) && after == before
    }
}

/// One call of a store operation turns table `before` into table `after`.
pub open spec fn store_step(before: Map<Seq<char>, EventRecord>, after: Map<Seq<char>, EventRecord>) -> bool {
    ||| exists|event: Event, rec: EventRecord, inserted: bool|
        insert_outcome(before, after, event, rec, inserted)
    ||| exists|id: Seq<char>, r: Result<bool, StoreError>| claim_outcome(before, after, id, r)
    ||| exists|id: Seq<char>, value: serde_json::Value, r: Result<(), StoreError>|
        finish_outcome(before, after, id, completed(before[id]@, value), r)
    ||| exists|id: Seq<char>, err: Seq<char>, r: Result<(), StoreError>|
        finish_outcome(before, after, id, failed(before[id]@, err), r)
    ||| exists|id: Seq<char>, err: Seq<char>, r: Result<(), StoreError>|
        finish_outcome(before, after, id, requeued(before[id]@, err), r)
}

/// Every record of `before` is still filed in `after`; its status is kept or
/// moves along the lifecycle table, and its attempt count does not drop.
pub open spec fn follows_table(before: Map<Seq<char>, EventRecord>, after: Map<Seq<char>, EventRecord>) -> bool {
    forall|k: Seq<char>|
        #[trigger] before.contains_key(k) ==> {
            &&& after.contains_key(k)
            &&& after[k].status == before[k].status || transition_allowed(
                before[k].status,
                after[k].status,
            )
            &&& before[k].attempts <= after[k].attempts
        }
}

/// Whatever store operation runs, every status change it makes is one the
/// lifecycle table allows, and no record disappears.
pub proof fn store_steps_follow_table(before: Map<Seq<char>, EventRecord>, after: Map<Seq<char>, EventRecord>)
    requires
        store_step(before, after),
    ensures
        follows_table(before, after),
{
}

/// A record's fields agree with its status: it holds a result exactly when
/// Completed, and it has been claimed at least once when it has left
/// Received or holds an error.
pub open spec fn record_consistent(r: EventRecord) -> bool {
    &&& (r.result is Some) == (r.status == EventStatus::Completed)
    &&& r.status != EventStatus::Received ==> r.attempts >= 1
    &&& r.last_error is Some ==> r.attempts >= 1
}

/// Every record of the table is consistent.
pub open spec fn table_consistent(m: Map<Seq<char>, EventRecord>) -> bool {
    forall|k: Seq<char>| #[trigger] m.contains_key(k) ==> record_consistent(m[k])
}

/// No store operation makes a consistent table inconsistent.
pub proof fn store_steps_keep_records_consistent(
    before: Map<Seq<char>, EventRecord>,
    after: Map<Seq<char>, EventRecord>,
)
    requires
        store_step(before, after),
        table_consistent(before),
    ensures
        table_consistent(after),
{
    assert forall|k: Seq<char>| #[trigger] after.contains_key(k) implies record_consistent(after[k]) by {
        if before.contains_key(k) {
            assert(record_consistent(before[k]));
        }
    }
}

/// Along any run of store operations from the empty table, every step
/// follows the lifecycle table and every record stays consistent.
pub proof fn reachable_tables_follow_table(tables: Seq<Map<Seq<char>, EventRecord>>)
    requires
        tables.len() >= 1,
        tables[0] == Map::<Seq<char>, EventRecord>::empty(),
        forall|i: int| 0 <= i < tables.len() - 1 ==> store_step(#[trigger] tables[i], tables[i + 1]),
    ensures
        forall|i: int| 0 <= i < tables.len() - 1 ==> follows_table(#[trigger] tables[i], tables[i + 1]),
        forall|i: int| 0 <= i < tables.len() ==> table_consistent(#[trigger] tables[i]),
{
    assert forall|i: int| 0 <= i < tables.len() - 1 implies follows_table(
        #[trigger] tables[i],
        tables[i + 1],
    ) by {
        store_steps_follow_table(tables[i], tables[i + 1]);
    }
    assert forall|i: int| 0 <= i < tables.len() implies table_consistent(#[trigger] tables[i]) by {
        lemma_prefix_consistent(tables, i);
    }
}

proof fn lemma_prefix_consistent(tables: Seq<Map<Seq<char>, EventRecord>>, n: int)
    requires
        0 <= n < tables.len(),
        tables[0] == Map::<Seq<char>, EventRecord>::empty(),
        forall|i: int| 0 <= i < tables.len() - 1 ==> store_step(#[trigger] tables[i], tables[i + 1]),
    ensures
        table_consistent(tables[n]),
    decreases n,
{
    if n > 0 {
        lemma_prefix_consistent(tables, n - 1);
        store_steps_keep_records_consistent(tables[n - 1], tables[n]);
    }
}

/// Claiming a record that is not Received returns `false` and changes
/// nothing.
pub proof fn claim_of_unreceived_is_inert(
    before: Map<Seq<char>, EventRecord>,
    after: Map<Seq<char>, EventRecord>,
    id: Seq<char>,
    r: Result<bool, StoreError>,
)
    requires
        claim_outcome(before, after, id, r),
        before.contains_key(id),
        before[id].status != EventStatus::Received,
    ensures
        r == Ok::<bool, StoreError>(false),
        after == before,
{
}

proof fn lemma_claim_holds(
    tables: Seq<Map<Seq<char>, EventRecord>>,
    results: Seq<Result<bool, StoreError>>,
    id: Seq<char>,
    n: int,
)
    requires
        tables.len() == results.len() + 1,
        forall|i: int|
            0 <= i < results.len() ==> claim_outcome(
                #[trigger] tables[i],
                tables[i + 1],
                id,
                results[i],
            ),
        tables[0].contains_key(id),
        tables[0][id].status == EventStatus::Received,
        1 <= n <= results.len(),
    ensures
        tables[n].contains_key(id),
        tables[n][id].status == EventStatus::Processing,
    decreases n,
{
    assert(claim_outcome(tables[n - 1], tables[n], id, results[n - 1]));
    if n > 1 {
        lemma_claim_holds(tables, results, id, n - 1);
    }
}

/// Of any number of successive claims on a Received record, the first
/// returns `true` and every later one `false`.
pub proof fn claim_is_exclusive(
    tables: Seq<Map<Seq<char>, EventRecord>>,
    results: Seq<Result<bool, StoreError>>,
    id: Seq<char>,
)
    requires
        results.len() >= 1,
        tables.len() == results.len() + 1,
        forall|i: int|
            0 <= i < results.len() ==> claim_outcome(
                #[trigger] tables[i],
                tables[i + 1],
                id,
                results[i],
            ),
        tables[0].contains_key(id),
        tables[0][id].status == EventStatus::Received,
    ensures
        results[0] == Ok::<bool, StoreError>(true),
        forall|i: int| 1 <= i < results.len() ==> #[trigger] results[i] == Ok::<bool, StoreError>(false),
{
    assert(claim_outcome(tables[0], tables[1], id, results[0]));
    assert forall|i: int| 1 <= i < results.len() implies #[trigger] results[i] == Ok::<bool, StoreError>(
        false,
    ) by {
        lemma_claim_holds(tables, results, id, i);
        assert(claim_outcome(tables[i], tables[i + 1], id, results[i]));
    }
}

/// One decision of a caller waiting for a record to reach a status.
#[derive(Debug, Clone, Copy, PartialEq, Eq, Structural)]
pub enum WaitStep {
    /// The record has the desired status: the wait succeeds.
    Reached,
    /// The time allowed has run out: the wait fails.
    TimedOut,
    /// Sleep until the record changes, for at most `remaining_ms`.
    AwaitChange { remaining_ms: u64 },
    /// No record yet: check again after `delay_ms`.
    Poll { delay_ms: u64 },
}

/// The in-memory table of event records, one per event id.
pub struct MemoryStore {
    records: Vec<EventRecord>,
}

impl View for MemoryStore {
    type V = Map<Seq<char>, EventRecord>;

    closed spec fn view(&self) -> Map<Seq<char>, EventRecord> {
        Map::new(
            |k: Seq<char>|
                exists|i: int| 0 <= i < self.records@.len() && id_of(#[trigger] self.records@[i]) == k,
            |k: Seq<char>|
                self.records@[choose|i: int|
                    0 <= i < self.records@.len() && id_of(#[trigger] self.records@[i]) == k],
        )
    }
}

impl MemoryStore {
    /// No two records share an id.
    pub closed spec fn well_formed(&self) -> bool {
        forall|i: int, j: int|
            0 <= i < j < self.records@.len() ==> id_of(#[trigger] self.records@[i]) != id_of(
                #[trigger] self.records@[j],
            )
    }

    proof fn lemma_entry(&self, i: int)
        requires
            self.well_formed(),
            0 <= i < self.records@.len(),
        ensures
            self@.contains_key(id_of(self.records@[i])),
            self@[id_of(self.records@[i])] == self.records@[i],
    {
        let k = id_of(self.records@[i]);
        assert(exists|j: int| 0 <= j < self.records@.len() && id_of(#[trigger] self.records@[j]) == k);
        let j = choose|j: int| 0 <= j < self.records@.len() && id_of(#[trigger] self.records@[j]) == k;
        assert(i == j) by {
            if i < j {
                assert(id_of(self.records@[i]) != id_of(self.records@[j]));
            } else if j < i {
                assert(id_of(self.records@[j]) != id_of(self.records@[i]));
            }
        }
    }

    proof fn lemma_absent(&self, k: Seq<char>)
        requires
            forall|i: int| 0 <= i < self.records@.len() ==> id_of(#[trigger] self.records@[i]) != k,
        ensures
            !self@.contains_key(k),
    {
    }

    /// An empty table.
    pub fn new() -> (r: MemoryStore)
        ensures
            r.well_formed(),
            r@ == Map::<Seq<char>, EventRecord>::empty(),
    {
        let r = MemoryStore { records: Vec::new() };
        assert(r@ =~= Map::<Seq<char>, EventRecord>::empty());
        r
    }

    /// Position of the record filed under `id`, if any.
    fn find(&self, id: &str) -> (r: Option<usize>)
        requires
            self.well_formed(),
        ensures
            match r {
                Some(i) => i < self.records@.len() && id_of(self.records@[i as int]) == id@
                    && self@.contains_key(id@) && self@[id@] == self.records@[i as int],
                None => !self@.contains_key(id@),
            },
    {
        let key = id.to_owned();
        let mut i: usize = 0;
        while i < self.records.len()
            invariant
                self.well_formed(),
                key@ == id@,
                0 <= i <= self.records@.len(),
                forall|j: int| 0 <= j < i ==> id_of(#[trigger] self.records@[j]) != id@,
            decreases self.records@.len() - i,
        {
            if self.records[i].event.event_id == key {
                proof {
                    self.lemma_entry(i as int);
                }
                return Some(i);
            }
            i = i + 1;
        }
        proof {
            self.lemma_absent(id@);
        }
        None
    }

    /// Replaces the record at position `i` by `rec`, which keeps its id.
    fn replace_at(&mut self, i: usize, rec: EventRecord)
        requires
            old(self).well_formed(),
            i < old(self).records@.len(),
            id_of(rec) == id_of(old(self).records@[i as int]),
        ensures
            final(self).well_formed(),
            final(self)@ == old(self)@.insert(id_of(rec), rec),
    {
        let ghost before = *self;
        proof {
            before.lemma_entry(i as int);
        }
        self.records.set(i, rec);
        proof {
            let k = id_of(rec);
            assert forall|a: int, b: int|
                0 <= a < b < self.records@.len() implies id_of(#[trigger] self.records@[a]) != id_of(
                #[trigger] self.records@[b],
            ) by {
                assert(id_of(self.records@[a]) == id_of(before.records@[a]));
                assert(id_of(self.records@[b]) == id_of(before.records@[b]));
            }
            assert forall|j: int| 0 <= j < self.records@.len() implies {
                let kj = id_of(#[trigger] self.records@[j]);
                self@.contains_key(kj) && self@[kj] == self.records@[j]
            } by {
                self.lemma_entry(j);
            }
            assert forall|j: int| 0 <= j < before.records@.len() implies {
                let kj = id_of(#[trigger] before.records@[j]);
                before@.contains_key(kj) && before@[kj] == before.records@[j]
            } by {
                before.lemma_entry(j);
            }
            assert forall|key: Seq<char>| #[trigger] self@.contains_key(key) <==> before@.insert(
                k,
                rec,
            ).contains_key(key) by {
                if self@.contains_key(key) {
                    let j = choose|j: int|
                        0 <= j < self.records@.len() && id_of(#[trigger] self.records@[j]) == key;
                    assert(id_of(before.records@[j]) == key);
                } else if before@.contains_key(key) {
                    let j = choose|j: int|
                        0 <= j < before.records@.len() && id_of(#[trigger] before.records@[j])
                            == key;
                    assert(id_of(self.records@[j]) == key);
                }
            }
            assert forall|key: Seq<char>| #[trigger] self@.contains_key(key) implies self@[key]
                == before@.insert(k, rec)[key] by {
                let j = choose|j: int|
                    0 <= j < self.records@.len() && id_of(#[trigger] self.records@[j]) == key;
                if j != i {
                    assert(id_of(before.records@[j]) == key);
                }
            }
            assert(self@ =~= before@.insert(k, rec));
        }
    }

    /// Files `rec` under a new id.
    fn append(&mut self, rec: EventRecord)
        requires
            old(self).well_formed(),
            !old(self)@.contains_key(id_of(rec)),
        ensures
            final(self).well_formed(),
            final(self)@ == old(self)@.insert(id_of(rec), rec),
    {
        let ghost before = *self;
        let ghost k = id_of(rec);
        proof {
            assert forall|j: int| 0 <= j < before.records@.len() implies id_of(
                #[trigger] before.records@[j],
            ) != k by {
                before.lemma_entry(j);
            }
        }
        self.records.push(rec);
        proof {
            let n = before.records@.len() as int;
            assert(self.records@[n] == rec);
            assert forall|a: int, b: int|
                0 <= a < b < self.records@.len() implies id_of(#[trigger] self.records@[a]) != id_of(
                #[trigger] self.records@[b],
            ) by {
                assert(self.records@[a] == before.records@[a]);
                if b < n {
                    assert(self.records@[b] == before.records@[b]);
                }
            }
            assert forall|j: int| 0 <= j < self.records@.len() implies {
                let kj = id_of(#[trigger] self.records@[j]);
                self@.contains_key(kj) && self@[kj] == self.records@[j]
            } by {
                self.lemma_entry(j);
            }
            assert forall|j: int| 0 <= j < before.records@.len() implies {
                let kj = id_of(#[trigger] before.records@[j]);
                before@.contains_key(kj) && before@[kj] == before.records@[j]
            } by {
                before.lemma_entry(j);
            }
            assert forall|key: Seq<char>| #[trigger] self@.contains_key(key) <==> before@.insert(
                k,
                rec,
            ).contains_key(key) by {
                if self@.contains_key(key) {
                    let j = choose|j: int|
                        0 <= j < self.records@.len() && id_of(#[trigger] self.records@[j]) == key;
                    if j < n {
                        assert(self.records@[j] == before.records@[j]);
                    }
                } else if before@.contains_key(key) {
                    let j = choose|j: int|
                        0 <= j < before.records@.len() && id_of(#[trigger] before.records@[j])
                            == key;
                    assert(self.records@[j] == before.records@[j]);
                }
            }
            assert forall|key: Seq<char>| #[trigger] self@.contains_key(key) implies self@[key]
                == before@.insert(k, rec)[key] by {
                let j = choose|j: int|
                    0 <= j < self.records@.len() && id_of(#[trigger] self.records@[j]) == key;
                if j < n {
                    assert(self.records@[j] == before.records@[j]);
                }
            }
            assert(self@ =~= before@.insert(k, rec));
        }
    }

    /// Adds a fresh record for `event` unless its id is already filed; returns
    /// the record now filed under the id and whether it was created by this
    /// call.
    pub fn insert_if_absent(&mut self, event: Event) -> (r: (EventRecord, bool))
        requires
            old(self).well_formed(),
        ensures
            final(self).well_formed(),
            insert_outcome(old(self)@, final(self)@, event, r.0, r.1),
    {
        match self.find(event.event_id.as_str()) {
            Some(i) => (self.records[i].clone(), false),
            None => {
                let rec = EventRecord::new(event);
                let copy = rec.clone();
                self.append(rec);
                (copy, true)
            },
        }
    }

    /// The record filed under `id`.
    pub fn get(&self, id: &str) -> (r: Result<EventRecord, StoreError>)
        requires
            self.well_formed(),
        ensures
            self@.contains_key(id@) ==> r == Ok::<EventRecord, StoreError>(self@[id@]),
            !self@.contains_key(id@) ==> r == Err::<EventRecord, StoreError>(StoreError::NotFound),
    {
        match self.find(id) {
            Some(i) => Ok(self.records[i].clone()),
            None => Err(StoreError::NotFound),
        }
    }

    /// Moves a Received record to Processing and counts the attempt; returns
    /// whether this call made the move. A record in any other status is left
    /// as it is.
    pub fn claim_for_processing(&mut self, id: &str) -> (r: Result<bool, StoreError>)
        requires
            old(self).well_formed(),
        ensures
            final(self).well_formed(),
            claim_outcome(old(self)@, final(self)@, id@, r),
    {
        match self.find(id) {
            None => Err(StoreError::NotFound),
            Some(i) => {
                if self.records[i].status == EventStatus::Received {
                    let mut rec = self.records[i].clone();
                    rec.status = EventStatus::Processing;
                    rec.attempts = rec.attempts.saturating_add(1);
                    rec.updated_at = current_time();
                    self.replace_at(i, rec);
                    Ok(true)
                } else {
                    Ok(false)
                }
            },
        }
    }

    /// Position of the Processing record under `id`, or why there is none.
    fn find_processing(&self, id: &str) -> (r: Result<usize, StoreError>)
        requires
            self.well_formed(),
        ensures
            match r {
                Ok(i) => i < self.records@.len() && id_of(self.records@[i as int]) == id@
                    && self@.contains_key(id@) && self@[id@] == self.records@[i as int]
                    && self@[id@].status == EventStatus::Processing,
                Err(e) => if self@.contains_key(id@) {
                    e == StoreError::InvalidTransition && self@[id@].status
                        != EventStatus::Processing
                } else {
                    e == StoreError::NotFound
                },
            },
    {
        match self.find(id) {
            None => Err(StoreError::NotFound),
            Some(i) => {
                if self.records[i].status == EventStatus::Processing {
                    Ok(i)
                } else {
                    Err(StoreError::InvalidTransition)
                }
            },
        }
    }

    /// Completes a Processing record with the handler's value.
    pub fn set_result(&mut self, id: &str, result: serde_json::Value) -> (r: Result<(), StoreError>)
        requires
            old(self).well_formed(),
        ensures
            final(self).well_formed(),
            finish_outcome(old(self)@, final(self)@, id@, completed(old(self)@[id@]@, result), r),
    {
        let i = self.find_processing(id)?;
        let mut rec = self.records[i].clone();
        rec.result = Some(result);
        rec.status = EventStatus::Completed;
        rec.updated_at = current_time();
        self.replace_at(i, rec);
        Ok(())
    }

    /// Fails a Processing record for good, keeping the error.
    pub fn set_failed(&mut self, id: &str, err: String) -> (r: Result<(), StoreError>)
        requires
            old(self).well_formed(),
        ensures
            final(self).well_formed(),
            finish_outcome(old(self)@, final(self)@, id@, failed(old(self)@[id@]@, err@), r),
    {
        let i = self.find_processing(id)?;
        let mut rec = self.records[i].clone();
        rec.last_error = Some(err);
        rec.status = EventStatus::Failed;
        rec.updated_at = current_time();
        self.replace_at(i, rec);
        Ok(())
    }

    /// Returns a Processing record to Received after a failed attempt,
    /// keeping the error, so that it can be claimed again.
    pub fn set_error_and_mark_received(&mut self, id: &str, err: String) -> (r: Result<(), StoreError>)
        requires
            old(self).well_formed(),
        ensures
            final(self).well_formed(),
            finish_outcome(old(self)@, final(self)@, id@, requeued(old(self)@[id@]@, err@), r),
    {
        let i = self.find_processing(id)?;
        let mut rec = self.records[i].clone();
        rec.last_error = Some(err);
        rec.status = EventStatus::Received;
        rec.updated_at = current_time();
        self.replace_at(i, rec);
        Ok(())
    }

    /// Decides the next step of a wait for the record under `id` to reach
    /// `desired`, `elapsed_ms` into a wait of at most `timeout_ms`.
    pub fn wait_for_status(&self, id: &str, desired: EventStatus, elapsed_ms: u64, timeout_ms: u64) -> (r: WaitStep)
        requires
            self.well_formed(),
        ensures
            (r == WaitStep::Reached) == (self@.contains_key(id@) && self@[id@].status == desired),
            r != WaitStep::Reached ==> (r == WaitStep::TimedOut) == (elapsed_ms >= timeout_ms),
            r != WaitStep::Reached && elapsed_ms < timeout_ms && self@.contains_key(id@) ==> r
                == (WaitStep::AwaitChange { remaining_ms: (timeout_ms - elapsed_ms) as u64 }),
            r != WaitStep::Reached && elapsed_ms < timeout_ms && !self@.contains_key(id@) ==> r
                == (WaitStep::Poll {
                    delay_ms: if timeout_ms - elapsed_ms < POLL_INTERVAL_MS {
                        (timeout_ms - elapsed_ms) as u64
                    } else {
                        POLL_INTERVAL_MS
                    },
                }),
    {
        let found = self.find(id);
        if let Some(i) = found {
            if self.records[i].status == desired {
                return WaitStep::Reached;
            }
        }
        if elapsed_ms >= timeout_ms {
            return WaitStep::TimedOut;
        }
        let remaining = timeout_ms - elapsed_ms;
        match found {
            Some(_) => WaitStep::AwaitChange { remaining_ms: remaining },
            None => WaitStep::Poll {
                delay_ms: if remaining < POLL_INTERVAL_MS {
                    remaining
                } else {
                    POLL_INTERVAL_MS
                },
            },
        }
    }
}

} // verus!
