use vstd::prelude::*;
use vstd::arithmetic::power2::{lemma2_to64, lemma_pow2_strictly_increases, lemma_pow2_unfold, pow2};

use crate::domain::event::{initial_view, Event, EventRecord, RecordView};
use crate::domain::state::EventStatus;
use crate::store::memory::{
    claimed, completed, failed, requeued, rewritten, MemoryStore, StoreError,
};

verus! {

/// Delay before the first retry.
pub const BASE_DELAY_MS: u64 = 100;

/// No retry is scheduled sooner than this.
pub const MIN_DELAY_MS: u64 = 50;

/// `x` clamped to the range of `u64`.
pub open spec fn saturate(x: int) -> nat {
    if x > u64::MAX {
        u64::MAX as nat
    } else if x < 0 {
        0
    } else {
        x as nat
    }
}

/// Delay before retrying a record that has made `attempts` attempts:
/// `BASE_DELAY_MS * 2^(attempts - 1)`, capped at the largest `u64` and at
/// least `MIN_DELAY_MS`.
pub open spec fn backoff_spec(attempts: nat) -> nat {
    let exp: nat = if attempts == 0 {
        0
    } else {
        (attempts - 1) as nat
    };
    let d = saturate(BASE_DELAY_MS * pow2(exp));
    if d < MIN_DELAY_MS {
        MIN_DELAY_MS as nat
    } else {
        d
    }
}

/// How the worker's round on one record ended.
#[derive(Debug, Clone, Copy, PartialEq, Eq, Structural)]
pub enum Disposition {
    /// The handler succeeded; the record is Completed.
    Completed,
    /// The handler failed with no retries left; the record is Failed.
    Failed,
    /// The handler failed; the record is Received again and its id goes back
    /// on the work queue after `delay_ms`.
    Retry { delay_ms: u64 },
    /// The record was missing or no longer Processing; nothing was changed.
    Dropped { cause: StoreError },
}

/// The record after a failed attempt: Failed once `max_retries` attempts have
/// been made, else Received for a retry.
pub open spec fn failure_target(v: RecordView, err: Seq<char>, max_retries: u32) -> RecordView {
    if v.attempts >= max_retries {
        failed(v, err)
    } else {
        requeued(v, err)
    }
}

/// The record after the handler returned `outcome`.
pub open spec fn attempt_target(
    v: RecordView,
    outcome: Result<serde_json::Value, String>,
    max_retries: u32,
) -> RecordView {
    match outcome {
        Ok(value) => completed(v, value),
        Err(e) => failure_target(v, e@, max_retries),
    }
}

/// How a round that applied `outcome` to the Processing record `v` ends.
pub open spec fn planned_disposition(
    v: RecordView,
    outcome: Result<serde_json::Value, String>,
    max_retries: u32,
) -> Disposition {
    match outcome {
        Ok(_) => Disposition::Completed,
        Err(_) => if v.attempts >= max_retries {
            Disposition::Failed
        } else {
            Disposition::Retry { delay_ms: backoff_spec(v.attempts) as u64 }
        },
    }
}

/// The record `v` after `n` rounds of a worker whose handler always fails
/// with `err`; a round claims the record only while it is Received.
pub open spec fn after_failing_rounds(v: RecordView, err: Seq<char>, max_retries: u32, n: nat) -> RecordView
    decreases n,
{
    if n == 0 {
        v
    } else {
        let prev = after_failing_rounds(v, err, max_retries, (n - 1) as nat);
        if prev.status == EventStatus::Received {
            failure_target(claimed(prev), err, max_retries)
        } else {
            prev
        }
    }
}

proof fn lemma_failing_rounds(event: Event, err: Seq<char>, max_retries: u32, n: nat)
    requires
        max_retries >= 1,
    ensures
        n < max_retries ==> {
            let v = after_failing_rounds(initial_view(event), err, max_retries, n);
            &&& v.status == EventStatus::Received
            &&& v.attempts == n
            &&& v.event == event
            &&& v.result == None::<serde_json::Value>
        },
        n >= max_retries ==> after_failing_rounds(initial_view(event), err, max_retries, n)
            == failed(
            RecordView { attempts: max_retries as nat, ..initial_view(event) },
            err,
        ),
    decreases n,
{
    if n > 0 {
        lemma_failing_rounds(event, err, max_retries, (n - 1) as nat);
    }
}

/// With a handler that always fails and `max_retries` at least one, a new
/// record is retried while it has made fewer than `max_retries` attempts,
/// then ends Failed with the error after exactly `max_retries` attempts, and
/// no later round changes it.
pub proof fn retry_bound(event: Event, err: Seq<char>, max_retries: u32, n: nat)
    requires
        max_retries >= 1,
    ensures
        n < max_retries ==> after_failing_rounds(initial_view(event), err, max_retries, n).status
            == EventStatus::Received,
        after_failing_rounds(initial_view(event), err, max_retries, max_retries as nat).status
            == EventStatus::Failed,
        after_failing_rounds(initial_view(event), err, max_retries, max_retries as nat).attempts
            == max_retries,
        after_failing_rounds(initial_view(event), err, max_retries, max_retries as nat).last_error
            == Some(err),
        n >= max_retries ==> after_failing_rounds(initial_view(event), err, max_retries, n)
            == after_failing_rounds(initial_view(event), err, max_retries, max_retries as nat),
{
    lemma_failing_rounds(event, err, max_retries, n);
    lemma_failing_rounds(event, err, max_retries, max_retries as nat);
}

/// Retry delays never shrink as attempts grow, and from the first attempt on
/// each delay is twice the one before, up to the cap.
pub proof fn backoff_growth(a: nat, b: nat)
    requires
        a <= b,
    ensures
        backoff_spec(a) <= backoff_spec(b),
        a >= 1 ==> backoff_spec(a + 1) == saturate(2 * backoff_spec(a) as int),
{
    lemma2_to64();
    let ea: nat = if a == 0 {
        0
    } else {
        (a - 1) as nat
    };
    let eb: nat = if b == 0 {
        0
    } else {
        (b - 1) as nat
    };
    if ea < eb {
        lemma_pow2_strictly_increases(ea, eb);
    }
    let pa = pow2(ea);
    let pb = pow2(eb);
    assert(BASE_DELAY_MS * pa <= BASE_DELAY_MS * pb) by (nonlinear_arith)
        requires
            pa <= pb,
    ;
    if ea > 0 {
        lemma_pow2_strictly_increases(0, ea);
    }
    assert(BASE_DELAY_MS * pa >= BASE_DELAY_MS) by (nonlinear_arith)
        requires
            pa >= 1,
    ;
    if a >= 1 {
        lemma_pow2_unfold(a);
        assert(BASE_DELAY_MS * pow2(a) == 2 * (BASE_DELAY_MS * pa)) by (nonlinear_arith)
            requires
                pow2(a) == 2 * pa,
        ;
    }
}

/// Delay before retrying a record that has made `attempts` attempts.
pub fn backoff_delay_ms(attempts: u32) -> (r: u64)
    ensures
        r == backoff_spec(attempts as nat),
{
    let exp: u32 = if attempts == 0 {
        0
    } else {
        attempts - 1
    };
    let mut d: u64 = BASE_DELAY_MS;
    let mut i: u32 = 0;
    proof {
        lemma2_to64();
    }
    while i < exp && d < u64::MAX
        invariant
            i <= exp,
            d == saturate(BASE_DELAY_MS * pow2(i as nat)),
        decreases exp - i,
    {
        proof {
            lemma_pow2_unfold((i + 1) as nat);
            let p = pow2(i as nat);
            assert(BASE_DELAY_MS * pow2((i + 1) as nat) == 2 * (BASE_DELAY_MS * p)) by (
            nonlinear_arith)
                requires
                    pow2((i + 1) as nat) == 2 * p,
            ;
        }
        if d > u64::MAX / 2 {
            d = u64::MAX;
        } else {
            d = d * 2;
        }
        i = i + 1;
    }
    proof {
        if i < exp {
            lemma_pow2_strictly_increases(i as nat, exp as nat);
            let a = pow2(i as nat);
            let b = pow2(exp as nat);
            assert(BASE_DELAY_MS * a <= BASE_DELAY_MS * b) by (nonlinear_arith)
                requires
                    a < b,
            ;
        }
    }
    if d < MIN_DELAY_MS {
        MIN_DELAY_MS
    } else {
        d
    }
}

/// Starts a worker's round on `id`: claims the record and returns it, as
/// claimed, for the handler. A record that is missing or not Received is
/// skipped, and nothing changes.
pub fn begin_attempt(store: &mut MemoryStore, id: &str) -> (r: Option<EventRecord>)
    requires
        old(store).well_formed(),
    ensures
        final(store).well_formed(),
        old(store)@.contains_key(id@) && old(store)@[id@].status == EventStatus::Received ==> {
            &&& rewritten(old(store)@, final(store)@, id@, claimed(old(store)@[id@]@))
            &&& r == Some(final(store)@[id@])
        },
        !(old(store)@.contains_key(id@) && old(store)@[id@].status == EventStatus::Received) ==> {
            &&& r is None
            &&& final(store)@ == old(store)@
        },
{
    match store.claim_for_processing(id) {
        Ok(true) => match store.get(id) {
            Ok(rec) => Some(rec),
            Err(_) => None,
        },
        _ => None,
    }
}

/// Ends a worker's round on `id` with the handler's `outcome`: success
/// completes the record; failure fails it once `max_retries` attempts have
/// been made, and otherwise returns it to Received with the backoff delay
/// for its retry.
pub fn finish_attempt(
    store: &mut MemoryStore,
    id: &str,
    outcome: Result<serde_json::Value, String>,
    max_retries: u32,
) -> (r: Disposition)
    requires
        old(store).well_formed(),
    ensures
        final(store).well_formed(),
        !old(store)@.contains_key(id@) ==> {
            &&& r == (Disposition::Dropped { cause: StoreError::NotFound })
            &&& final(store)@ == old(store)@
        },
        old(store)@.contains_key(id@) && old(store)@[id@].status != EventStatus::Processing ==> {
            &&& r == (Disposition::Dropped { cause: StoreError::InvalidTransition })
            &&& final(store)@ == old(store)@
        },
        old(store)@.contains_key(id@) && old(store)@[id@].status == EventStatus::Processing ==> {
            &&& rewritten(
                old(store)@,
                final(store)@,
                id@,
                attempt_target(old(store)@[id@]@, outcome, max_retries),
            )
            &&& r == planned_disposition(old(store)@[id@]@, outcome, max_retries)
        },
{
    let attempts = match store.get(id) {
        Ok(rec) => rec.attempts,
        Err(e) => {
            return Disposition::Dropped { cause: e };
        },
    };
    let succeeded = outcome.is_ok();
    let res = match outcome {
        Ok(value) => store.set_result(id, value),
        Err(err) => {
            if attempts >= max_retries {
                store.set_failed(id, err)
            } else {
                store.set_error_and_mark_received(id, err)
            }
        },
    };
    match res {
        Err(e) => Disposition::Dropped { cause: e },
        Ok(()) => {
            if succeeded {
                Disposition::Completed
            } else if attempts >= max_retries {
                Disposition::Failed
            } else {
                Disposition::Retry { delay_ms: backoff_delay_ms(attempts) }
            }
        },
    }
}

} // verus!
