use vstd::prelude::*;

use crate::controller::{DbError, SystemError};
use crate::systeminfo::{
    counter_after_increments, sum_of, wrap_add_i64, CounterView, SystemInfoType, TempSystemInfo,
};
use crate::systeminfo_dao::{has_kind, row_for, SystemInfoDao, SystemInfoRow};

verus! {

/// Abstract state a flush tick acts on: the in-memory counter, the visit
/// count held durably (if any), and how many simulated transient failures
/// the store still has pending.
pub struct FlushState {
    pub counter: CounterView,
    pub stored: Option<i64>,
    pub pending: nat,
}

/// The durable visit count `rows` holds, if any.
pub open spec fn stored_visit_count(rows: Seq<SystemInfoRow>) -> Option<i64> {
    if has_kind(rows, SystemInfoType::VisitCount) {
        row_for(rows, SystemInfoType::VisitCount).bigint1
    } else {
        None
    }
}

/// The abstract flush state of a counter and a store.
pub open spec fn flush_state_of(c: CounterView, dao: SystemInfoDao) -> FlushState {
    FlushState {
        counter: c,
        stored: stored_visit_count(dao.rows_view()),
        pending: dao.spec_pending() as nat,
    }
}

/// One flush tick: a zero delta writes nothing; a failed durable write puts
/// the drained delta back so that the next tick retries it; a successful
/// write commits the persisted value.
pub open spec fn flush_step(s: FlushState) -> FlushState {
    if s.counter.delta == 0 {
        s
    } else if s.pending > 0 {
        FlushState { counter: s.counter, stored: s.stored, pending: (s.pending - 1) as nat }
    } else {
        let target = wrap_add_i64(s.counter.committed, s.counter.delta);
        FlushState {
            counter: CounterView { committed: target, delta: 0 },
            stored: Some(target),
            pending: 0,
        }
    }
}

/// One tick of the flush task: drains the pending delta and, when it is
/// non-zero, persists the new committed value. If the durable write fails
/// the drained delta is restored, so nothing is lost and the next tick
/// retries it.
pub fn flush_visit_count(temp: &mut TempSystemInfo, dao: &mut SystemInfoDao) -> (r: Result<
    (),
    SystemError,
>)
    requires
        old(dao).wf(),
    ensures
        final(dao).wf(),
        flush_state_of(final(temp)@, *final(dao)) == flush_step(
            flush_state_of(old(temp)@, *old(dao)),
        ),
        r == Ok::<(), SystemError>(()) <==> (old(temp)@.delta == 0 || old(dao).spec_pending()
            == 0),
        old(temp)@.delta != 0 && old(dao).spec_pending() > 0 ==> (r matches Err(
            SystemError::DbErr(DbError::Transient(_)),
        )) && final(temp)@ == old(temp)@ && final(dao).rows_view() == old(dao).rows_view(),
        old(temp)@.delta == 0 ==> final(temp)@ == old(temp)@ && *final(dao) == *old(dao),
{
    let drained = temp.take_visit_count_increase();
    if drained == 0 {
        return Ok(());
    }
    let target = temp.base_visit_count().wrapping_add(drained);
    match dao.save_system_info(SystemInfoType::VisitCount, target) {
        Ok(_) => {
            temp.set_base_visit_count(target);
            Ok(())
        },
        Err(e) => {
            temp.increase_base_visit_count_by(drained);
            proof {
                crate::systeminfo::lemma_wrap_add_i64_exact(0, drained);
            }
            Err(e)
        },
    }
}

/// Law: a transient write failure loses nothing. Starting from a tick whose
/// durable write fails, followed by any further increments whose running
/// totals stay in i64 range, the next tick with a healthy store persists the
/// original committed value plus every increment accumulated so far, and
/// leaves no pending delta behind.
pub proof fn lemma_flush_retry(s: FlushState, extra: Seq<i64>)
    requires
        s.pending == 1,
        s.counter.delta != 0,
        forall|k: int|
            0 <= k <= extra.len() ==> i64::MIN <= s.counter.delta + sum_of(#[trigger] extra.take(k))
                <= i64::MAX,
        s.counter.delta + sum_of(extra) != 0,
        i64::MIN <= s.counter.committed + s.counter.delta + sum_of(extra) <= i64::MAX,
    ensures
        ({
            let failed = flush_step(s);
            let caught_up = FlushState {
                counter: counter_after_increments(failed.counter, extra),
                stored: failed.stored,
                pending: failed.pending,
            };
            let retried = flush_step(caught_up);
            retried.stored == Some(
                (s.counter.committed + s.counter.delta + sum_of(extra)) as i64,
            ) && retried.counter.committed == s.counter.committed + s.counter.delta + sum_of(extra)
                && retried.counter.delta == 0
        }),
{
    let failed = flush_step(s);
    assert(failed.counter == s.counter);
    assert(failed.pending == 0);
    crate::systeminfo::lemma_increments_then_drain(s.counter, extra);
    let c2 = counter_after_increments(failed.counter, extra);
    assert(c2.delta == s.counter.delta + sum_of(extra));
    assert(c2.committed == s.counter.committed);
    crate::systeminfo::lemma_wrap_add_i64_exact(c2.committed, c2.delta);
}

/// Keeps a periodic task from overlapping itself: a tick that fires while
/// the previous one is still running is skipped, not queued.
pub struct TaskGate {
    running: bool,
}

impl TaskGate {
    pub closed spec fn spec_running(&self) -> bool {
        self.running
    }

    pub fn new() -> (r: Self)
        ensures
            !r.spec_running(),
    {
        TaskGate { running: false }
    }

    /// Claims the task for one tick; returns false (and changes nothing
    /// observable) when a previous tick is still running, in which case this
    /// tick must be skipped.
    pub fn try_begin(&mut self) -> (r: bool)
        ensures
            r == !old(self).spec_running(),
            final(self).spec_running(),
    {
        let r = !self.running;
        self.running = true;
        r
    }

    /// Marks the running tick finished.
    pub fn finish(&mut self)
        ensures
            !final(self).spec_running(),
    {
        self.running = false;
    }
}

} // verus!
