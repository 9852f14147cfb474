use vstd::prelude::*;

use crate::controller::{DbError, SystemError};
use crate::systeminfo_dao::{has_kind, loaded_visit_count, SystemInfoDao};

verus! {

/// Abstract state of the in-memory visit counter: the durably committed
/// baseline and the delta accumulated in memory since the last flush.
pub struct CounterView {
    pub committed: i64,
    pub delta: i64,
}

/// i64 addition with two's-complement wrap-around, the semantics of the
/// atomic fetch-and-add that backs the in-memory counter.
pub open spec fn wrap_add_i64(a: i64, b: i64) -> i64 {
    vstd::wrapping::i64_specs::wrapping_add(a, b)
}

/// Wrap-around addition agrees with exact addition whenever the exact sum
/// fits in an i64.
pub proof fn lemma_wrap_add_i64_exact(a: i64, b: i64)
    requires
        i64::MIN <= a + b <= i64::MAX,
    ensures
        wrap_add_i64(a, b) == a + b,
{
}

/// One increment applied to the abstract counter state.
pub open spec fn counter_after_increment(c: CounterView, amount: i64) -> CounterView {
    CounterView { committed: c.committed, delta: wrap_add_i64(c.delta, amount) }
}

/// A sequence of increments applied in order.
pub open spec fn counter_after_increments(c: CounterView, amounts: Seq<i64>) -> CounterView
    decreases amounts.len(),
{
    if amounts.len() == 0 {
        c
    } else {
        counter_after_increments(counter_after_increment(c, amounts[0]), amounts.drop_first())
    }
}

/// Exact (unbounded) sum of a sequence of increment amounts.
pub open spec fn sum_of(amounts: Seq<i64>) -> int
    decreases amounts.len(),
{
    if amounts.len() == 0 {
        0
    } else {
        amounts[0] + sum_of(amounts.drop_first())
    }
}

/// The value a reader observes: committed baseline plus pending delta.
pub open spec fn current_value_of(c: CounterView) -> int {
    c.committed + c.delta
}

/// In-memory holder of the visit counter: the committed baseline loaded at
/// bootstrap, and the increments not yet persisted.
pub struct TempSystemInfo {
    base_visit_count: i64,
    visit_count_increase: i64,
}

impl View for TempSystemInfo {
    type V = CounterView;

    closed spec fn view(&self) -> CounterView {
        CounterView { committed: self.base_visit_count, delta: self.visit_count_increase }
    }
}

impl TempSystemInfo {
    /// A zero-valued counter, as it exists at process start before bootstrap.
    pub fn new() -> (r: Self)
        ensures
            r@ == (CounterView { committed: 0, delta: 0 }),
    {
        TempSystemInfo { base_visit_count: 0, visit_count_increase: 0 }
    }

    /// The committed baseline (last value known durable).
    pub fn base_visit_count(&self) -> (r: i64)
        ensures
            r == self@.committed,
    {
        self.base_visit_count
    }

    /// The delta accumulated since the last flush.
    pub fn base_visit_count_increase(&self) -> (r: i64)
        ensures
            r == self@.delta,
    {
        self.visit_count_increase
    }

    /// Atomically swaps the pending delta to zero and returns the prior
    /// value; the flush path uses this so that increments arriving after the
    /// swap are neither lost nor double-counted.
    pub fn take_visit_count_increase(&mut self) -> (r: i64)
        ensures
            r == old(self)@.delta,
            final(self)@ == (CounterView { committed: old(self)@.committed, delta: 0 }),
    {
        let r = self.visit_count_increase;
        self.visit_count_increase = 0;
        r
    }

    /// Adds one to the pending delta.
    pub fn increase_base_visit_count(&mut self)
        ensures
            final(self)@ == counter_after_increment(old(self)@, 1),
    {
        self.visit_count_increase = self.visit_count_increase.wrapping_add(1);
    }

    /// Adds `count` to the pending delta.
    pub fn increase_base_visit_count_by(&mut self, count: i64)
        ensures
            final(self)@ == counter_after_increment(old(self)@, count),
    {
        self.visit_count_increase = self.visit_count_increase.wrapping_add(count);
    }

    /// Overwrites the committed baseline; used by the bootstrap loader and by
    /// the flush path after a successful durable write.
    pub fn set_base_visit_count(&mut self, count: i64)
        ensures
            final(self)@ == (CounterView { committed: count, delta: old(self)@.delta }),
    {
        self.base_visit_count = count;
    }

    /// Bootstrap: loads the committed visit count from the durable store
    /// into memory. A failed attempt is retried exactly once; a second
    /// failure is returned and must be treated as fatal by the caller.
    /// A stored row without a value is read as zero.
    pub fn load_visit_count_from_db(&mut self, dao: &mut SystemInfoDao) -> (r: Result<
        (),
        SystemError,
    >)
        requires
            old(dao).wf(),
        ensures
            final(dao).wf(),
            final(dao).rows_view() == old(dao).rows_view(),
            final(self)@.delta == old(self)@.delta,
            old(dao).spec_pending() >= 2 ==> (r matches Err(
                SystemError::DbErr(DbError::Transient(_)),
            )) && final(dao).spec_pending() == old(dao).spec_pending() - 2 && final(self)@ == old(
                self,
            )@,
            old(dao).spec_pending() <= 1 ==> final(dao).spec_pending() == 0 && (if has_kind(
                old(dao).rows_view(),
                SystemInfoType::VisitCount,
            ) {
                r == Ok::<(), SystemError>(()) && final(self)@ == (CounterView {
                    committed: loaded_visit_count(old(dao).rows_view()),
                    delta: old(self)@.delta,
                })
            } else {
                (r matches Err(SystemError::DbErr(DbError::RecordNotFound(_)))) && final(self)@
                    == old(self)@
            }),
    {
        let first = dao.get_system_info(SystemInfoType::VisitCount);
        match first {
            Ok(row) => {
                self.set_base_visit_count(
                    match row.bigint1 {
                        Some(v) => v,
                        None => 0,
                    },
                );
                Ok(())
            },
            Err(_first_failure) => {
                // one retry before the failure is reported as fatal
                match dao.get_system_info(SystemInfoType::VisitCount) {
                    Ok(row) => {
                        self.set_base_visit_count(
                            match row.bigint1 {
                                Some(v) => v,
                                None => 0,
                            },
                        );
                        Ok(())
                    },
                    Err(e) => Err(e),
                }
            },
        }
    }
}

/// The kinds of generic system counters held in the durable key/value store.
#[derive(Debug, Clone, Copy, PartialEq, Eq, Structural)]
pub enum SystemInfoType {
    VisitCount,
}

impl SystemInfoType {
    /// The storage key under which this counter kind is persisted.
    pub fn to_string(&self) -> (r: String)
        ensures
            r@ == "VisitCount"@,
    {
        match self {
            SystemInfoType::VisitCount => String::from_str("VisitCount"),
        }
    }
}

/// The sum of `n` unit increments.
pub open spec fn unit_increments(n: nat) -> Seq<i64> {
    Seq::new(n, |i: int| 1i64)
}

proof fn lemma_sum_of_unit_increments(n: nat)
    ensures
        sum_of(unit_increments(n)) == n,
    decreases n,
{
    if n > 0 {
        assert(unit_increments(n).drop_first() =~= unit_increments((n - 1) as nat));
        lemma_sum_of_unit_increments((n - 1) as nat);
    }
}

/// Law: applying any sequence of increments whose running totals stay in
/// i64 range and then draining returns exactly the sum of the amounts —
/// no increment is lost and none is counted twice. The drained value is the
/// delta of the resulting state (`take_visit_count_increase` returns it and
/// leaves the committed baseline untouched).
pub proof fn lemma_increments_then_drain(c: CounterView, amounts: Seq<i64>)
    requires
        forall|k: int|
            0 <= k <= amounts.len() ==> i64::MIN <= c.delta + sum_of(#[trigger] amounts.take(k))
                <= i64::MAX,
    ensures
        counter_after_increments(c, amounts).delta == c.delta + sum_of(amounts),
        counter_after_increments(c, amounts).committed == c.committed,
    decreases amounts.len(),
{
    if amounts.len() == 0 {
        assert(amounts.take(0) =~= amounts);
    } else {
        let rest = amounts.drop_first();
        assert(amounts.take(1).len() == 1);
        assert(amounts.take(1).drop_first() =~= Seq::<i64>::empty());
        assert(sum_of(amounts.take(1).drop_first()) == 0);
        assert(amounts.take(1)[0] == amounts[0]);
        assert(sum_of(amounts.take(1)) == amounts[0]);
        assert(amounts.take(0) =~= Seq::<i64>::empty());
        let c1 = counter_after_increment(c, amounts[0]);
        assert(c1.delta == c.delta + amounts[0]) by {
            lemma_wrap_add_i64_exact(c.delta, amounts[0]);
        };
        assert forall|k: int| 0 <= k <= rest.len() implies i64::MIN <= c1.delta + sum_of(
            #[trigger] rest.take(k),
        ) <= i64::MAX by {
            assert(amounts.take(k + 1).drop_first() =~= rest.take(k));
            assert(amounts.take(k + 1)[0] == amounts[0]);
            assert(sum_of(amounts.take(k + 1)) == amounts[0] + sum_of(rest.take(k)));
        };
        lemma_increments_then_drain(c1, rest);
        assert(amounts.take(amounts.len() as int) =~= amounts);
        assert(amounts.take(rest.len() as int + 1).drop_first() =~= rest.take(rest.len() as int));
        assert(rest.take(rest.len() as int) =~= rest);
        assert(sum_of(amounts) == amounts[0] + sum_of(rest));
    }
}

/// Law: immediately after `n` sequential increments of one, with no drain in
/// between, the observed current value equals the committed baseline plus `n`.
pub proof fn lemma_current_value_after_unit_increments(c: CounterView, n: nat)
    requires
        c.delta == 0,
        n <= i64::MAX,
    ensures
        current_value_of(counter_after_increments(c, unit_increments(n))) == c.committed + n,
{
    assert forall|k: int| 0 <= k <= unit_increments(n).len() implies i64::MIN <= c.delta + sum_of(
        #[trigger] unit_increments(n).take(k),
    ) <= i64::MAX by {
        assert(unit_increments(n).take(k) =~= unit_increments(k as nat));
        lemma_sum_of_unit_increments(k as nat);
    };
    lemma_increments_then_drain(c, unit_increments(n));
    lemma_sum_of_unit_increments(n);
}

} // verus!
