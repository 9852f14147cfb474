use vstd::prelude::*;

use crate::controller::{DbError, SystemError};
use crate::systeminfo::SystemInfoType;

verus! {

/// One durable key/value row: a counter kind and the committed integer
/// value stored under it.
#[derive(Debug, Clone, Copy, PartialEq, Eq, Structural)]
pub struct SystemInfoRow {
    pub kind: SystemInfoType,
    pub bigint1: Option<i64>,
}

/// There is at most one row per counter kind.
pub open spec fn kinds_unique(rows: Seq<SystemInfoRow>) -> bool {
    forall|i: int, j: int| 0 <= i < j < rows.len() ==> rows[i].kind != rows[j].kind
}

/// Whether a row for `kind` exists.
pub open spec fn has_kind(rows: Seq<SystemInfoRow>, kind: SystemInfoType) -> bool {
    exists|i: int| 0 <= i < rows.len() && rows[i].kind == kind
}

/// The row stored under `kind` (meaningful only when `has_kind` holds).
pub open spec fn row_for(rows: Seq<SystemInfoRow>, kind: SystemInfoType) -> SystemInfoRow {
    rows[choose|i: int| 0 <= i < rows.len() && rows[i].kind == kind]
}

/// The committed visit count a bootstrap load yields from `rows`: the value
/// of the visit-count row, with a missing value read as zero.
pub open spec fn loaded_visit_count(rows: Seq<SystemInfoRow>) -> i64 {
    match row_for(rows, SystemInfoType::VisitCount).bigint1 {
        Some(v) => v,
        None => 0,
    }
}

/// Access to the durable system-info rows. The store is modelled in memory:
/// rows keyed by counter kind, plus a count of simulated transient storage
/// failures that the next operations will report before succeeding again.
pub struct SystemInfoDao {
    rows: Vec<SystemInfoRow>,
    pending_failures: u32,
}

impl SystemInfoDao {
    pub closed spec fn rows_view(&self) -> Seq<SystemInfoRow> {
        self.rows@
    }

    pub closed spec fn spec_pending(&self) -> u32 {
        self.pending_failures
    }

    pub open spec fn wf(&self) -> bool {
        kinds_unique(self.rows_view())
    }

    /// An empty store with no pending simulated failures.
    pub fn new() -> (r: Self)
        ensures
            r.rows_view() == Seq::<SystemInfoRow>::empty(),
            r.spec_pending() == 0,
            r.wf(),
    {
        SystemInfoDao { rows: Vec::new(), pending_failures: 0 }
    }

    /// Makes the next `n` storage operations fail with a transient error,
    /// simulating connection or timeout trouble.
    pub fn inject_failures(&mut self, n: u32)
        ensures
            final(self).rows_view() == old(self).rows_view(),
            final(self).spec_pending() == n,
            final(self).wf() == old(self).wf(),
    {
        self.pending_failures = n;
    }

    /// Reads the row stored under `kind`. Fails with a transient error while
    /// simulated failures are pending; reports a missing row as not found.
    pub fn get_system_info(&mut self, kind: SystemInfoType) -> (r: Result<
        SystemInfoRow,
        SystemError,
    >)
        requires
            old(self).wf(),
        ensures
            final(self).wf(),
            final(self).rows_view() == old(self).rows_view(),
            old(self).spec_pending() > 0 ==> final(self).spec_pending() == old(self).spec_pending()
                - 1 && (r matches Err(SystemError::DbErr(DbError::Transient(_)))),
            old(self).spec_pending() == 0 ==> final(self).spec_pending() == 0 && (if has_kind(
                old(self).rows_view(),
                kind,
            ) {
                r == Ok::<SystemInfoRow, SystemError>(row_for(old(self).rows_view(), kind))
            } else {
                r matches Err(SystemError::DbErr(DbError::RecordNotFound(_)))
            }),
    {
        if self.pending_failures > 0 {
            self.pending_failures = self.pending_failures - 1;
            return Err(
                SystemError::DbErr(DbError::Transient(String::from_str("connection failed"))),
            );
        }
        let mut i: usize = 0;
        while i < self.rows.len()
            invariant
                0 <= i <= self.rows.len(),
                *self == *old(self),
                old(self).spec_pending() == 0,
                old(self).wf(),
                forall|j: int| 0 <= j < i ==> self.rows@[j].kind != kind,
            decreases self.rows.len() - i,
        {
            if self.rows[i].kind == kind {
                proof {
                    assert(has_kind(self.rows@, kind));
                    let j = choose|j: int| 0 <= j < self.rows@.len() && self.rows@[j].kind == kind;
                    assert(self.rows@[j].kind == kind);
                    assert(j == i as int);
                }
                return Ok(self.rows[i]);
            }
            i = i + 1;
        }
        proof {
            assert(!has_kind(self.rows@, kind));
        }
        Err(SystemError::DbErr(DbError::RecordNotFound(String::from_str("no system info row"))))
    }

    /// Writes `value` under `kind`, creating or overwriting the row. Fails
    /// with a transient error while simulated failures are pending, leaving
    /// the rows untouched.
    pub fn save_system_info(&mut self, kind: SystemInfoType, value: i64) -> (r: Result<
        (),
        SystemError,
    >)
        requires
            old(self).wf(),
        ensures
            final(self).wf(),
            old(self).spec_pending() > 0 ==> final(self).spec_pending() == old(self).spec_pending()
                - 1 && final(self).rows_view() == old(self).rows_view() && (r matches Err(
                SystemError::DbErr(DbError::Transient(_)),
            )),
            old(self).spec_pending() == 0 ==> final(self).spec_pending() == 0 && r == Ok::<
                (),
                SystemError,
            >(()) && has_kind(final(self).rows_view(), kind) && row_for(
                final(self).rows_view(),
                kind,
            ) == (SystemInfoRow { kind, bigint1: Some(value) }) && (forall|k2: SystemInfoType|
                k2 != kind ==> #[trigger] has_kind(final(self).rows_view(), k2) == has_kind(
                    old(self).rows_view(),
                    k2,
                ) && (has_kind(old(self).rows_view(), k2) ==> row_for(
                    final(self).rows_view(),
                    k2,
                ) == row_for(old(self).rows_view(), k2))),
    {
        if self.pending_failures > 0 {
            self.pending_failures = self.pending_failures - 1;
            return Err(
                SystemError::DbErr(DbError::Transient(String::from_str("connection failed"))),
            );
        }
        let row = SystemInfoRow { kind, bigint1: Some(value) };
        let mut i: usize = 0;
        while i < self.rows.len()
            invariant
                0 <= i <= self.rows.len(),
                *self == *old(self),
                old(self).spec_pending() == 0,
                old(self).wf(),
                row == (SystemInfoRow { kind, bigint1: Some(value) }),
                forall|j: int| 0 <= j < i ==> self.rows@[j].kind != kind,
            decreases self.rows.len() - i,
        {
            if self.rows[i].kind == kind {
                self.rows.set(i, row);
                proof {
                    lemma_row_lookup_after_update(old(self).rows@, i as int, row, kind);
                }
                return Ok(());
            }
            i = i + 1;
        }
        self.rows.push(row);
        proof {
            lemma_row_lookup_after_push(old(self).rows@, row, kind);
        }
        Ok(())
    }
}

/// After replacing the unique row of `kind` at index `i`, lookups of `kind`
/// see the new row and lookups of every other kind are unchanged.
proof fn lemma_row_lookup_after_update(
    rows: Seq<SystemInfoRow>,
    i: int,
    row: SystemInfoRow,
    kind: SystemInfoType,
)
    requires
        kinds_unique(rows),
        0 <= i < rows.len(),
        rows[i].kind == kind,
        row.kind == kind,
    ensures
        kinds_unique(rows.update(i, row)),
        has_kind(rows.update(i, row), kind),
        row_for(rows.update(i, row), kind) == row,
        forall|k2: SystemInfoType|
            k2 != kind ==> #[trigger] has_kind(rows.update(i, row), k2) == has_kind(rows, k2) && (
            has_kind(rows, k2) ==> row_for(rows.update(i, row), k2) == row_for(rows, k2)),
{
    let updated = rows.update(i, row);
    assert(forall|j: int| 0 <= j < rows.len() && j != i ==> updated[j] == rows[j]);
    assert(updated[i] == row);
    assert(kinds_unique(updated));
    assert(has_kind(updated, kind));
    let j = choose|j: int| 0 <= j < updated.len() && updated[j].kind == kind;
    assert(j == i);
    assert forall|k2: SystemInfoType| k2 != kind implies #[trigger] has_kind(updated, k2)
        == has_kind(rows, k2) && (has_kind(rows, k2) ==> row_for(updated, k2) == row_for(
        rows,
        k2,
    )) by {
        if has_kind(rows, k2) {
            let a = choose|a: int| 0 <= a < rows.len() && rows[a].kind == k2;
            assert(a != i);
            assert(updated[a].kind == k2);
            assert(has_kind(updated, k2));
            let b = choose|b: int| 0 <= b < updated.len() && updated[b].kind == k2;
            assert(b != i);
            assert(rows[b].kind == k2);
            assert(a == b);
        }
        if has_kind(updated, k2) {
            let a = choose|a: int| 0 <= a < updated.len() && updated[a].kind == k2;
            assert(a != i);
            assert(rows[a].kind == k2);
            assert(has_kind(rows, k2));
        }
    };
}

/// After appending a row of a kind not yet present, lookups of that kind see
/// the new row and lookups of every other kind are unchanged.
proof fn lemma_row_lookup_after_push(
    rows: Seq<SystemInfoRow>,
    row: SystemInfoRow,
    kind: SystemInfoType,
)
    requires
        kinds_unique(rows),
        !has_kind(rows, kind),
        row.kind == kind,
    ensures
        kinds_unique(rows.push(row)),
        has_kind(rows.push(row), kind),
        row_for(rows.push(row), kind) == row,
        forall|k2: SystemInfoType|
            k2 != kind ==> #[trigger] has_kind(rows.push(row), k2) == has_kind(rows, k2) && (
            has_kind(rows, k2) ==> row_for(rows.push(row), k2) == row_for(rows, k2)),
{
    let pushed = rows.push(row);
    assert(forall|j: int| 0 <= j < rows.len() ==> pushed[j] == rows[j]);
    assert(pushed[rows.len() as int] == row);
    assert(forall|j: int| 0 <= j < rows.len() ==> pushed[j].kind != kind);
    assert(kinds_unique(pushed));
    assert(has_kind(pushed, kind));
    let j = choose|j: int| 0 <= j < pushed.len() && pushed[j].kind == kind;
    assert(j == rows.len() as int);
    assert forall|k2: SystemInfoType| k2 != kind implies #[trigger] has_kind(pushed, k2)
        == has_kind(rows, k2) && (has_kind(rows, k2) ==> row_for(pushed, k2) == row_for(
        rows,
        k2,
    )) by {
        if has_kind(rows, k2) {
            let a = choose|a: int| 0 <= a < rows.len() && rows[a].kind == k2;
            assert(pushed[a].kind == k2);
            assert(has_kind(pushed, k2));
            let b = choose|b: int| 0 <= b < pushed.len() && pushed[b].kind == k2;
            assert(b != rows.len() as int);
            assert(rows[b].kind == k2);
            assert(a == b);
        }
        if has_kind(pushed, k2) {
            let a = choose|a: int| 0 <= a < pushed.len() && pushed[a].kind == k2;
            assert(a != rows.len() as int);
            assert(rows[a].kind == k2);
            assert(has_kind(rows, k2));
        }
    };
}

} // verus!
