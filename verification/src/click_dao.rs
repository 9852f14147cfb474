use vstd::prelude::*;

use crate::controller::{DbError, SystemError};

verus! {

/// A calendar day, as the click ledger keys its records.
#[derive(Debug, Clone, Copy, PartialEq, Eq, Structural)]
pub struct Date {
    pub year: i32,
    pub month: u32,
    pub day: u32,
}

impl Date {
    /// Month and day are in calendar range.
    pub open spec fn spec_valid(self) -> bool {
        1 <= self.month <= 12 && 1 <= self.day <= 31
    }

    pub fn new(year: i32, month: u32, day: u32) -> (r: Self)
        requires
            1 <= month <= 12,
            1 <= day <= 31,
        ensures
            r == (Date { year, month, day }),
            r.spec_valid(),
    {
        Date { year, month, day }
    }
}

/// The current UTC calendar day.
///
/// Relies on chrono::DateTime::from_timestamp and chrono::Datelike (year,
/// month, day): the result depends on the clock, so nothing is assumed
/// beyond the documented ranges of month (1..=12) and day (1..=31). A clock
/// before the Unix epoch or outside chrono's year range is read as the
/// epoch day rather than panicking.
#[verifier::external_body]
pub fn today_utc() -> (d: Date)
    ensures
        d.spec_valid(),
{
    let secs = std::time::SystemTime::now()
        .duration_since(std::time::UNIX_EPOCH)
        .map(|elapsed| elapsed.as_secs() as i64)
        .unwrap_or(0);
    match chrono::DateTime::from_timestamp(secs, 0) {
        Some(now) => Date {
            year: chrono::Datelike::year(&now),
            month: chrono::Datelike::month(&now),
            day: chrono::Datelike::day(&now),
        },
        None => Date { year: 1970, month: 1, day: 1 },
    }
}

/// One ledger row: clicks for one entity on one day, with genuine clicks
/// and display padding tracked separately.
#[derive(Debug, Clone, Copy, PartialEq, Eq, Structural)]
pub struct ClickRecord {
    pub level_id: i32,
    pub date: Date,
    pub count_today: i32,
    pub fake_count: i32,
}

/// Counts are non-negative and their sum fits an i32, so a combined read
/// cannot overflow.
pub open spec fn record_counts_ok(r: ClickRecord) -> bool {
    0 <= r.count_today && 0 <= r.fake_count && r.count_today + r.fake_count <= i32::MAX
}

/// At most one record per (entity, day) key.
pub open spec fn keys_unique(s: Seq<ClickRecord>) -> bool {
    forall|i: int, j: int|
        0 <= i < j < s.len() ==> !(s[i].level_id == s[j].level_id && s[i].date == s[j].date)
}

/// Whether a record for the key exists.
pub open spec fn has_record(s: Seq<ClickRecord>, level_id: i32, date: Date) -> bool {
    exists|i: int| 0 <= i < s.len() && s[i].level_id == level_id && s[i].date == date
}

/// The record stored under the key (meaningful only when `has_record`).
pub open spec fn record_for(s: Seq<ClickRecord>, level_id: i32, date: Date) -> ClickRecord {
    s[choose|i: int| 0 <= i < s.len() && s[i].level_id == level_id && s[i].date == date]
}

/// The count a read returns: the real count, or real plus padding, and zero
/// when no record exists.
pub open spec fn spec_click_count(
    s: Seq<ClickRecord>,
    level_id: i32,
    date: Date,
    with_fake: bool,
) -> i32 {
    if has_record(s, level_id, date) {
        let r = record_for(s, level_id, date);
        if with_fake {
            (r.count_today + r.fake_count) as i32
        } else {
            r.count_today
        }
    } else {
        0
    }
}

/// The ledger after a create-if-absent of the key: unchanged when the record
/// exists, extended by a zero-valued record otherwise.
pub open spec fn ensure_record_spec(s: Seq<ClickRecord>, level_id: i32, date: Date) -> Seq<
    ClickRecord,
> {
    if has_record(s, level_id, date) {
        s
    } else {
        s.push(ClickRecord { level_id, date, count_today: 0, fake_count: 0 })
    }
}

/// Access to the per-entity click records. The backing table is modelled in
/// memory, with its uniqueness constraint on the (entity, day) key as the
/// well-formedness invariant.
pub struct ClickDao {
    records: Vec<ClickRecord>,
}

impl ClickDao {
    pub closed spec fn records_view(&self) -> Seq<ClickRecord> {
        self.records@
    }

    pub open spec fn wf(&self) -> bool {
        keys_unique(self.records_view()) && (forall|i: int|
            0 <= i < self.records_view().len() ==> record_counts_ok(#[trigger] self.records_view()[i]))
    }

    /// An empty ledger.
    pub fn new() -> (r: Self)
        ensures
            r.records_view() == Seq::<ClickRecord>::empty(),
            r.wf(),
    {
        ClickDao { records: Vec::new() }
    }

    /// The index of the record for the key, scanning from the front.
    fn find_index(&self, level_id: i32, date: Date) -> (r: Option<usize>)
        requires
            self.wf(),
        ensures
            match r {
                Some(i) => i < self.records_view().len() && has_record(
                    self.records_view(),
                    level_id,
                    date,
                ) && record_for(self.records_view(), level_id, date) == self.records_view()[
                    i as int
                ] && self.records_view()[i as int].level_id == level_id && self.records_view()[
                    i as int
                ].date == date,
                None => !has_record(self.records_view(), level_id, date),
            },
    {
        let mut i: usize = 0;
        while i < self.records.len()
            invariant
                0 <= i <= self.records.len(),
                self.wf(),
                forall|j: int|
                    0 <= j < i ==> !(self.records@[j].level_id == level_id && self.records@[j].date
                        == date),
            decreases self.records.len() - i,
        {
            if self.records[i].level_id == level_id && self.records[i].date == date {
                proof {
                    assert(has_record(self.records@, level_id, date));
                    let j = choose|j: int|
                        0 <= j < self.records@.len() && self.records@[j].level_id == level_id
                            && self.records@[j].date == date;
                    assert(j == i as int);
                }
                return Some(i);
            }
            i = i + 1;
        }
        None
    }

    /// Creates a zero-valued record for the key if none exists; idempotent,
    /// so no second row can ever appear for a key already present.
    pub fn create_click(&mut self, level_id: i32, date: Date) -> (r: Result<(), SystemError>)
        requires
            old(self).wf(),
        ensures
            final(self).wf(),
            r == Ok::<(), SystemError>(()),
            final(self).records_view() == ensure_record_spec(
                old(self).records_view(),
                level_id,
                date,
            ),
    {
        match self.find_index(level_id, date) {
            Some(_) => Ok(()),
            None => self.do_create(level_id, date),
        }
    }

    /// Appends the zero-valued record; the caller has checked absence.
    fn do_create(&mut self, level_id: i32, date: Date) -> (r: Result<(), SystemError>)
        requires
            old(self).wf(),
            !has_record(old(self).records_view(), level_id, date),
        ensures
            final(self).wf(),
            r == Ok::<(), SystemError>(()),
            final(self).records_view() == old(self).records_view().push(
                ClickRecord { level_id, date, count_today: 0, fake_count: 0 },
            ),
    {
        let record = ClickRecord { level_id, date, count_today: 0, fake_count: 0 };
        self.records.push(record);
        Ok(())
    }

    /// Whether a record for the key exists.
    pub fn record_exists(&self, level_id: i32, date: Date) -> (r: Result<bool, SystemError>)
        requires
            self.wf(),
        ensures
            r == Ok::<bool, SystemError>(has_record(self.records_view(), level_id, date)),
    {
        match self.find_index(level_id, date) {
            Some(_) => Ok(true),
            None => Ok(false),
        }
    }

    /// The click count for the key: the real count, or real plus padding;
    /// zero (not an error) when no record exists.
    pub fn get_click_count(&self, level_id: i32, date: Date, with_fake: bool) -> (r: Result<
        i32,
        SystemError,
    >)
        requires
            self.wf(),
        ensures
            r == Ok::<i32, SystemError>(
                spec_click_count(self.records_view(), level_id, date, with_fake),
            ),
    {
        match self.find_index(level_id, date) {
            Some(i) => {
                let record = self.records[i];
                if with_fake {
                    Ok(record.count_today + record.fake_count)
                } else {
                    Ok(record.count_today)
                }
            },
            None => Ok(0),
        }
    }

    /// The click count for the current UTC day.
    pub fn get_today_click_count(&self, level_id: i32, with_fake: bool) -> (r: Result<
        i32,
        SystemError,
    >)
        requires
            self.wf(),
        ensures
            exists|d: Date|
                #[trigger] d.spec_valid() && r == Ok::<i32, SystemError>(
                    spec_click_count(self.records_view(), level_id, d, with_fake),
                ),
    {
        let today = today_utc();
        let r = self.get_click_count(level_id, today, with_fake);
        proof {
            assert(today.spec_valid() && r == Ok::<i32, SystemError>(
                spec_click_count(self.records_view(), level_id, today, with_fake),
            ));
        }
        r
    }

    /// Adds `incr` to the real count of the key's record as one conditional
    /// update, and returns the freshly read total. Fails with a not-found
    /// error — creating nothing — when no record matches: the record must be
    /// created first.
    pub fn increment_by(
        &mut self,
        level_id: i32,
        date: Date,
        incr: i32,
        return_fake: bool,
    ) -> (r: Result<i32, SystemError>)
        requires
            old(self).wf(),
            has_record(old(self).records_view(), level_id, date) ==> 0 <= incr && record_for(
                old(self).records_view(),
                level_id,
                date,
            ).count_today + incr + record_for(old(self).records_view(), level_id, date).fake_count
                <= i32::MAX,
        ensures
            final(self).wf(),
            !has_record(old(self).records_view(), level_id, date) ==> (r matches Err(
                SystemError::DbErr(DbError::RecordNotFound(_)),
            )) && final(self).records_view() == old(self).records_view(),
            has_record(old(self).records_view(), level_id, date) ==> has_record(
                final(self).records_view(),
                level_id,
                date,
            ) && record_for(final(self).records_view(), level_id, date) == (ClickRecord {
                level_id,
                date,
                count_today: (record_for(old(self).records_view(), level_id, date).count_today
                    + incr) as i32,
                fake_count: record_for(old(self).records_view(), level_id, date).fake_count,
            }) && r == Ok::<i32, SystemError>(
                spec_click_count(final(self).records_view(), level_id, date, return_fake),
            ) && (forall|id2: i32, d2: Date|
                !(id2 == level_id && d2 == date) ==> #[trigger] has_record(
                    final(self).records_view(),
                    id2,
                    d2,
                ) == has_record(old(self).records_view(), id2, d2) && (has_record(
                    old(self).records_view(),
                    id2,
                    d2,
                ) ==> record_for(final(self).records_view(), id2, d2) == record_for(
                    old(self).records_view(),
                    id2,
                    d2,
                ))),
    {
        match self.find_index(level_id, date) {
            None => Err(
                SystemError::DbErr(
                    DbError::RecordNotFound(String::from_str("No click record found")),
                ),
            ),
            Some(i) => {
                let record = self.records[i];
                let updated = ClickRecord {
                    level_id: record.level_id,
                    date: record.date,
                    count_today: record.count_today + incr,
                    fake_count: record.fake_count,
                };
                self.records.set(i, updated);
                proof {
                    lemma_record_lookup_after_update(
                        old(self).records@,
                        i as int,
                        updated,
                        level_id,
                        date,
                    );
                }
                if return_fake {
                    Ok(updated.count_today + updated.fake_count)
                } else {
                    Ok(updated.count_today)
                }
            },
        }
    }

    /// Adds `incr` to the padding count of the key's record; otherwise the
    /// same contract as `increment_by`.
    pub fn increment_fake_by(
        &mut self,
        level_id: i32,
        date: Date,
        incr: i32,
        return_fake: bool,
    ) -> (r: Result<i32, SystemError>)
        requires
            old(self).wf(),
            has_record(old(self).records_view(), level_id, date) ==> 0 <= incr && record_for(
                old(self).records_view(),
                level_id,
                date,
            ).count_today + incr + record_for(old(self).records_view(), level_id, date).fake_count
                <= i32::MAX,
        ensures
            final(self).wf(),
            !has_record(old(self).records_view(), level_id, date) ==> (r matches Err(
                SystemError::DbErr(DbError::RecordNotFound(_)),
            )) && final(self).records_view() == old(self).records_view(),
            has_record(old(self).records_view(), level_id, date) ==> has_record(
                final(self).records_view(),
                level_id,
                date,
            ) && record_for(final(self).records_view(), level_id, date) == (ClickRecord {
                level_id,
                date,
                count_today: record_for(old(self).records_view(), level_id, date).count_today,
                fake_count: (record_for(old(self).records_view(), level_id, date).fake_count
                    + incr) as i32,
            }) && r == Ok::<i32, SystemError>(
                spec_click_count(final(self).records_view(), level_id, date, return_fake),
            ) && (forall|id2: i32, d2: Date|
                !(id2 == level_id && d2 == date) ==> #[trigger] has_record(
                    final(self).records_view(),
                    id2,
                    d2,
                ) == has_record(old(self).records_view(), id2, d2) && (has_record(
                    old(self).records_view(),
                    id2,
                    d2,
                ) ==> record_for(final(self).records_view(), id2, d2) == record_for(
                    old(self).records_view(),
                    id2,
                    d2,
                ))),
    {
        match self.find_index(level_id, date) {
            None => Err(
                SystemError::DbErr(
                    DbError::RecordNotFound(String::from_str("No click record found")),
                ),
            ),
            Some(i) => {
                let record = self.records[i];
                let updated = ClickRecord {
                    level_id: record.level_id,
                    date: record.date,
                    count_today: record.count_today,
                    fake_count: record.fake_count + incr,
                };
                self.records.set(i, updated);
                proof {
                    lemma_record_lookup_after_update(
                        old(self).records@,
                        i as int,
                        updated,
                        level_id,
                        date,
                    );
                }
                if return_fake {
                    Ok(updated.count_today + updated.fake_count)
                } else {
                    Ok(updated.count_today)
                }
            },
        }
    }
}

/// After replacing the unique record of a key in place, lookups of that key
/// see the new record and lookups of every other key are unchanged.
proof fn lemma_record_lookup_after_update(
    s: Seq<ClickRecord>,
    i: int,
    record: ClickRecord,
    level_id: i32,
    date: Date,
)
    requires
        keys_unique(s),
        0 <= i < s.len(),
        s[i].level_id == level_id,
        s[i].date == date,
        record.level_id == level_id,
        record.date == date,
    ensures
        keys_unique(s.update(i, record)),
        has_record(s.update(i, record), level_id, date),
        record_for(s.update(i, record), level_id, date) == record,
        forall|id2: i32, d2: Date|
            !(id2 == level_id && d2 == date) ==> #[trigger] has_record(s.update(i, record), id2, d2)
                == has_record(s, id2, d2) && (has_record(s, id2, d2) ==> record_for(
                s.update(i, record),
                id2,
                d2,
            ) == record_for(s, id2, d2)),
{
    let updated = s.update(i, record);
    assert(forall|j: int| 0 <= j < s.len() && j != i ==> updated[j] == s[j]);
    assert(updated[i] == record);
    assert(keys_unique(updated));
    assert(has_record(updated, level_id, date));
    let j = choose|j: int|
        0 <= j < updated.len() && updated[j].level_id == level_id && updated[j].date == date;
    assert(j == i);
    assert forall|id2: i32, d2: Date| !(id2 == level_id && d2 == date) implies #[trigger] has_record(
        updated,
        id2,
        d2,
    ) == has_record(s, id2, d2) && (has_record(s, id2, d2) ==> record_for(updated, id2, d2)
        == record_for(s, id2, d2)) by {
        if has_record(s, id2, d2) {
            let a = choose|a: int| 0 <= a < s.len() && s[a].level_id == id2 && s[a].date == d2;
            assert(a != i);
            assert(updated[a].level_id == id2 && updated[a].date == d2);
            assert(has_record(updated, id2, d2));
            let b = choose|b: int|
                0 <= b < updated.len() && updated[b].level_id == id2 && updated[b].date == d2;
            assert(b != i);
            assert(s[b].level_id == id2 && s[b].date == d2);
            assert(a == b);
        }
        if has_record(updated, id2, d2) {
            let a = choose|a: int|
                0 <= a < updated.len() && updated[a].level_id == id2 && updated[a].date == d2;
            assert(a != i);
            assert(s[a].level_id == id2 && s[a].date == d2);
            assert(has_record(s, id2, d2));
        }
    };
}

/// Law: creating a record is idempotent — once a key is present, a second
/// create changes nothing, so two creates never yield two rows for one key
/// and a read after the second create is unchanged.
pub proof fn lemma_ensure_record_idempotent(s: Seq<ClickRecord>, level_id: i32, date: Date)
    ensures
        ensure_record_spec(ensure_record_spec(s, level_id, date), level_id, date)
            == ensure_record_spec(s, level_id, date),
        forall|with_fake: bool|
            #[trigger] spec_click_count(
                ensure_record_spec(ensure_record_spec(s, level_id, date), level_id, date),
                level_id,
                date,
                with_fake,
            ) == spec_click_count(
                ensure_record_spec(s, level_id, date),
                level_id,
                date,
                with_fake,
            ),
{
    if !has_record(s, level_id, date) {
        let once = ensure_record_spec(s, level_id, date);
        assert(once[s.len() as int].level_id == level_id && once[s.len() as int].date == date);
        assert(has_record(once, level_id, date));
    }
}

} // verus!
