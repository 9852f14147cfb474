use vstd::prelude::*;

use crate::systeminfo::{CounterView, SystemInfoType, TempSystemInfo};
use crate::systeminfo_dao::{has_kind, loaded_visit_count, SystemInfoDao};
use crate::utils::spec_decimal_i64;

verus! {

/// Errors reported by the durable store, reduced to a closed taxonomy:
/// transient trouble (connections, timeouts, locks) that a caller may retry,
/// and an update that matched no row.
#[derive(Debug, Clone, PartialEq, Eq)]
pub enum DbError {
    Transient(String),
    RecordNotFound(String),
}

/// The error type crossing component boundaries.
#[derive(Debug, Clone, PartialEq, Eq)]
pub enum SystemError {
    DbErr(DbError),
    InnerRetry,
    Busy(String),
    MoodSubmitTooFrequent(i64),
    AIError(String),
}

impl From<DbError> for SystemError {
    fn from(e: DbError) -> (r: Self) {
        SystemError::DbErr(e)
    }
}

impl vstd::std_specs::convert::FromSpecImpl<DbError> for SystemError {
    open spec fn obeys_from_spec() -> bool {
        true
    }

    open spec fn from_spec(e: DbError) -> Self {
        SystemError::DbErr(e)
    }
}

/// Error codes exposed to clients.
#[derive(Debug, Clone, Copy, PartialEq, Eq, Structural)]
pub enum PublicErrorCode {
    NotFound,
    Unauthorized,
    Forbidden,
    MoodSubmitTooFrequent,
    InvalidParameter,
    InternalServerError,
}

impl PublicErrorCode {
    /// The numeric code serialized for clients.
    pub open spec fn spec_code(self) -> u16 {
        match self {
            PublicErrorCode::NotFound => 40404,
            PublicErrorCode::Unauthorized => 40401,
            PublicErrorCode::Forbidden => 40403,
            PublicErrorCode::MoodSubmitTooFrequent => 40060,
            PublicErrorCode::InvalidParameter => 40000,
            PublicErrorCode::InternalServerError => 50000,
        }
    }

    pub fn code(&self) -> (r: u16)
        ensures
            r == self.spec_code(),
    {
        match self {
            PublicErrorCode::NotFound => 40404,
            PublicErrorCode::Unauthorized => 40401,
            PublicErrorCode::Forbidden => 40403,
            PublicErrorCode::MoodSubmitTooFrequent => 40060,
            PublicErrorCode::InvalidParameter => 40000,
            PublicErrorCode::InternalServerError => 50000,
        }
    }
}

/// The response class an error code maps to.
#[derive(Debug, Clone, Copy, PartialEq, Eq, Structural)]
pub enum ResponseClass {
    BadRequest,
    InternalServerError,
    Success,
}

/// The most significant decimal digit of a code.
pub open spec fn leading_decimal_digit(n: nat) -> nat
    decreases n,
{
    if n < 10 {
        n
    } else {
        leading_decimal_digit(n / 10)
    }
}

/// The response class a code belongs to, by its leading decimal digit.
pub open spec fn spec_response_class(code: u16) -> ResponseClass {
    if leading_decimal_digit(code as nat) == 4 {
        ResponseClass::BadRequest
    } else if leading_decimal_digit(code as nat) == 5 {
        ResponseClass::InternalServerError
    } else {
        ResponseClass::Success
    }
}

/// An error as exposed to clients: a numeric code and a display message.
#[derive(Debug, Clone, PartialEq, Eq)]
pub struct PublicError {
    status_code: PublicErrorCode,
    message: String,
}

impl PublicError {
    pub closed spec fn spec_status_code(&self) -> PublicErrorCode {
        self.status_code
    }

    pub closed spec fn spec_message(&self) -> Seq<char> {
        self.message@
    }

    pub fn new(status_code: PublicErrorCode, message: String) -> (r: Self)
        ensures
            r.spec_status_code() == status_code,
            r.spec_message() == message@,
    {
        PublicError { status_code, message }
    }

    pub fn status_code(&self) -> (r: PublicErrorCode)
        ensures
            r == self.spec_status_code(),
    {
        self.status_code
    }

    pub fn message(&self) -> (r: &str)
        ensures
            r@ == self.spec_message(),
    {
        self.message.as_str()
    }

    /// The class of response this error is reported as. Each code kind is
    /// mapped explicitly; the result agrees with classifying by the leading
    /// decimal digit of the numeric code.
    pub fn to_response_class(&self) -> (r: ResponseClass)
        ensures
            r == spec_response_class(self.spec_status_code().spec_code()),
    {
        proof {
            reveal_with_fuel(leading_decimal_digit, 7);
        }
        match self.status_code {
            PublicErrorCode::InternalServerError => ResponseClass::InternalServerError,
            _ => ResponseClass::BadRequest,
        }
    }
}

impl SystemError {
    /// Maps an internal error to the error shown to clients, hiding the
    /// internal details behind a closed code and a generic message.
    pub fn to_public_error(&self) -> (r: PublicError)
        ensures
            match *self {
                SystemError::DbErr(_) => r.spec_status_code()
                    == PublicErrorCode::InternalServerError && r.spec_message()
                    == "database error"@,
                SystemError::Busy(_) => r.spec_status_code()
                    == PublicErrorCode::InternalServerError && r.spec_message() == "system busy"@,
                SystemError::MoodSubmitTooFrequent(sec) => r.spec_status_code()
                    == PublicErrorCode::MoodSubmitTooFrequent && r.spec_message()
                    == "submitted too frequently, retry after "@ + spec_decimal_i64(sec as int)
                    + " seconds"@,
                SystemError::AIError(_) => r.spec_status_code()
                    == PublicErrorCode::InternalServerError && r.spec_message() == "AI error"@,
                SystemError::InnerRetry => r.spec_status_code()
                    == PublicErrorCode::InternalServerError && r.spec_message()
                    == "internal system error"@,
            },
    {
        match self {
            SystemError::DbErr(_) => PublicError::new(
                PublicErrorCode::InternalServerError,
                String::from_str("database error"),
            ),
            SystemError::Busy(_) => PublicError::new(
                PublicErrorCode::InternalServerError,
                String::from_str("system busy"),
            ),
            SystemError::MoodSubmitTooFrequent(sec) => {
                let mut m = String::from_str("submitted too frequently, retry after ");
                let digits = crate::utils::i64_to_string(*sec);
                m.append(digits.as_str());
                m.append(" seconds");
                proof {
                    assert(m@ =~= "submitted too frequently, retry after "@ + spec_decimal_i64(
                        *sec as int,
                    ) + " seconds"@);
                }
                PublicError::new(PublicErrorCode::MoodSubmitTooFrequent, m)
            },
            SystemError::AIError(_) => PublicError::new(
                PublicErrorCode::InternalServerError,
                String::from_str("AI error"),
            ),
            SystemError::InnerRetry => PublicError::new(
                PublicErrorCode::InternalServerError,
                String::from_str("internal system error"),
            ),
        }
    }
}

/// The state shared by every component of the process: flush and update
/// cadences, the in-memory counter, and the handle to the durable store.
pub struct AppState {
    interval_seconds: u64,
    msg_update_interval_seconds: u64,
    temp_system_info: TempSystemInfo,
    system_info_dao: SystemInfoDao,
}

impl AppState {
    pub closed spec fn spec_counter(&self) -> CounterView {
        self.temp_system_info@
    }

    pub closed spec fn spec_dao(&self) -> SystemInfoDao {
        self.system_info_dao
    }

    pub closed spec fn spec_interval_seconds(&self) -> u64 {
        self.interval_seconds
    }

    pub closed spec fn spec_msg_update_interval_seconds(&self) -> u64 {
        self.msg_update_interval_seconds
    }

    pub open spec fn wf(&self) -> bool {
        self.spec_dao().wf()
    }

    /// Builds the process state, performing the one-shot bootstrap load of
    /// the committed visit count (with its single retry). A failure of both
    /// load attempts, or a missing baseline row, is returned to the process
    /// entry point, which must treat it as fatal: the service must not start
    /// serving with an unknown counter baseline.
    pub fn new(interval_seconds: u64, msg_update_interval_seconds: u64, dao: SystemInfoDao) -> (r:
        Result<Self, SystemError>)
        requires
            dao.wf(),
        ensures
            dao.spec_pending() <= 1 && has_kind(dao.rows_view(), SystemInfoType::VisitCount) ==> (
            r matches Ok(st) && st.wf() && st.spec_counter() == (CounterView {
                committed: loaded_visit_count(dao.rows_view()),
                delta: 0,
            }) && st.spec_interval_seconds() == interval_seconds
                && st.spec_msg_update_interval_seconds() == msg_update_interval_seconds
                && st.spec_dao().rows_view() == dao.rows_view() && st.spec_dao().spec_pending()
                == 0),
            dao.spec_pending() >= 2 ==> (r matches Err(SystemError::DbErr(DbError::Transient(_)))),
            dao.spec_pending() <= 1 && !has_kind(dao.rows_view(), SystemInfoType::VisitCount) ==> (
            r matches Err(SystemError::DbErr(DbError::RecordNotFound(_)))),
    {
        let mut temp = TempSystemInfo::new();
        let mut dao = dao;
        match temp.load_visit_count_from_db(&mut dao) {
            Ok(_) => Ok(
                AppState {
                    interval_seconds,
                    msg_update_interval_seconds,
                    temp_system_info: temp,
                    system_info_dao: dao,
                },
            ),
            Err(e) => Err(e),
        }
    }

    /// Re-runs the bootstrap load against the current store.
    pub fn load_from_db(&mut self) -> (r: Result<(), SystemError>)
        requires
            old(self).wf(),
        ensures
            final(self).wf(),
            final(self).spec_interval_seconds() == old(self).spec_interval_seconds(),
            final(self).spec_msg_update_interval_seconds() == old(
                self,
            ).spec_msg_update_interval_seconds(),
            final(self).spec_dao().rows_view() == old(self).spec_dao().rows_view(),
            final(self).spec_counter().delta == old(self).spec_counter().delta,
            old(self).spec_dao().spec_pending() >= 2 ==> (r matches Err(
                SystemError::DbErr(DbError::Transient(_)),
            )) && final(self).spec_dao().spec_pending() == old(self).spec_dao().spec_pending() - 2
                && final(self).spec_counter() == old(self).spec_counter(),
            old(self).spec_dao().spec_pending() <= 1 ==> final(self).spec_dao().spec_pending() == 0
                && (if has_kind(old(self).spec_dao().rows_view(), SystemInfoType::VisitCount) {
                r == Ok::<(), SystemError>(()) && final(self).spec_counter() == (CounterView {
                    committed: loaded_visit_count(old(self).spec_dao().rows_view()),
                    delta: old(self).spec_counter().delta,
                })
            } else {
                (r matches Err(SystemError::DbErr(DbError::RecordNotFound(_))))
                    && final(self).spec_counter() == old(self).spec_counter()
            }),
    {
        self.temp_system_info.load_visit_count_from_db(&mut self.system_info_dao)
    }

    pub fn interval_seconds(&self) -> (r: u64)
        ensures
            r == self.spec_interval_seconds(),
    {
        self.interval_seconds
    }

    pub fn msg_update_interval_seconds(&self) -> (r: u64)
        ensures
            r == self.spec_msg_update_interval_seconds(),
    {
        self.msg_update_interval_seconds
    }

    pub fn temp_system_info(&self) -> (r: &TempSystemInfo)
        ensures
            r@ == self.spec_counter(),
    {
        &self.temp_system_info
    }

    /// One tick of the flush task, against this state's counter and store.
    pub fn flush_tick(&mut self) -> (r: Result<(), SystemError>)
        requires
            old(self).wf(),
        ensures
            final(self).wf(),
            crate::scheduler::flush_state_of(final(self).spec_counter(), final(self).spec_dao())
                == crate::scheduler::flush_step(
                crate::scheduler::flush_state_of(old(self).spec_counter(), old(self).spec_dao()),
            ),
            r == Ok::<(), SystemError>(()) <==> (old(self).spec_counter().delta == 0 || old(
                self,
            ).spec_dao().spec_pending() == 0),
            final(self).spec_interval_seconds() == old(self).spec_interval_seconds(),
            final(self).spec_msg_update_interval_seconds() == old(
                self,
            ).spec_msg_update_interval_seconds(),
    {
        crate::scheduler::flush_visit_count(&mut self.temp_system_info, &mut self.system_info_dao)
    }

    /// Records one visit in memory; never blocks, never fails, does no I/O.
    pub fn record_visit(&mut self)
        ensures
            final(self).spec_counter() == crate::systeminfo::counter_after_increment(
                old(self).spec_counter(),
                1,
            ),
            final(self).spec_dao() == old(self).spec_dao(),
            final(self).spec_interval_seconds() == old(self).spec_interval_seconds(),
            final(self).spec_msg_update_interval_seconds() == old(
                self,
            ).spec_msg_update_interval_seconds(),
    {
        self.temp_system_info.increase_base_visit_count();
    }
}

} // verus!
