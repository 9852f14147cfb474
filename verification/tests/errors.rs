use counter_core::controller::{
    DbError, PublicError, PublicErrorCode, ResponseClass, SystemError,
};
use counter_core::systeminfo::SystemInfoType;
use counter_core::utils::{i64_to_string, u64_to_string};

#[test]
fn numeric_codes() {
    assert_eq!(PublicErrorCode::NotFound.code(), 40404);
    assert_eq!(PublicErrorCode::Unauthorized.code(), 40401);
    assert_eq!(PublicErrorCode::Forbidden.code(), 40403);
    assert_eq!(PublicErrorCode::MoodSubmitTooFrequent.code(), 40060);
    assert_eq!(PublicErrorCode::InvalidParameter.code(), 40000);
    assert_eq!(PublicErrorCode::InternalServerError.code(), 50000);
}

#[test]
fn response_classes_follow_leading_digit() {
    let bad = PublicError::new(PublicErrorCode::Forbidden, String::from("x"));
    assert_eq!(bad.to_response_class(), ResponseClass::BadRequest);
    let ise = PublicError::new(PublicErrorCode::InternalServerError, String::from("x"));
    assert_eq!(ise.to_response_class(), ResponseClass::InternalServerError);
}

#[test]
fn public_error_carries_code_and_message() {
    let e = PublicError::new(PublicErrorCode::NotFound, String::from("missing"));
    assert_eq!(e.status_code(), PublicErrorCode::NotFound);
    assert_eq!(e.message(), "missing");
}

#[test]
fn db_error_maps_to_internal_server_error() {
    let e = SystemError::DbErr(DbError::Transient(String::from("timeout")));
    let p = e.to_public_error();
    assert_eq!(p.status_code(), PublicErrorCode::InternalServerError);
    assert_eq!(p.message(), "database error");
}

#[test]
fn busy_and_inner_retry_and_ai_messages() {
    let busy = SystemError::Busy(String::from("q")).to_public_error();
    assert_eq!(busy.message(), "system busy");
    let inner = SystemError::InnerRetry.to_public_error();
    assert_eq!(inner.message(), "internal system error");
    let ai = SystemError::AIError(String::from("x")).to_public_error();
    assert_eq!(ai.message(), "AI error");
    assert_eq!(ai.status_code(), PublicErrorCode::InternalServerError);
}

#[test]
fn too_frequent_message_carries_seconds() {
    let e = SystemError::MoodSubmitTooFrequent(90).to_public_error();
    assert_eq!(e.status_code(), PublicErrorCode::MoodSubmitTooFrequent);
    assert_eq!(e.message(), "submitted too frequently, retry after 90 seconds");
}

#[test]
fn from_db_error() {
    let e = SystemError::from(DbError::RecordNotFound(String::from("r")));
    assert_eq!(e, SystemError::DbErr(DbError::RecordNotFound(String::from("r"))));
}

#[test]
fn decimal_rendering() {
    assert_eq!(u64_to_string(0), "0");
    assert_eq!(u64_to_string(12345), "12345");
    assert_eq!(u64_to_string(u64::MAX), "18446744073709551615");
    assert_eq!(i64_to_string(-7), "-7");
    assert_eq!(i64_to_string(i64::MIN), "-9223372036854775808");
    assert_eq!(i64_to_string(42), "42");
}

#[test]
fn kind_storage_key() {
    assert_eq!(SystemInfoType::VisitCount.to_string(), "VisitCount");
}
