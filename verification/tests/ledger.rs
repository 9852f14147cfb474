use counter_core::click_dao::{ClickDao, Date};
use counter_core::controller::{DbError, SystemError};

fn day() -> Date {
    Date::new(2024, 3, 15)
}

#[test]
fn create_click_is_idempotent() {
    let mut d = ClickDao::new();
    d.create_click(1, day()).unwrap();
    d.create_click(1, day()).unwrap();
    // still exactly one zero-valued record behind the key
    assert_eq!(d.get_click_count(1, day(), true).unwrap(), 0);
    let before = d.get_click_count(1, day(), false).unwrap();
    d.create_click(1, day()).unwrap();
    assert_eq!(d.get_click_count(1, day(), false).unwrap(), before);
    // incrementing touches the single record, not a duplicate
    assert_eq!(d.increment_by(1, day(), 2, false).unwrap(), 2);
    assert_eq!(d.increment_by(1, day(), 2, false).unwrap(), 4);
}

#[test]
fn increment_returns_fresh_total() {
    let mut d = ClickDao::new();
    d.create_click(9, day()).unwrap();
    d.increment_by(9, day(), 10, false).unwrap();
    d.increment_fake_by(9, day(), 3, false).unwrap();
    // record now holds real 10, fake 3
    assert_eq!(d.increment_by(9, day(), 5, true).unwrap(), 18);
}

#[test]
fn increment_without_fake_in_return() {
    let mut d = ClickDao::new();
    d.create_click(9, day()).unwrap();
    d.increment_by(9, day(), 10, false).unwrap();
    d.increment_fake_by(9, day(), 3, false).unwrap();
    assert_eq!(d.increment_by(9, day(), 5, false).unwrap(), 15);
}

#[test]
fn increment_missing_record_fails_and_creates_nothing() {
    let mut d = ClickDao::new();
    let r = d.increment_by(4, day(), 1, false);
    match r {
        Err(SystemError::DbErr(DbError::RecordNotFound(_))) => {}
        other => panic!("expected RecordNotFound, got {:?}", other),
    }
    assert!(!d.record_exists(4, day()).unwrap());
    assert_eq!(d.get_click_count(4, day(), true).unwrap(), 0);
}

#[test]
fn increment_fake_missing_record_fails() {
    let mut d = ClickDao::new();
    let r = d.increment_fake_by(4, day(), 1, true);
    match r {
        Err(SystemError::DbErr(DbError::RecordNotFound(_))) => {}
        other => panic!("expected RecordNotFound, got {:?}", other),
    }
    assert!(!d.record_exists(4, day()).unwrap());
}

#[test]
fn read_count_with_and_without_fake() {
    let mut d = ClickDao::new();
    d.create_click(2, day()).unwrap();
    d.increment_by(2, day(), 6, false).unwrap();
    d.increment_fake_by(2, day(), 4, false).unwrap();
    assert_eq!(d.get_click_count(2, day(), false).unwrap(), 6);
    assert_eq!(d.get_click_count(2, day(), true).unwrap(), 10);
}

#[test]
fn records_of_other_days_are_untouched() {
    let mut d = ClickDao::new();
    let other = Date::new(2024, 3, 16);
    d.create_click(2, day()).unwrap();
    d.create_click(2, other).unwrap();
    d.increment_by(2, day(), 6, false).unwrap();
    assert_eq!(d.get_click_count(2, other, true).unwrap(), 0);
}

#[test]
fn today_count_of_empty_ledger_is_zero() {
    let d = ClickDao::new();
    assert_eq!(d.get_today_click_count(77, true).unwrap(), 0);
}
