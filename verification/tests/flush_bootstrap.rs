use counter_core::controller::{AppState, DbError, SystemError};
use counter_core::scheduler::{flush_visit_count, TaskGate};
use counter_core::systeminfo::{SystemInfoType, TempSystemInfo};
use counter_core::systeminfo_dao::SystemInfoDao;

#[test]
fn flush_persists_committed_plus_delta() {
    let mut dao = SystemInfoDao::new();
    let mut temp = TempSystemInfo::new();
    temp.set_base_visit_count(100);
    temp.increase_base_visit_count_by(5);
    flush_visit_count(&mut temp, &mut dao).unwrap();
    assert_eq!(temp.base_visit_count(), 105);
    assert_eq!(temp.base_visit_count_increase(), 0);
    let row = dao.get_system_info(SystemInfoType::VisitCount).unwrap();
    assert_eq!(row.bigint1, Some(105));
}

#[test]
fn flush_with_zero_delta_writes_nothing() {
    let mut dao = SystemInfoDao::new();
    let mut temp = TempSystemInfo::new();
    temp.set_base_visit_count(100);
    flush_visit_count(&mut temp, &mut dao).unwrap();
    // no row was created: the read reports not-found
    match dao.get_system_info(SystemInfoType::VisitCount) {
        Err(SystemError::DbErr(DbError::RecordNotFound(_))) => {}
        other => panic!("expected RecordNotFound, got {:?}", other),
    }
}

#[test]
fn failed_flush_restores_delta_and_next_tick_persists_all() {
    let mut dao = SystemInfoDao::new();
    let mut temp = TempSystemInfo::new();
    temp.set_base_visit_count(100);
    temp.increase_base_visit_count_by(5);
    dao.inject_failures(1);
    // the durable write fails once: the drained delta goes back
    assert!(flush_visit_count(&mut temp, &mut dao).is_err());
    assert_eq!(temp.base_visit_count(), 100);
    assert_eq!(temp.base_visit_count_increase(), 5);
    // more increments arrive before the next tick
    temp.increase_base_visit_count_by(3);
    // the next tick persists the full accumulated delta
    flush_visit_count(&mut temp, &mut dao).unwrap();
    assert_eq!(temp.base_visit_count(), 108);
    assert_eq!(temp.base_visit_count_increase(), 0);
    let row = dao.get_system_info(SystemInfoType::VisitCount).unwrap();
    assert_eq!(row.bigint1, Some(108));
}

#[test]
fn bootstrap_retries_once_and_loads_value() {
    let mut dao = SystemInfoDao::new();
    dao.save_system_info(SystemInfoType::VisitCount, 42).unwrap();
    dao.inject_failures(1);
    let state = AppState::new(60, 10, dao).unwrap();
    assert_eq!(state.temp_system_info().base_visit_count(), 42);
    assert_eq!(state.temp_system_info().base_visit_count_increase(), 0);
    assert_eq!(state.interval_seconds(), 60);
    assert_eq!(state.msg_update_interval_seconds(), 10);
}

#[test]
fn bootstrap_fails_after_two_failed_loads() {
    let mut dao = SystemInfoDao::new();
    dao.save_system_info(SystemInfoType::VisitCount, 42).unwrap();
    dao.inject_failures(2);
    match AppState::new(60, 10, dao) {
        Err(SystemError::DbErr(DbError::Transient(_))) => {}
        other => panic!("expected a transient failure, got {:?}", other.map(|_| ())),
    }
}

#[test]
fn bootstrap_reads_missing_value_as_error() {
    // no baseline row at all: the service must not start
    let dao = SystemInfoDao::new();
    match AppState::new(60, 10, dao) {
        Err(SystemError::DbErr(DbError::RecordNotFound(_))) => {}
        other => panic!("expected RecordNotFound, got {:?}", other.map(|_| ())),
    }
}

#[test]
fn record_visit_accumulates_in_memory() {
    let mut dao = SystemInfoDao::new();
    dao.save_system_info(SystemInfoType::VisitCount, 7).unwrap();
    let mut state = AppState::new(60, 10, dao).unwrap();
    state.record_visit();
    state.record_visit();
    assert_eq!(state.temp_system_info().base_visit_count(), 7);
    assert_eq!(state.temp_system_info().base_visit_count_increase(), 2);
}

#[test]
fn task_gate_skips_overlapping_tick() {
    let mut gate = TaskGate::new();
    assert!(gate.try_begin());
    // the tick is still running: the next one is skipped
    assert!(!gate.try_begin());
    gate.finish();
    assert!(gate.try_begin());
}
