use counter_core::systeminfo::TempSystemInfo;
use counter_core::systeminfo_response::BaseSystemInfoResponse;

#[test]
fn new_counter_is_zero() {
    let t = TempSystemInfo::new();
    assert_eq!(t.base_visit_count(), 0);
    assert_eq!(t.base_visit_count_increase(), 0);
}

#[test]
fn drain_returns_sum_of_increments() {
    // a sequence of increments followed by one drain yields exactly the sum
    let mut t = TempSystemInfo::new();
    t.increase_base_visit_count_by(3);
    t.increase_base_visit_count_by(4);
    t.increase_base_visit_count();
    assert_eq!(t.take_visit_count_increase(), 8);
    // the drain swapped the delta to zero and left the baseline alone
    assert_eq!(t.base_visit_count_increase(), 0);
    assert_eq!(t.base_visit_count(), 0);
    assert_eq!(t.take_visit_count_increase(), 0);
}

#[test]
fn current_value_after_unit_increments() {
    let mut t = TempSystemInfo::new();
    t.set_base_visit_count(100);
    for _ in 0..5 {
        t.increase_base_visit_count();
    }
    assert_eq!(t.base_visit_count() + t.base_visit_count_increase(), 105);
}

#[test]
fn set_base_visit_count_keeps_delta() {
    let mut t = TempSystemInfo::new();
    t.increase_base_visit_count_by(7);
    t.set_base_visit_count(50);
    assert_eq!(t.base_visit_count(), 50);
    assert_eq!(t.base_visit_count_increase(), 7);
}

#[test]
fn response_reads_committed_plus_delta() {
    let mut t = TempSystemInfo::new();
    t.set_base_visit_count(100);
    t.increase_base_visit_count_by(10);
    let r = BaseSystemInfoResponse::of_counter(&t);
    assert_eq!(r.visitor_count, 110);
    let d = BaseSystemInfoResponse::default();
    assert_eq!(d.visitor_count, 0);
}
