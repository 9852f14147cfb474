use vstd::prelude::*;

use crate::systeminfo::{current_value_of, wrap_add_i64, TempSystemInfo};

verus! {

/// The payload of the base system-info endpoint.
#[derive(Debug, Clone, Copy, PartialEq, Eq, Structural)]
pub struct BaseSystemInfoResponse {
    pub visitor_count: i64,
}

impl Default for BaseSystemInfoResponse {
    fn default() -> (r: Self)
        ensures
            r.visitor_count == 0,
    {
        BaseSystemInfoResponse { visitor_count: 0 }
    }
}

impl BaseSystemInfoResponse {
    /// The response body: the observed current value of the visit counter,
    /// committed baseline plus pending delta.
    pub fn of_counter(info: &TempSystemInfo) -> (r: Self)
        ensures
            r.visitor_count == wrap_add_i64(info@.committed, info@.delta),
            i64::MIN <= current_value_of(info@) <= i64::MAX ==> r.visitor_count == current_value_of(
                info@,
            ),
    {
        let committed = info.base_visit_count();
        let delta = info.base_visit_count_increase();
        BaseSystemInfoResponse { visitor_count: committed.wrapping_add(delta) }
    }
}

} // verus!
