//! Data model: monitored targets and recorded observations.

use vstd::prelude::*;

verus! {

/// A monitored HTTP endpoint. Identifiers are assigned at creation and
/// never change; no two targets share a `url`.
pub struct Target {
    pub id: i32,
    pub url: String,
}

/// One recorded outcome of probing a target at a point in time.
///
/// `status_code` is present iff the probe received an HTTP response;
/// `response_time_ms` is present iff the response was fully received,
/// which happens exactly when a status was received. A transport-level
/// failure (timeout, DNS, connection refused) leaves both absent.
#[derive(Clone, Copy)]
pub struct Observation {
    pub id: i32,
    pub target_id: i32,
    pub checked_at: i64,
    pub status_code: Option<i32>,
    pub response_time_ms: Option<i32>,
}

/// Well-formedness of a single observation: status and latency are both
/// present or both absent, and a measured latency is never negative.
pub open spec fn obs_wf(o: Observation) -> bool {
    &&& o.status_code is Some <==> o.response_time_ms is Some
    &&& o.response_time_ms is Some ==> o.response_time_ms->0 >= 0
}

} // verus!
