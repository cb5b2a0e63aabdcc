//! Probe outcomes and their classification into observation fields.

use vstd::prelude::*;

verus! {

/// Timeout applied uniformly to every probe request, in seconds.
pub const PROBE_TIMEOUT_SECS: u64 = 20;

/// What a single HTTP GET against a target produced.
///
/// `Responded` carries the HTTP status and the wall-clock time, in
/// milliseconds, from just before the request was sent to just after the
/// response body was fully drained. `TransportFailed` covers every
/// network or protocol error, including timeout: an expected outcome of
/// monitoring an unreliable remote endpoint, not a fault of the monitor.
#[derive(Clone, Copy)]
pub enum ProbeOutcome {
    Responded { status_code: i32, response_time_ms: i32 },
    TransportFailed,
}

/// Well-formedness of a probe outcome: a measured latency is never
/// negative, and an HTTP status fits in the wire's 16-bit range.
pub open spec fn probe_wf(p: ProbeOutcome) -> bool {
    p matches ProbeOutcome::Responded { status_code, response_time_ms }
        ==> response_time_ms >= 0 && 0 <= status_code <= 0xffff
}

/// The observation fields that a probe outcome is recorded as:
/// `(Some(status), Some(latency))` on a response, `(None, None)` on a
/// transport failure.
pub open spec fn fields_of(p: ProbeOutcome) -> (Option<i32>, Option<i32>) {
    match p {
        ProbeOutcome::Responded { status_code, response_time_ms } => {
            (Some(status_code), Some(response_time_ms))
        },
        ProbeOutcome::TransportFailed => (None, None),
    }
}

/// Classify a probe outcome into the pair of optional fields stored in an
/// observation. Both fields come back present exactly when the probe got a
/// response: a transport failure is recorded as an explicit all-absent
/// pair, never dropped.
pub fn classify(p: &ProbeOutcome) -> (r: (Option<i32>, Option<i32>))
    ensures
        r == fields_of(*p),
        r.0 is Some <==> r.1 is Some,
        r.0 is Some <==> *p is Responded,
{
    match *p {
        ProbeOutcome::Responded { status_code, response_time_ms } => {
            (Some(status_code), Some(response_time_ms))
        },
        ProbeOutcome::TransportFailed => (None, None),
    }
}

} // verus!
