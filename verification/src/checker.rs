//! The verdict of one probe of a service.

use vstd::prelude::*;

verus! {

/// What one probe of a service found.
#[derive(Debug, Clone, Copy)]
pub struct CheckResult {
    pub healthy: bool,
    /// The round-trip time of a probe that got an answer.
    pub latency_ms: Option<u64>,
}

/// Whether an HTTP status code is in the success class (`200..=299`), as
/// `StatusCode::is_success` tests.
pub open spec fn is_success_status(status: u16) -> bool {
    200 <= status && status <= 299
}

impl CheckResult {
    /// An HTTP probe that got a response with status `status` after
    /// `latency_ms`: any 2xx response is healthy; 401/403 and the rest are not.
    pub fn from_http_response(status: u16, latency_ms: u64) -> (r: CheckResult)
        ensures
            r.healthy == is_success_status(status),
            r.healthy <==> (200 <= status && status <= 299),
            r.latency_ms == Some(latency_ms),
    {
        CheckResult { healthy: 200 <= status && status <= 299, latency_ms: Some(latency_ms) }
    }

    /// A TCP probe whose connect succeeded after `latency_ms`.
    pub fn from_tcp_connect(latency_ms: u64) -> (r: CheckResult)
        ensures
            r.healthy,
            r.latency_ms == Some(latency_ms),
    {
        CheckResult { healthy: true, latency_ms: Some(latency_ms) }
    }

    /// A probe that got no answer: a failed request, a refused or timed-out
    /// connect.
    pub fn unreachable() -> (r: CheckResult)
        ensures
            !r.healthy,
            r.latency_ms is None,
    {
        CheckResult { healthy: false, latency_ms: None }
    }
}


/// A status is a success exactly when it lies in `200..=299`: redirects
/// (3xx), client errors such as 401/403 (4xx) and server errors (5xx) are
/// not, nor are informational (1xx) statuses.
pub proof fn law_success_is_2xx(status: u16)
    ensures
        is_success_status(status) <==> (200 <= status && status <= 299),
        status == 200 || status == 204 || status == 299 ==> is_success_status(status),
        status == 199 || status == 300 || status == 302 || status == 401 || status == 403
            || status == 500 ==> !is_success_status(status),
{
}

} // verus!
