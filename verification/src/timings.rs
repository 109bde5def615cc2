//! The detailed timings of one HTTP request.
use vstd::prelude::*;

use crate::time::Duration;

verus! {

/// How long each phase of an HTTP request took, and whether it succeeded.
#[derive(Debug, Clone, Copy, PartialEq, Eq, Structural)]
pub struct RequestInfo {
    pub latency: Duration,
    pub successful: bool,
    pub dns_time: Duration,
    pub tcp_connect_time: Duration,
    pub tls_handshake_time: Duration,
    pub request_write_time: Duration,
    pub response_time: Duration,
}

} // verus!
