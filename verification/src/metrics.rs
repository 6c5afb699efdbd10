//! Shared result vocabulary of the probes.

use vstd::prelude::*;

verus! {

/// Which phase a failure is attributed to.
#[derive(Debug, Clone, Copy, PartialEq, Eq, Structural)]
pub enum ErrorCategory {
    Dns,
    Tcp,
    Tls,
    Http,
    Udp,
    Timeout,
    Config,
    Other,
}

/// Which probe produced an attempt.
#[derive(Debug, Clone, Copy, PartialEq, Eq, Structural)]
pub enum Protocol {
    Http1,
    Http2,
    Http3,
    Tcp,
    Dns,
    Curl,
    Native,
    PageLoad,
    PageLoad2,
    PageLoad3,
    Browser,
    Browser1,
    Browser2,
    Browser3,
    DualStack,
    Ping,
    Path,
    Pmtud,
    Mthroughput,
    Responsiveness,
    Download,
    Download3,
    Upload,
    WebDownload,
    WebUpload,
}

} // verus!
