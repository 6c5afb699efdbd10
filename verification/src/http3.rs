//! HTTP/3 probe: how endpoint-setup and QUIC connection failures are
//! attributed to a phase.

use vstd::prelude::*;
use crate::metrics::ErrorCategory;
use crate::text::{ascii_lower_seq, contains, contains_seq, is_prefix, starts_with, to_ascii_lowercase};

verus! {

/// The phase an endpoint-setup failure message points at: TLS configuration,
/// a missing host (configuration), or anything else.
pub open spec fn endpoint_error_category(msg: Seq<char>) -> ErrorCategory {
    if contains_seq(msg, "TLS config"@) || contains_seq(msg, "QUIC TLS config"@) {
        ErrorCategory::Tls
    } else if is_prefix("No host"@, msg) {
        ErrorCategory::Config
    } else {
        ErrorCategory::Other
    }
}

/// Classifies a QUIC endpoint-construction error message by phase.
pub fn classify_endpoint_build_error(msg: &str) -> (c: ErrorCategory)
    ensures
        c == endpoint_error_category(msg@),
{
    if contains(msg, "TLS config") || contains(msg, "QUIC TLS config") {
        ErrorCategory::Tls
    } else if starts_with(msg, "No host") {
        ErrorCategory::Config
    } else {
        ErrorCategory::Other
    }
}

/// How a QUIC connection attempt failed, as far as its classification goes.
#[derive(Debug, Clone, PartialEq, Eq)]
pub enum QuicFailure {
    /// The idle or handshake timer expired.
    TimedOut,
    /// The peer or the local stack closed with a transport error; its text.
    Transport(String),
    /// Any other reason (application close, reset, version mismatch, ...).
    Other,
}

/// Whether a lowercased transport-error text names the crypto handshake.
pub open spec fn names_handshake(lower: Seq<char>) -> bool {
    contains_seq(lower, "crypto"@) || contains_seq(lower, "tls"@)
        || contains_seq(lower, "certificate"@) || contains_seq(lower, "handshake"@)
}

/// QUIC has no TCP phase: a connection failure counts as the connect phase
/// (`Tcp`), unless it is a timeout or a transport error about the handshake.
pub open spec fn quic_failure_category(f: QuicFailure) -> ErrorCategory {
    match f {
        QuicFailure::TimedOut => ErrorCategory::Timeout,
        QuicFailure::Transport(text) => {
            if names_handshake(ascii_lower_seq(text@)) { ErrorCategory::Tls } else { ErrorCategory::Tcp }
        },
        QuicFailure::Other => ErrorCategory::Tcp,
    }
}

/// Classifies a QUIC connection failure by phase.
pub fn classify_quic_connection_error(f: &QuicFailure) -> (c: ErrorCategory)
    ensures
        c == quic_failure_category(*f),
{
    match f {
        QuicFailure::TimedOut => ErrorCategory::Timeout,
        QuicFailure::Transport(text) => {
            let lower = to_ascii_lowercase(text.as_str());
            if contains(lower.as_str(), "crypto") || contains(lower.as_str(), "tls")
                || contains(lower.as_str(), "certificate") || contains(lower.as_str(), "handshake") {
                ErrorCategory::Tls
            } else {
                ErrorCategory::Tcp
            }
        },
        QuicFailure::Other => ErrorCategory::Tcp,
    }
}

} // verus!
