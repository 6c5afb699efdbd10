use networker_tester::http3::{classify_endpoint_build_error, classify_quic_connection_error, QuicFailure};
use networker_tester::metrics::ErrorCategory;

#[test]
fn classify_endpoint_build_errors_by_phase() {
    assert_eq!(classify_endpoint_build_error("TLS config error: bad CA bundle"), ErrorCategory::Tls);
    assert_eq!(classify_endpoint_build_error("QUIC TLS config error: no cipher"), ErrorCategory::Tls);
    assert_eq!(classify_endpoint_build_error("No host in URL"), ErrorCategory::Config);
    assert_eq!(classify_endpoint_build_error("QUIC endpoint creation failed: eperm"), ErrorCategory::Other);
}

#[test]
fn classify_quic_timeout_is_timeout() {
    assert_eq!(classify_quic_connection_error(&QuicFailure::TimedOut), ErrorCategory::Timeout);
}

#[test]
fn classify_quic_reset_is_connectish() {
    assert_eq!(classify_quic_connection_error(&QuicFailure::Other), ErrorCategory::Tcp);
}

#[test]
fn classify_quic_transport_errors_by_text() {
    let tls = QuicFailure::Transport("CRYPTO_ERROR 0x130: TLS alert".to_string());
    assert_eq!(classify_quic_connection_error(&tls), ErrorCategory::Tls);
    let cert = QuicFailure::Transport("peer rejected Certificate".to_string());
    assert_eq!(classify_quic_connection_error(&cert), ErrorCategory::Tls);
    let hs = QuicFailure::Transport("HANDSHAKE failed".to_string());
    assert_eq!(classify_quic_connection_error(&hs), ErrorCategory::Tls);
    let flow = QuicFailure::Transport("FLOW_CONTROL_ERROR".to_string());
    assert_eq!(classify_quic_connection_error(&flow), ErrorCategory::Tcp);
}

#[test]
fn endpoint_error_needs_prefix_for_config() {
    assert_eq!(classify_endpoint_build_error("bad: No host"), ErrorCategory::Other);
    assert_eq!(classify_endpoint_build_error(""), ErrorCategory::Other);
}
