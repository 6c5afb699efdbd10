use networker_tester::path::{
    classify_hop, effective_params, finish_trace, probe_port, trace_success, HopEvent, PathProbeConfig, TraceState,
    DEFAULT_PATH_BASE_PORT,
};
use networker_tester::pmtud::{ErrOrigin, LocalErrno};

#[test]
fn path_defaults_and_params() {
    let c = PathProbeConfig::default();
    assert_eq!(c.max_ttl, 30);
    assert_eq!(c.per_hop_timeout_ms, 1_000);
    assert_eq!(c.base_port, DEFAULT_PATH_BASE_PORT);
    let wild = PathProbeConfig { max_ttl: 500, per_hop_timeout_ms: 0, ..PathProbeConfig::default() };
    assert_eq!(effective_params(&wild), (64, 1));
    let low = PathProbeConfig { max_ttl: 0, ..PathProbeConfig::default() };
    assert_eq!(effective_params(&low).0, 1);
}

#[test]
fn probe_ports_step_and_wrap() {
    assert_eq!(probe_port(33_434, 1), 33_434);
    assert_eq!(probe_port(33_434, 3), 33_436);
    assert_eq!(probe_port(65_535, 2), 0);
}

#[test]
fn hop_feedback_classification() {
    assert_eq!(
        classify_hop(ErrOrigin::Icmp, 11, 0, LocalErrno::Other, Some(7u32)),
        HopEvent::TimeExceeded { offender: Some(7) }
    );
    assert_eq!(classify_hop(ErrOrigin::Icmp, 3, 3, LocalErrno::Other, Some(7u32)), HopEvent::DestinationReached);
    assert_eq!(
        classify_hop(ErrOrigin::Icmp, 3, 1, LocalErrno::Other, Some(7u32)),
        HopEvent::Unreachable { offender: Some(7) }
    );
    assert_eq!(classify_hop(ErrOrigin::Icmp6, 1, 4, LocalErrno::Other, None::<u32>), HopEvent::DestinationReached);
    assert_eq!(classify_hop(ErrOrigin::Local, 0, 0, LocalErrno::ConnRefused, None::<u32>), HopEvent::DestinationReached);
    assert_eq!(
        classify_hop(ErrOrigin::Local, 0, 0, LocalErrno::Other, Some(1u32)),
        HopEvent::Unreachable { offender: None }
    );
}

#[test]
fn trace_records_rows_and_stops_at_destination() {
    let mut s: TraceState<u32, u64> = TraceState::new();
    s.record(1, Some(HopEvent::TimeExceeded { offender: Some(10) }), 100, 99);
    s.record(2, None, 200, 99);
    s.record(3, Some(HopEvent::DestinationReached), 300, 99);
    assert!(s.done);
    let o = finish_trace(s);
    assert!(o.destination_reached);
    assert_eq!(o.hop_count, Some(3));
    assert_eq!(o.destination_rtt_ms, Some(300));
    let addrs: Vec<Option<u32>> = o.hops.iter().map(|h| h.addr).collect();
    assert_eq!(addrs, vec![Some(10), None, Some(99)]);
    assert!(trace_success(&o));
}

#[test]
fn all_silent_trace_reports_no_hops() {
    let mut s: TraceState<u32, u64> = TraceState::new();
    s.record(1, None, 1, 5);
    s.record(2, None, 1, 5);
    let o = finish_trace(s);
    assert!(o.hops.is_empty());
    assert!(!trace_success(&o));
}

use networker_tester::path::{estimate_step, TraceOutcome};

#[test]
fn ttl_estimate_counts_hops_without_rows() {
    let mut o: TraceOutcome<(), u32> = TraceOutcome { hops: Vec::new(), hop_count: None, destination_reached: false, destination_rtt_ms: None };
    estimate_step(&mut o, 1, false, 5);
    assert_eq!(o.hop_count, None);
    estimate_step(&mut o, 2, true, 9);
    assert!(o.destination_reached);
    assert_eq!(o.hop_count, Some(2));
    assert_eq!(o.destination_rtt_ms, Some(9));
    assert!(o.hops.is_empty());
}
