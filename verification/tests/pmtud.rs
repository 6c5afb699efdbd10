use networker_tester::pmtud::{search_largest_fit, search_largest_fit_traced, ConfirmKind, SearchState, SizeClass};

#[test]
fn search_converges_on_exact_boundary() {
    let out = search_largest_fit(548, 9188, 28, |size| {
        Ok(if size <= 1472 {
            SizeClass::Fit
        } else {
            SizeClass::TooBig { mtu: Some(1500), wire_icmp: true }
        })
    })
    .unwrap();
    assert_eq!(out.largest_fit, Some(1472));
    assert!(out.confirmed_seen);
    assert!(out.wire_icmp_seen);
    assert!(out.bound_found);
    assert_eq!(out.icmp_mtu, Some(1500));
}

#[test]
fn search_ceiling_fit_reports_no_bound() {
    let out = search_largest_fit(548, 9188, 28, |_| Ok(SizeClass::Fit)).unwrap();
    assert_eq!(out.largest_fit, Some(9188));
    assert!(!out.bound_found, "no TooBig was ever observed");
}

#[test]
fn search_all_silent_settles_on_ceiling_without_evidence() {
    let out = search_largest_fit(548, 9188, 28, |_| Ok(SizeClass::Silent)).unwrap();
    assert_eq!(out.largest_fit, Some(9188));
    assert!(!out.confirmed_seen);
    assert!(!out.wire_icmp_seen);
    assert!(!out.bound_found);
}

#[test]
fn search_even_minimal_datagram_rejected() {
    let out = search_largest_fit(548, 9188, 28, |_| Ok(SizeClass::TooBig { mtu: None, wire_icmp: false })).unwrap();
    assert_eq!(out.largest_fit, None);
    assert!(out.bound_found);
}

#[test]
fn search_icmp_mtu_takes_the_tightest_bound() {
    let out = search_largest_fit(548, 9188, 28, |size| {
        Ok(if size <= 1252 {
            SizeClass::Silent
        } else {
            SizeClass::TooBig { mtu: Some(if size > 4000 { 4352 } else { 1280 }), wire_icmp: true }
        })
    })
    .unwrap();
    assert_eq!(out.largest_fit, Some(1252));
    assert_eq!(out.icmp_mtu, Some(1280));
}

#[test]
fn confirm_kind_labels() {
    assert_eq!(ConfirmKind::UdpEcho.label(), "udp-echo");
    assert_eq!(ConfirmKind::PortUnreach.label(), "port-unreach");
}

#[test]
fn search_passes_classifier_errors_through() {
    let r = search_largest_fit(548, 9188, 28, |size| {
        if size > 2000 {
            Err(format!("send failed at {size}"))
        } else {
            Ok(SizeClass::Fit)
        }
    });
    assert!(r.unwrap_err().starts_with("send failed at"));
}

#[test]
fn search_boundary_below_floor_falls_to_minimal_datagram() {
    let out = search_largest_fit(548, 9188, 28, |size| {
        Ok(if size <= 100 { SizeClass::Fit } else { SizeClass::TooBig { mtu: None, wire_icmp: false } })
    })
    .unwrap();
    assert_eq!(out.largest_fit, Some(100));
    assert!(out.bound_found);
}

#[test]
fn search_state_steps_by_hand() {
    let mut s = SearchState::start(548, 9188, 28);
    let mut probes = 0;
    while let Some(size) = s.next_probe() {
        s.observe(if size <= 1000 { SizeClass::Fit } else { SizeClass::TooBig { mtu: None, wire_icmp: true } });
        probes += 1;
        assert!(probes < 64);
    }
    assert_eq!(s.outcome().largest_fit, Some(1000));
}

use networker_tester::pmtud::{
    capability_confirmation, classify_err, discovery_verdict, effective_params, exhausted_class, feedback_decision,
    max_unfragmented_payload, probe_schedule, search_bounds, DfBackend, ErrEntry, ErrOrigin, LocalErrno,
    PmtudProbeConfig, ProbeFeedback, SearchOutcome,
};

#[test]
fn pmtud_defaults_and_bounds() {
    let c = PmtudProbeConfig::default();
    assert_eq!(c.target_port, 9999);
    assert_eq!(c.max_mtu, 9_216);
    let odd = PmtudProbeConfig { probe_timeout_ms: 0, max_mtu: 100, ..PmtudProbeConfig::default() };
    assert_eq!(effective_params(&odd), (1, 2, 576));
    assert_eq!(search_bounds(false, 9_216), (28, 548, 9_188));
    assert_eq!(search_bounds(true, 1_000), (48, 1_232, 1_232));
    assert_eq!(max_unfragmented_payload(Some(1500), 28), Some(1472));
    assert_eq!(max_unfragmented_payload(Some(10), 28), Some(0));
    assert_eq!(max_unfragmented_payload(None, 28), None);
}

#[test]
fn pmtud_feedback_decisions() {
    assert_eq!(capability_confirmation(ProbeFeedback::Echo), Some(ConfirmKind::UdpEcho));
    assert_eq!(capability_confirmation(ProbeFeedback::Nothing), None);
    assert_eq!(probe_schedule(false, 1_000, 2), (300, 1));
    assert_eq!(probe_schedule(true, 1_000, 2), (1_000, 3));
    assert_eq!(
        feedback_decision(ProbeFeedback::PortUnreach, None),
        (Some(SizeClass::Fit), Some(ConfirmKind::PortUnreach))
    );
    assert_eq!(feedback_decision(ProbeFeedback::Nothing, Some(ConfirmKind::UdpEcho)), (None, Some(ConfirmKind::UdpEcho)));
    assert_eq!(exhausted_class(true), SizeClass::TooBig { mtu: None, wire_icmp: false });
    assert_eq!(exhausted_class(false), SizeClass::Silent);
}

#[test]
fn pmtud_error_queue_classification() {
    assert_eq!(classify_err(ErrOrigin::Icmp, 3, 4, LocalErrno::Other, 1400), ErrEntry::Frag { mtu: Some(1400), wire_icmp: true });
    assert_eq!(classify_err(ErrOrigin::Icmp, 3, 3, LocalErrno::Other, 0), ErrEntry::PortUnreach);
    assert_eq!(classify_err(ErrOrigin::Icmp6, 2, 0, LocalErrno::Other, 0), ErrEntry::Frag { mtu: None, wire_icmp: true });
    assert_eq!(classify_err(ErrOrigin::Local, 0, 0, LocalErrno::MsgSize, 1500), ErrEntry::Frag { mtu: Some(1500), wire_icmp: false });
    assert_eq!(classify_err(ErrOrigin::Local, 0, 0, LocalErrno::ConnRefused, 0), ErrEntry::PortUnreach);
    assert_eq!(classify_err(ErrOrigin::Icmp, 11, 0, LocalErrno::Other, 0), ErrEntry::Other);
}

#[test]
fn pmtud_verdict_per_evidence_class() {
    let o = SearchOutcome { largest_fit: Some(1472), confirmed_seen: true, wire_icmp_seen: true, bound_found: true, icmp_mtu: Some(1500) };
    let d = discovery_verdict(DfBackend::Recverr, Some(ConfirmKind::UdpEcho), o, 28, 9188, 12);
    assert_eq!(d.path_mtu, Some(1500));
    assert_eq!(d.method, "df-udp-echo/ip-recverr");
    assert!(!d.lower_bound_only);
    let ceil = SearchOutcome { largest_fit: Some(9188), confirmed_seen: true, wire_icmp_seen: false, bound_found: false, icmp_mtu: None };
    let d = discovery_verdict(DfBackend::Dontfrag, Some(ConfirmKind::PortUnreach), ceil, 28, 9188, 3);
    assert!(d.lower_bound_only);
    assert_eq!(d.method, "df-dontfrag/port-unreach");
    let silent = SearchOutcome { largest_fit: Some(9188), confirmed_seen: false, wire_icmp_seen: false, bound_found: false, icmp_mtu: None };
    let d = discovery_verdict(DfBackend::Recverr, None, silent, 28, 9188, 3);
    assert_eq!(d.path_mtu, None);
    assert_eq!(d.method, "df-no-feedback");
    let icmp_only = SearchOutcome { wire_icmp_seen: true, bound_found: true, ..silent };
    let d = discovery_verdict(DfBackend::Recverr, None, icmp_only, 28, 9188, 3);
    assert_eq!(d.method, "df-icmp/ip-recverr");
    assert_eq!(d.path_mtu, Some(9216));
}

use networker_tester::pmtud::stamp_probe;

#[test]
fn probe_datagrams_carry_sequence_and_time() {
    let mut buf = vec![0xeeu8; 14];
    stamp_probe(&mut buf, 0x0102_0304, 0x1112_1314_1516_1718);
    assert_eq!(buf, vec![1, 2, 3, 4, 0x11, 0x12, 0x13, 0x14, 0x15, 0x16, 0x17, 0x18, 0xee, 0xee]);
    let mut short = vec![9u8; 11];
    stamp_probe(&mut short, 5, 6);
    assert_eq!(short, vec![9u8; 11]);
}

#[test]
fn search_stops_at_the_first_failing_probe() {
    let calls = std::cell::Cell::new(0u32);
    let last = std::cell::Cell::new(0u32);
    let r = search_largest_fit(548, 9188, 28, |size| {
        calls.set(calls.get() + 1);
        last.set(size);
        if size > 2000 { Err(format!("send failed at {size}")) } else { Ok(SizeClass::Fit) }
    });
    assert_eq!(r.unwrap_err(), format!("send failed at {}", last.get()));
    // floor 548 fits, then the first bisection probe (4868) fails.
    assert_eq!(calls.get(), 2);
    assert_eq!(last.get(), 4868);
}

#[test]
fn search_probes_within_bounds_and_budget() {
    let sizes = std::cell::RefCell::new(Vec::new());
    let (r, _log) = search_largest_fit_traced(548, 9188, 28, |size| {
        sizes.borrow_mut().push(size);
        Ok(if size <= 1472 { SizeClass::Fit } else { SizeClass::TooBig { mtu: None, wire_icmp: true } })
    });
    assert_eq!(r.unwrap().largest_fit, Some(1472));
    let sizes = sizes.into_inner();
    assert_eq!(sizes[0], 548);
    assert!(sizes.iter().all(|s| (32..=9188).contains(s)));
    // 2 + bit length of 9188 (14 bits)
    assert!(sizes.len() <= 16);
}
