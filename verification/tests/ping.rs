use networker_tester::metrics::ErrorCategory;
use networker_tester::ping::{
    build_echo_request, credit_echo_reply, effective_params, icmp_checksum, is_network_status,
    parse_echo_reply, ping_error_category, ping_success, strip_ip_header, EchoKind, PingError, PingProbeConfig,
};

#[test]
fn ping_defaults_and_params() {
    let c = PingProbeConfig::default();
    assert_eq!(c.target_host, "127.0.0.1");
    assert_eq!(c.probe_count, 10);
    assert_eq!(c.timeout_ms, 5000);
    assert_eq!(c.payload_size, 56);
    let zero = PingProbeConfig { probe_count: 0, timeout_ms: 0, ..PingProbeConfig::default() };
    assert_eq!(effective_params(&zero), (1, 1));
    assert_eq!(effective_params(&c), (10, 5000));
}

#[test]
fn ping_errors_are_attributed() {
    let p = PingError::Permission { message: "denied".into(), hint: "sysctl".into() };
    assert_eq!(ping_error_category(&p), ErrorCategory::Config);
    assert_eq!(ping_error_category(&PingError::Unsupported("x".into())), ErrorCategory::Config);
    assert_eq!(ping_error_category(&PingError::Io("send".into())), ErrorCategory::Other);
    assert!(is_network_status(11_010));
    assert!(!is_network_status(87));
}

#[test]
fn success_needs_one_answer() {
    assert_eq!(ping_success(&vec![None, Some(1u32), None, Some(3)]), (2, true));
    assert_eq!(ping_success::<u32>(&vec![None, None]), (0, false));
}

#[test]
fn checksum_matches_rfc1071_example() {
    // RFC 1071 §3 example words 0001 f203 f4f5 f6f7 sum to ddf2 -> checksum 220d.
    assert_eq!(icmp_checksum(&[0x00, 0x01, 0xf2, 0x03, 0xf4, 0xf5, 0xf6, 0xf7]), 0x220d);
    assert_eq!(icmp_checksum(&[]), 0xffff);
    assert_eq!(icmp_checksum(&[0xff]), 0x00ff);
}

#[test]
fn echo_request_v4_checksum_verifies() {
    let mut packet = vec![0xaau8; 64];
    build_echo_request(&mut packet, false, 0x1234, 7, 0x0102_0304_0506_0708);
    assert_eq!(packet[0], 8);
    assert_eq!(&packet[4..8], &[0x12, 0x34, 0x00, 0x07]);
    assert_eq!(&packet[8..16], &[1, 2, 3, 4, 5, 6, 7, 8]);
    assert!(packet[16..].iter().all(|b| *b == 0));
    assert_eq!(icmp_checksum(&packet), 0);
}

#[test]
fn echo_request_with_jumbo_payload_checksum_verifies() {
    let mut packet = vec![0x55u8; 200_008];
    build_echo_request(&mut packet, false, 0xffff, 0xffff, u64::MAX);
    assert!(packet[16..].iter().all(|b| *b == 0));
    assert_eq!(icmp_checksum(&packet), 0);
}

#[test]
fn echo_request_v6_leaves_checksum_to_kernel() {
    let mut packet = vec![0u8; 16];
    build_echo_request(&mut packet, true, 1, 2, 3);
    assert_eq!(packet[0], 128);
    assert_eq!(&packet[2..4], &[0, 0]);
}

#[test]
fn ip_header_is_stripped_for_raw_v4() {
    let mut data = vec![0u8; 28];
    data[0] = 0x45;
    data[8] = 57;
    data[20] = 0;
    data[24] = 0xab;
    data[25] = 0xcd;
    data[27] = 9;
    assert_eq!(strip_ip_header(true, &data), (20, Some(57)));
    assert_eq!(parse_echo_reply(false, &data), Some((EchoKind::Reply, 0xabcd, 9, Some(57))));
    let bare = [129u8, 0, 0, 0, 0, 1, 0, 2];
    assert_eq!(parse_echo_reply(true, &bare), Some((EchoKind::Reply, 1, 2, None)));
    assert_eq!(parse_echo_reply(true, &bare[..7]), None);
    assert_eq!(parse_echo_reply(false, &bare), Some((EchoKind::Other, 1, 2, None)));
}

#[test]
fn replies_credit_only_sent_unanswered_probes() {
    let mut rtts: Vec<Option<u32>> = vec![None, None, None];
    let sent = vec![true, true, false];
    let mut ttl = None;
    assert!(credit_echo_reply(&mut rtts, &sent, 1, 42, None, Some(60), &mut ttl));
    assert_eq!(rtts, vec![None, Some(42), None]);
    assert_eq!(ttl, Some(60));
    assert!(!credit_echo_reply(&mut rtts, &sent, 1, 99, Some(1), None, &mut ttl), "duplicate");
    assert!(!credit_echo_reply(&mut rtts, &sent, 2, 5, None, None, &mut ttl), "never sent");
    assert!(!credit_echo_reply(&mut rtts, &sent, 7, 5, None, None, &mut ttl), "out of range");
    assert_eq!(rtts, vec![None, Some(42), None]);
    assert_eq!(ttl, Some(60));
}

use networker_tester::ping::classify_send_error;

#[test]
fn send_errors_are_loss_or_abort() {
    let mut rtts: Vec<Option<f64>> = vec![Some(1.0)];
    assert_eq!(classify_send_error(&mut rtts, 11_010), Ok(()));
    assert_eq!(rtts, vec![Some(1.0), None]);
    assert_eq!(
        classify_send_error(&mut rtts, 87),
        Err(PingError::Io("IcmpSendEcho failed (error 87)".to_string()))
    );
    assert_eq!(rtts.len(), 2);
}

use networker_tester::ping::record_echo;

#[test]
fn echo_rounds_record_rtt_loss_or_abort() {
    let mut rtts: Vec<Option<u32>> = Vec::new();
    let mut ttl = None;
    assert_eq!(record_echo(&mut rtts, &mut ttl, 1, 0, 12, Some(64), 0), Ok(()));
    assert_eq!(record_echo(&mut rtts, &mut ttl, 1, 11_013, 99, Some(1), 0), Ok(()));
    assert_eq!(record_echo(&mut rtts, &mut ttl, 0, 0, 5, None, 11_010), Ok(()));
    assert_eq!(rtts, vec![Some(12), None, None]);
    assert_eq!(ttl, Some(64));
    assert!(record_echo(&mut rtts, &mut ttl, 0, 0, 5, None, 5).is_err());
    assert_eq!(rtts.len(), 3);
}

#[test]
fn any_message_with_its_checksum_verifies() {
    let mut msg = vec![0xde, 0xad, 0x00, 0x00, 0xbe, 0xef, 0x12, 0x34, 0x56];
    let c = icmp_checksum(&msg);
    msg[2..4].copy_from_slice(&c.to_be_bytes());
    assert_eq!(icmp_checksum(&msg), 0);
}
