use networker_tester::dualstack::{absent_leg, happy_eyeballs_verdict, DualStackLeg};

fn leg(success: bool, tcp_us: Option<u64>, total_us: Option<u64>) -> DualStackLeg {
    DualStackLeg {
        attempted: true,
        success,
        addr: None,
        dns_us: None,
        tcp_us,
        tls_us: None,
        ttfb_us: None,
        total_us,
        error: None,
    }
}

#[test]
fn verdict_prefers_ipv6_within_grace() {
    let v = happy_eyeballs_verdict(&leg(true, Some(10_000), Some(50_000)), &leg(true, Some(200_000), Some(240_000)));
    assert!(v.starts_with("ipv6"), "{v}");
}

#[test]
fn verdict_falls_back_to_ipv4_beyond_grace() {
    let v = happy_eyeballs_verdict(&leg(true, Some(10_000), Some(50_000)), &leg(true, Some(300_000), Some(340_000)));
    assert!(v.starts_with("ipv4"), "{v}");
}

#[test]
fn verdict_single_family() {
    let v = happy_eyeballs_verdict(&leg(true, Some(5_000), Some(20_000)), &absent_leg("no AAAA"));
    assert_eq!(v, "ipv4 (only family with records)");
    let v = happy_eyeballs_verdict(&absent_leg("no A"), &leg(true, Some(5_000), Some(20_000)));
    assert_eq!(v, "ipv6 (only family with records)");
}

#[test]
fn verdict_failed_family_is_called_out() {
    let mut v6 = leg(false, None, None);
    v6.error = Some("connect refused".into());
    let v = happy_eyeballs_verdict(&leg(true, Some(5_000), Some(20_000)), &v6);
    assert_eq!(v, "ipv4 (ipv6 attempted but failed)");
}

#[test]
fn absent_leg_is_honest() {
    let l = absent_leg("no AAAA records");
    assert!(!l.attempted);
    assert!(!l.success);
    assert!(l.total_us.is_none());
    assert_eq!(l.error.as_deref(), Some("no AAAA records"));
}

#[test]
fn verdict_texts_give_times_in_ms() {
    let v = happy_eyeballs_verdict(&leg(true, Some(10_000), Some(50_000)), &leg(true, Some(200_100), Some(240_000)));
    assert_eq!(v, "ipv6 (connect 200.1ms within 250ms grace of ipv4's 10.0ms)");
    let v = happy_eyeballs_verdict(&leg(true, Some(10_000), None), &leg(true, Some(300_000), None));
    assert_eq!(v, "ipv4 (ipv6 connect 300.0ms exceeds ipv4's 10.0ms by more than the 250ms grace)");
}

#[test]
fn verdict_grace_boundary_goes_to_ipv6() {
    let v = happy_eyeballs_verdict(&leg(true, Some(10_000), None), &leg(true, Some(260_000), None));
    assert!(v.starts_with("ipv6"), "{v}");
    let v = happy_eyeballs_verdict(&leg(true, Some(10_000), None), &leg(true, Some(260_001), None));
    assert!(v.starts_with("ipv4"), "{v}");
}

#[test]
fn verdict_both_failed() {
    let v = happy_eyeballs_verdict(&leg(false, None, None), &leg(false, None, None));
    assert_eq!(v, "none (both families failed)");
    let v = happy_eyeballs_verdict(&leg(false, None, None), &leg(true, Some(1_000), None));
    assert_eq!(v, "ipv6 (ipv4 attempted but failed)");
}

use networker_tester::dualstack::{both_failed_message, compare_totals};

#[test]
fn totals_compare_only_when_both_completed() {
    let (f, d) = compare_totals(&leg(true, None, Some(50_000)), &leg(true, None, Some(30_000)));
    assert_eq!(f.as_deref(), Some("ipv6"));
    assert_eq!(d, Some(20_000));
    let (f, d) = compare_totals(&leg(true, None, Some(30_000)), &leg(true, None, Some(30_000)));
    assert_eq!(f.as_deref(), Some("ipv4"));
    assert_eq!(d, Some(0));
    assert_eq!(compare_totals(&leg(true, None, Some(1)), &absent_leg("no AAAA")), (None, None));
}

#[test]
fn both_failed_names_each_family() {
    let mut v4 = leg(false, None, None);
    v4.error = Some("refused".into());
    let m = both_failed_message(&v4, &absent_leg("no AAAA records"));
    assert_eq!(m.as_deref(), Some("Both address families failed — ipv4: refused; ipv6: no AAAA records"));
    let mut none = leg(false, None, None);
    none.error = None;
    assert_eq!(
        both_failed_message(&none, &none).as_deref(),
        Some("Both address families failed — ipv4: not attempted; ipv6: not attempted")
    );
    assert_eq!(both_failed_message(&leg(true, None, None), &v4), None);
}
