use networker_tester::mthroughput::{
    limited_verdict, SocketStats, Verdict, DEFAULT_INTERVAL_MS, DEFAULT_MAD, DEFAULT_MAX_CONNECTIONS,
    DEFAULT_MAX_DURATION_MS,
};

fn stats(busy: Option<u64>, rwnd: Option<u64>, sndbuf: Option<u64>) -> SocketStats {
    SocketStats { busy_time_us: busy, rwnd_limited_us: rwnd, sndbuf_limited_us: sndbuf }
}

#[test]
fn verdict_unobserved_without_stats_or_triad() {
    assert_eq!(limited_verdict(None), Verdict::Unobserved);
    let s = stats(None, Some(1), Some(1));
    assert_eq!(limited_verdict(Some(&s)), Verdict::Unobserved);
    let s = stats(Some(0), None, None);
    assert_eq!(limited_verdict(Some(&s)), Verdict::Unobserved);
}

#[test]
fn verdict_rwnd_limited_when_share_noteworthy() {
    let s = stats(Some(1_000_000), Some(840_000), Some(10_000));
    assert_eq!(limited_verdict(Some(&s)), Verdict::RwndLimited(84));
    assert_eq!(limited_verdict(Some(&s)).to_string(), "rwnd-limited 84%");
}

#[test]
fn verdict_sndbuf_limited_when_share_noteworthy() {
    let s = stats(Some(1_000_000), Some(10_000), Some(250_000));
    assert_eq!(limited_verdict(Some(&s)), Verdict::SndbufLimited(25));
    assert_eq!(limited_verdict(Some(&s)).to_string(), "sndbuf-limited 25%");
}

#[test]
fn verdict_larger_limited_share_wins_when_both_noteworthy() {
    let s = stats(Some(1_000_000), Some(300_000), Some(200_000));
    assert_eq!(limited_verdict(Some(&s)), Verdict::RwndLimited(30));
    let s = stats(Some(1_000_000), Some(200_000), Some(300_000));
    assert_eq!(limited_verdict(Some(&s)), Verdict::SndbufLimited(30));
}

#[test]
fn verdict_path_limited_when_neither_share_noteworthy() {
    let s = stats(Some(1_000_000), Some(20_000), Some(10_000));
    assert_eq!(limited_verdict(Some(&s)), Verdict::PathLimited);
    assert_eq!(limited_verdict(Some(&s)).to_string(), "path-limited");
}

#[test]
fn verdict_threshold_and_rounding() {
    let s = stats(Some(1_000), Some(50), None);
    assert_eq!(limited_verdict(Some(&s)), Verdict::RwndLimited(5));
    let s = stats(Some(1_000), Some(49), None);
    assert_eq!(limited_verdict(Some(&s)), Verdict::PathLimited);
    let s = stats(Some(200), Some(101), None);
    assert_eq!(limited_verdict(Some(&s)), Verdict::RwndLimited(51));
    let s = stats(Some(100), Some(500), None);
    assert_eq!(limited_verdict(Some(&s)), Verdict::RwndLimited(100));
    let s = stats(Some(100), Some(40), Some(40));
    assert_eq!(limited_verdict(Some(&s)), Verdict::RwndLimited(40));
    assert_eq!(Verdict::Unobserved.to_string(), "unobserved");
}

#[test]
fn defaults_fit_time_box() {
    assert_eq!(DEFAULT_INTERVAL_MS, 1_000);
    assert_eq!(DEFAULT_MAX_CONNECTIONS, 8);
    assert_eq!(DEFAULT_MAD, 4);
    assert_eq!(DEFAULT_MAX_DURATION_MS, 15_000);
    assert!(
        (DEFAULT_MAX_CONNECTIONS as u64 * DEFAULT_INTERVAL_MS) + (DEFAULT_MAD as u64 * DEFAULT_INTERVAL_MS)
            <= DEFAULT_MAX_DURATION_MS
    );
}

use networker_tester::mthroughput::{
    measure_window_ticks, ramp_params, tally_verdicts, window_deltas, RampAction, RampState,
};

#[test]
fn ramp_adds_connections_until_stable_then_measures_for_the_window() {
    let mut s = RampState::new();
    assert_eq!(s.tick(false, 1, 8, 1, 4), RampAction::AddConnections(1));
    assert_eq!(s.tick(false, 7, 8, 3, 4), RampAction::AddConnections(1));
    assert_eq!(s.tick(false, 8, 8, 1, 4), RampAction::Hold);
    assert_eq!(s.tick(true, 8, 8, 1, 4), RampAction::StartMeasuring);
    assert!(s.saturation_reached);
    assert_eq!(s.tick(false, 8, 8, 1, 4), RampAction::Hold);
    assert_eq!(s.tick(true, 8, 8, 1, 4), RampAction::Hold);
    assert_eq!(s.tick(false, 8, 8, 1, 4), RampAction::Hold);
    assert_eq!(s.tick(false, 8, 8, 1, 4), RampAction::Stop);
}

#[test]
fn ramp_parameters_have_floors() {
    let p = ramp_params(0, 10, 5, 1);
    assert_eq!((p.initial_connections, p.interval_ms, p.cap_ms, p.mad), (1, 50, 10, 2));
    let p = ramp_params(2, 1_000, 15_000, 4);
    assert_eq!((p.initial_connections, p.interval_ms, p.cap_ms, p.mad), (2, 1_000, 15_000, 4));
}

#[test]
fn measure_window_and_deltas() {
    assert_eq!(measure_window_ticks(4, 10), 4);
    assert_eq!(measure_window_ticks(4, 3), 2);
    assert_eq!(measure_window_ticks(4, 0), 0);
    assert_eq!(window_deltas(&vec![10, 50], &vec![30, 40, 7], 3), vec![20, 0, 7]);
}

#[test]
fn verdicts_are_tallied_once_each() {
    let v = vec![
        Verdict::RwndLimited(10),
        Verdict::PathLimited,
        Verdict::PathLimited,
        Verdict::Unobserved,
        Verdict::SndbufLimited(7),
    ];
    assert_eq!(tally_verdicts(&v), (1, 1, 2, 1));
}
