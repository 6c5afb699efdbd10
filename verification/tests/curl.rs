use networker_tester::curl::{curl_outcome, CurlOutcome};
use networker_tester::curl::{error_category_for_exit, parse_unsigned, parse_write_out};
use networker_tester::metrics::ErrorCategory;

#[test]
fn exit_codes_map_to_phases() {
    assert_eq!(error_category_for_exit(6), ErrorCategory::Dns);
    assert_eq!(error_category_for_exit(7), ErrorCategory::Dns);
    assert_eq!(error_category_for_exit(28), ErrorCategory::Timeout);
    for code in [35, 51, 53, 54, 58, 59, 60, 64, 66, 77, 80, 82, 83, 90, 91] {
        assert_eq!(error_category_for_exit(code), ErrorCategory::Tls, "code {code}");
    }
    assert_eq!(error_category_for_exit(22), ErrorCategory::Http);
    assert_eq!(error_category_for_exit(-1), ErrorCategory::Http);
}

#[test]
fn write_out_report_is_parsed() {
    let w = parse_write_out("dns:0.001\nconnect: 0.002 \r\ntls:0.010\nttfb:0.020\ntotal:0.030\ncode:200\nsize:1024\n");
    assert_eq!(w.dns.as_deref(), Some("0.001"));
    assert_eq!(w.connect.as_deref(), Some("0.002"));
    assert_eq!(w.tls.as_deref(), Some("0.010"));
    assert_eq!(w.ttfb.as_deref(), Some("0.020"));
    assert_eq!(w.total.as_deref(), Some("0.030"));
    assert_eq!(w.code, 200);
    assert_eq!(w.size_bytes, 1024);
}

#[test]
fn write_out_later_lines_win_and_junk_is_ignored() {
    let w = parse_write_out("garbage\ncode:301\n code : 404\nsize:abc\nother:1");
    assert_eq!(w.code, 404);
    assert_eq!(w.size_bytes, 0);
    assert_eq!(w.dns, None);
    let w = parse_write_out("");
    assert_eq!(w.code, 0);
    assert_eq!(w.total, None);
}

#[test]
fn unsigned_numbers_parse_like_std() {
    assert_eq!(parse_unsigned("200", u32::MAX as u64), Some(200));
    assert_eq!(parse_unsigned("+7", u32::MAX as u64), Some(7));
    assert_eq!(parse_unsigned("+", u32::MAX as u64), None);
    assert_eq!(parse_unsigned("", u32::MAX as u64), None);
    assert_eq!(parse_unsigned("-1", u32::MAX as u64), None);
    assert_eq!(parse_unsigned("4294967295", u32::MAX as u64), Some(4294967295));
    assert_eq!(parse_unsigned("4294967296", u32::MAX as u64), None);
    assert_eq!(parse_unsigned("99999999999999999999", u64::MAX), None);
    assert_eq!(parse_unsigned("1 2", u64::MAX), None);
}

#[test]
fn curl_outcome_follows_status_and_exit() {
    assert_eq!(curl_outcome(false, 6, 0), CurlOutcome::Failed(ErrorCategory::Dns));
    assert_eq!(curl_outcome(false, 28, 0), CurlOutcome::Failed(ErrorCategory::Timeout));
    assert_eq!(curl_outcome(true, 0, 200), CurlOutcome::Succeeded);
    assert_eq!(curl_outcome(true, 0, 399), CurlOutcome::Succeeded);
    assert_eq!(curl_outcome(true, 0, 404), CurlOutcome::HttpError(404));
    assert_eq!(curl_outcome(false, 22, 500), CurlOutcome::HttpError(500));
    assert_eq!(curl_outcome(true, 0, 0), CurlOutcome::NoStatus);
}
