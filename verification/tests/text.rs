use networker_tester::text::{char_count, lines_of, split_on, to_ascii_lowercase, trim, trim_end_lower};

#[test]
fn trims_unicode_whitespace() {
    assert_eq!(trim("  \t a b \u{3000}\n"), "a b");
    assert_eq!(trim(""), "");
}

#[test]
fn splits_like_str_split() {
    assert_eq!(split_on("a,,b", ','), vec!["a", "", "b"]);
    assert_eq!(split_on("", ','), vec![""]);
}

#[test]
fn lines_like_str_lines() {
    assert_eq!(lines_of("a\r\nb\n\nc"), vec!["a", "b", "", "c"]);
    assert_eq!(lines_of("a\n"), vec!["a"]);
    assert_eq!(lines_of("x\r"), vec!["x\r"]);
    assert!(lines_of("").is_empty());
}

#[test]
fn lowercasing() {
    assert_eq!(to_ascii_lowercase("ÀBC-d"), "Àbc-d");
    assert_eq!(trim_end_lower("WWW.Example.COM..", '.'), "www.example.com");
    assert_eq!(char_count("héllo"), 5);
}

use networker_tester::text::strip_wrapping;

#[test]
fn brackets_are_stripped_from_ipv6_hosts() {
    assert_eq!(strip_wrapping("[::1]", '[', ']'), "::1");
    assert_eq!(strip_wrapping("example.com", '[', ']'), "example.com");
}
