//! curl probe: how curl's exit status is attributed to a phase.

use vstd::prelude::*;
use crate::metrics::ErrorCategory;
use crate::text::{chars_of, lines_of, lines_spec, string_from_chars, str_eq, trim, trim_spec};

verus! {

/// curl exit codes that report a TLS failure (SSL connect, certificates,
/// pinned keys, crypto engine, ...).
pub open spec fn tls_exit_code(code: i32) -> bool {
    code == 35 || code == 51 || code == 53 || code == 54 || code == 58 || code == 59 || code == 60
        || code == 64 || code == 66 || code == 77 || code == 80 || code == 82 || code == 83
        || code == 90 || code == 91
}

/// The phase a curl exit status points at: name resolution and connection
/// refusal (6, 7) are DNS, 28 is a timeout, the TLS codes are TLS, anything
/// else is HTTP.
pub open spec fn exit_category(code: i32) -> ErrorCategory {
    if code == 6 || code == 7 {
        ErrorCategory::Dns
    } else if code == 28 {
        ErrorCategory::Timeout
    } else if tls_exit_code(code) {
        ErrorCategory::Tls
    } else {
        ErrorCategory::Http
    }
}

/// Classifies a failed curl run by its exit status.
pub fn error_category_for_exit(code: i32) -> (c: ErrorCategory)
    ensures
        c == exit_category(code),
{
    match code {
        6 | 7 => ErrorCategory::Dns,
        28 => ErrorCategory::Timeout,
        35 | 51 | 53 | 54 | 58 | 59 | 60 | 64 | 66 | 77 | 80 | 82 | 83 | 90 | 91 => ErrorCategory::Tls,
        _ => ErrorCategory::Http,
    }
}

/// How a finished curl run is reported.
#[derive(Debug, Clone, Copy, PartialEq, Eq, Structural)]
pub enum CurlOutcome {
    /// curl failed before any HTTP status arrived; the exit status names
    /// the phase.
    Failed(ErrorCategory),
    /// An HTTP status below 400 came back.
    Succeeded,
    /// An HTTP status of 400 or more came back: a failure recorded as an
    /// HTTP error naming the status.
    HttpError(u32),
    /// curl exited cleanly without a status: a failure with no error record.
    NoStatus,
}

pub open spec fn curl_outcome_spec(exit_ok: bool, exit_code: i32, http_code: u32) -> CurlOutcome {
    if !exit_ok && http_code == 0 {
        CurlOutcome::Failed(exit_category(exit_code))
    } else if 0 < http_code < 400 {
        CurlOutcome::Succeeded
    } else if http_code > 0 {
        CurlOutcome::HttpError(http_code)
    } else {
        CurlOutcome::NoStatus
    }
}

/// Decide a curl run from its exit status and the `http_code` of its
/// write-out report: a run succeeds exactly when a status in `1..400` came
/// back.
pub fn curl_outcome(exit_ok: bool, exit_code: i32, http_code: u32) -> (o: CurlOutcome)
    ensures
        o == curl_outcome_spec(exit_ok, exit_code, http_code),
        (o == CurlOutcome::Succeeded) == (0 < http_code < 400 && (exit_ok || http_code != 0)),
{
    if !exit_ok && http_code == 0 {
        CurlOutcome::Failed(error_category_for_exit(exit_code))
    } else if 0 < http_code && http_code < 400 {
        CurlOutcome::Succeeded
    } else if http_code > 0 {
        CurlOutcome::HttpError(http_code)
    } else {
        CurlOutcome::NoStatus
    }
}

// ─────────────────────────────────────────────────────────────────────────────
// Write-out report
// ─────────────────────────────────────────────────────────────────────────────

/// `str::split_once(c)`: the text before and after the first `c`.
pub open spec fn split_once_spec(s: Seq<char>, c: char) -> Option<(Seq<char>, Seq<char>)>
    decreases s.len(),
{
    if s.len() == 0 {
        None
    } else if s[0] == c {
        Some((Seq::empty(), s.skip(1)))
    } else {
        match split_once_spec(s.skip(1), c) {
            Some(kv) => Some((seq![s[0]] + kv.0, kv.1)),
            None => None,
        }
    }
}

/// The trimmed value of the last `key: value` line whose trimmed key is
/// `key`.
pub open spec fn last_value(lines: Seq<Seq<char>>, key: Seq<char>) -> Option<Seq<char>>
    decreases lines.len(),
{
    if lines.len() == 0 {
        None
    } else {
        match split_once_spec(lines.last(), ':') {
            Some(kv) => if trim_spec(kv.0) == key { Some(trim_spec(kv.1)) } else { last_value(lines.drop_last(), key) },
            None => last_value(lines.drop_last(), key),
        }
    }
}

pub open spec fn is_digit(c: char) -> bool {
    '0' <= c <= '9'
}

/// The value of a string of decimal digits.
pub open spec fn digits_value(s: Seq<char>) -> nat
    decreases s.len(),
{
    if s.len() == 0 { 0 } else { digits_value(s.drop_last()) * 10 + ((s.last() as u32) - ('0' as u32)) as nat }
}

/// The digits of an unsigned number's text: without a leading `+`.
pub open spec fn unsigned_digits(s: Seq<char>) -> Seq<char> {
    if s.len() > 0 && s[0] == '+' { s.skip(1) } else { s }
}

/// An unsigned integer's `str::parse`: an optional `+`, then one or more
/// ASCII digits whose value is at most `max`.
pub open spec fn parse_unsigned_spec(s: Seq<char>, max: nat) -> Option<nat> {
    let d = unsigned_digits(s);
    if d.len() > 0 && (forall|i: int| 0 <= i < d.len() ==> #[trigger] is_digit(d[i])) && digits_value(d) <= max {
        Some(digits_value(d))
    } else {
        None
    }
}

/// The timings and status a curl write-out report gives, one `key: value`
/// line each. Timings are kept as their text (seconds); the status code and
/// the body size are parsed, 0 when absent or not a number.
#[derive(Debug, Clone)]
pub struct WriteOut {
    pub dns: Option<String>,
    pub connect: Option<String>,
    pub tls: Option<String>,
    pub ttfb: Option<String>,
    pub total: Option<String>,
    pub code: u32,
    pub size_bytes: usize,
}

pub open spec fn text_view(o: Option<String>) -> Option<Seq<char>> {
    match o {
        Some(s) => Some(s@),
        None => None,
    }
}

/// A parsed number of a report line, 0 when the line is absent or its value
/// does not parse.
pub open spec fn number_field(lines: Seq<Seq<char>>, key: Seq<char>, max: nat) -> nat {
    match last_value(lines, key) {
        Some(v) => match parse_unsigned_spec(v, max) {
            Some(n) => n,
            None => 0,
        },
        None => 0,
    }
}

proof fn lemma_digits_monotone(s: Seq<char>, k: int)
    requires
        0 <= k <= s.len(),
        forall|i: int| 0 <= i < s.len() ==> #[trigger] is_digit(s[i]),
    ensures
        digits_value(s.take(k)) <= digits_value(s),
    decreases s.len() - k,
{
    if k < s.len() {
        lemma_digits_monotone(s, k + 1);
        assert(s.take(k + 1).drop_last() =~= s.take(k));
    } else {
        assert(s.take(k) =~= s);
    }
}

/// Parses an unsigned decimal number as `str::parse::<u64>` does, then keeps
/// it only when it is at most `max`.
pub fn parse_unsigned(s: &str, max: u64) -> (r: Option<u64>)
    ensures
        match r {
            Some(n) => parse_unsigned_spec(s@, max as nat) == Some(n as nat),
            None => parse_unsigned_spec(s@, max as nat) is None,
        },
{
    let v = chars_of(s);
    let start: usize = if v.len() > 0 && v[0] == '+' { 1 } else { 0 };
    let ghost d = unsigned_digits(s@);
    assert(d =~= s@.skip(start as int));
    if start >= v.len() {
        return None;
    }
    let mut value: u64 = 0;
    let mut i: usize = start;
    while i < v.len()
        invariant
            start <= i <= v@.len(),
            v@ == s@,
            d == s@.skip(start as int),
            d == unsigned_digits(s@),
            d.len() > 0,
            value as nat == digits_value(d.take(i - start)),
            value <= max,
            forall|j: int| 0 <= j < i - start ==> #[trigger] is_digit(d[j]),
        decreases v@.len() - i,
    {
        let c = v[i];
        assert(d[i - start] == c);
        if !('0' <= c && c <= '9') {
            assert(!is_digit(d[i - start]));
            return None;
        }
        let digit: u64 = ((c as u32) - ('0' as u32)) as u64;
        proof {
            assert(d.take(i - start + 1).drop_last() =~= d.take(i - start));
            assert(d.take(i - start + 1).last() == c);
        }
        let next = match value.checked_mul(10) {
            Some(t) => t.checked_add(digit),
            None => None,
        };
        match next {
            Some(n) => {
                if n > max {
                    proof {
                        if forall|j: int| 0 <= j < d.len() ==> #[trigger] is_digit(d[j]) {
                            lemma_digits_monotone(d, i - start + 1);
                        }
                    }
                    return None;
                }
                value = n;
            },
            None => {
                proof {
                    if forall|j: int| 0 <= j < d.len() ==> #[trigger] is_digit(d[j]) {
                        lemma_digits_monotone(d, i - start + 1);
                    }
                }
                return None;
            },
        }
        i = i + 1;
    }
    assert(d.take(i - start) =~= d);
    Some(value)
}

fn split_once_colon(line: &str) -> (r: Option<(String, String)>)
    ensures
        match r {
            Some(kv) => split_once_spec(line@, ':') == Some((kv.0@, kv.1@)),
            None => split_once_spec(line@, ':') is None,
        },
{
    let v = chars_of(line);
    let mut i: usize = 0;
    proof {
        assert(line@.skip(0) =~= line@);
        match split_once_spec(line@, ':') {
            Some(kv) => {
                assert(line@.take(0) + kv.0 =~= kv.0);
            },
            None => {},
        }
    }
    while i < v.len()
        invariant
            i <= v@.len(),
            v@ == line@,
            forall|j: int| 0 <= j < i ==> v@[j] != ':',
            split_once_spec(line@, ':') == match split_once_spec(line@.skip(i as int), ':') {
                Some(kv) => Some((line@.take(i as int) + kv.0, kv.1)),
                None => None,
            },
        decreases v@.len() - i,
    {
        if v[i] == ':' {
            let mut key: Vec<char> = Vec::new();
            let mut j: usize = 0;
            while j < i
                invariant
                    j <= i < v@.len(),
                    key@ == v@.take(j as int),
                decreases i - j,
            {
                key.push(v[j]);
                j = j + 1;
                assert(key@ =~= v@.take(j as int));
            }
            let mut val: Vec<char> = Vec::new();
            let mut k: usize = i + 1;
            while k < v.len()
                invariant
                    i + 1 <= k <= v@.len(),
                    val@ == v@.subrange(i + 1, k as int),
                decreases v@.len() - k,
            {
                val.push(v[k]);
                k = k + 1;
                assert(val@ =~= v@.subrange(i + 1, k as int));
            }
            proof {
                assert(line@.skip(i as int)[0] == ':');
                assert(line@.skip(i as int).skip(1) =~= v@.subrange(i + 1, v@.len() as int));
                assert(line@.take(i as int) + Seq::<char>::empty() =~= line@.take(i as int));
            }
            return Some((string_from_chars(&key), string_from_chars(&val)));
        }
        proof {
            let rest = line@.skip(i as int);
            assert(rest[0] == v@[i as int]);
            assert(rest.skip(1) =~= line@.skip(i + 1));
            assert(line@.take(i as int) + seq![v@[i as int]] =~= line@.take(i + 1));
            match split_once_spec(line@.skip(i + 1), ':') {
                Some(kv) => {
                    assert(line@.take(i as int) + (seq![v@[i as int]] + kv.0) =~= line@.take(i + 1) + kv.0);
                },
                None => {},
            }
        }
        i = i + 1;
    }
    assert(line@.skip(i as int).len() == 0);
    None
}

/// Parses curl's `--write-out` report: one `key: value` line per field
/// (`dns`, `connect`, `tls`, `ttfb`, `total` in seconds, `code`, `size`).
/// Keys and values are trimmed, a later line overrides an earlier one,
/// other lines are ignored.
pub fn parse_write_out(s: &str) -> (w: WriteOut)
    ensures
        text_view(w.dns) == last_value(lines_spec(s@), "dns"@),
        text_view(w.connect) == last_value(lines_spec(s@), "connect"@),
        text_view(w.tls) == last_value(lines_spec(s@), "tls"@),
        text_view(w.ttfb) == last_value(lines_spec(s@), "ttfb"@),
        text_view(w.total) == last_value(lines_spec(s@), "total"@),
        w.code == number_field(lines_spec(s@), "code"@, u32::MAX as nat),
        w.size_bytes == number_field(lines_spec(s@), "size"@, usize::MAX as nat),
{
    let lines = lines_of(s);
    let ghost ls = lines_spec(s@);
    let mut w = WriteOut { dns: None, connect: None, tls: None, ttfb: None, total: None, code: 0, size_bytes: 0 };
    let mut i: usize = 0;
    while i < lines.len()
        invariant
            ls == lines_spec(s@),
            lines@.len() == ls.len(),
            forall|j: int| 0 <= j < lines@.len() ==> (#[trigger] lines@[j])@ == ls[j],
            i <= lines@.len(),
            text_view(w.dns) == last_value(ls.take(i as int), "dns"@),
            text_view(w.connect) == last_value(ls.take(i as int), "connect"@),
            text_view(w.tls) == last_value(ls.take(i as int), "tls"@),
            text_view(w.ttfb) == last_value(ls.take(i as int), "ttfb"@),
            text_view(w.total) == last_value(ls.take(i as int), "total"@),
            w.code == number_field(ls.take(i as int), "code"@, u32::MAX as nat),
            w.size_bytes == number_field(ls.take(i as int), "size"@, usize::MAX as nat),
        decreases lines@.len() - i,
    {
        proof {
            assert(ls.take(i + 1).drop_last() =~= ls.take(i as int));
            assert(ls.take(i + 1).last() == lines@[i as int]@);
        }
        match split_once_colon(lines[i].as_str()) {
            Some(kv) => {
                let key = trim(kv.0.as_str());
                let val = trim(kv.1.as_str());
                let k = key.as_str();
                if str_eq(k, "dns") {
                    w.dns = Some(val.clone());
                }
                if str_eq(k, "connect") {
                    w.connect = Some(val.clone());
                }
                if str_eq(k, "tls") {
                    w.tls = Some(val.clone());
                }
                if str_eq(k, "ttfb") {
                    w.ttfb = Some(val.clone());
                }
                if str_eq(k, "total") {
                    w.total = Some(val.clone());
                }
                if str_eq(k, "code") {
                    w.code = match parse_unsigned(val.as_str(), u32::MAX as u64) {
                        Some(n) => n as u32,
                        None => 0,
                    };
                }
                if str_eq(k, "size") {
                    w.size_bytes = match parse_unsigned(val.as_str(), usize::MAX as u64) {
                        Some(n) => n as usize,
                        None => 0,
                    };
                }
            },
            None => {},
        }
        i = i + 1;
    }
    assert(ls.take(i as int) =~= ls);
    w
}

} // verus!
