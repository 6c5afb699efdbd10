//! Character-sequence helpers: building strings piece by piece and rendering
//! integers in decimal.

use vstd::prelude::*;
use vstd::string::*;

verus! {

/// Appends one character to a string.
///
/// Wraps `String::push`, which appends the given char to the end of the
/// string; the contract states exactly that.
#[verifier::external_body]
pub fn push_char(s: &mut String, c: char)
    ensures
        final(s)@ == old(s)@.push(c),
{
    s.push(c);
}

/// Appends a string slice.
pub fn push_str(s: &mut String, t: &str)
    ensures
        final(s)@ == old(s)@ + t@,
{
    s.append(t);
}

/// A new string holding `t`.
pub fn string_of(t: &str) -> (s: String)
    ensures
        s@ == t@,
{
    String::from_str(t)
}

/// The characters of a string slice, in order.
pub fn chars_of(s: &str) -> (v: Vec<char>)
    ensures
        v@ == s@,
{
    let mut v: Vec<char> = Vec::new();
    for c in it: s.chars()
        invariant
            v@ == it.seq().take(it.index() as int),
            it.seq() == s@,
    {
        v.push(c);
    }
    v
}

/// A string holding the characters of `v`.
pub fn string_from_chars(v: &Vec<char>) -> (s: String)
    ensures
        s@ == v@,
{
    let mut s = String::new();
    let mut i: usize = 0;
    while i < v.len()
        invariant
            i <= v.len(),
            s@ == v@.take(i as int),
        decreases v.len() - i,
    {
        push_char(&mut s, v[i]);
        i = i + 1;
        assert(s@ =~= v@.take(i as int));
    }
    assert(v@.take(v.len() as int) =~= v@);
    s
}

pub open spec fn digit_char(d: nat) -> char {
    if d == 0 { '0' }
    else if d == 1 { '1' }
    else if d == 2 { '2' }
    else if d == 3 { '3' }
    else if d == 4 { '4' }
    else if d == 5 { '5' }
    else if d == 6 { '6' }
    else if d == 7 { '7' }
    else if d == 8 { '8' }
    else { '9' }
}

/// Decimal rendering of a natural number, without leading zeros.
pub open spec fn decimal(n: nat) -> Seq<char>
    decreases n,
{
    if n < 10 {
        seq![digit_char(n)]
    } else {
        decimal(n / 10).push(digit_char(n % 10))
    }
}

fn digit_char_exec(d: u64) -> (c: char)
    requires
        d < 10,
    ensures
        c == digit_char(d as nat),
{
    if d == 0 { '0' }
    else if d == 1 { '1' }
    else if d == 2 { '2' }
    else if d == 3 { '3' }
    else if d == 4 { '4' }
    else if d == 5 { '5' }
    else if d == 6 { '6' }
    else if d == 7 { '7' }
    else if d == 8 { '8' }
    else { '9' }
}

/// Appends the decimal rendering of `n`.
pub fn push_decimal(s: &mut String, n: u64)
    ensures
        final(s)@ == old(s)@ + decimal(n as nat),
    decreases n,
{
    if n >= 10 {
        push_decimal(s, n / 10);
    }
    push_char(s, digit_char_exec(n % 10));
    proof {
        if n >= 10 {
            assert(old(s)@ + decimal(n as nat) =~= old(s)@ + decimal((n / 10) as nat) + seq![digit_char((n % 10) as nat)]);
        } else {
            assert(old(s)@ + decimal(n as nat) =~= old(s)@.push(digit_char((n % 10) as nat)));
        }
    }
}


/// Renders a microsecond count as milliseconds with one decimal, rounding
/// half up (e.g. 10_050 µs → "10.1").
pub open spec fn ms_one_decimal(us: nat) -> Seq<char> {
    let tenths = (us + 50) / 100;
    decimal(tenths / 10).push('.').push(digit_char(tenths % 10))
}

/// Appends `ms_one_decimal(us)`.
pub fn push_ms_one_decimal(s: &mut String, us: u64)
    ensures
        final(s)@ == old(s)@ + ms_one_decimal(us as nat),
{
    let tenths: u64 = if us <= u64::MAX - 50 { (us + 50) / 100 } else { (us / 100) + if us % 100 >= 50 { 1 } else { 0 } };
    assert(tenths == (us + 50) / 100);
    push_decimal(s, tenths / 10);
    push_char(s, '.');
    push_char(s, digit_char_exec(tenths % 10));
    assert(final(s)@ =~= old(s)@ + ms_one_decimal(us as nat));
}

// ─────────────────────────────────────────────────────────────────────────────
// Matching
// ─────────────────────────────────────────────────────────────────────────────

pub open spec fn is_prefix(p: Seq<char>, s: Seq<char>) -> bool {
    p.len() <= s.len() && s.subrange(0, p.len() as int) == p
}

pub open spec fn is_suffix(p: Seq<char>, s: Seq<char>) -> bool {
    p.len() <= s.len() && s.subrange(s.len() - p.len(), s.len() as int) == p
}

pub open spec fn occurs_at(needle: Seq<char>, hay: Seq<char>, i: int) -> bool {
    0 <= i && i + needle.len() <= hay.len() && hay.subrange(i, i + needle.len()) == needle
}

pub open spec fn contains_seq(hay: Seq<char>, needle: Seq<char>) -> bool {
    exists|i: int| occurs_at(needle, hay, i)
}

/// Whether `p` equals the chars of `s` starting at `i`.
fn matches_at(s: &Vec<char>, p: &Vec<char>, i: usize) -> (r: bool)
    requires
        i + p@.len() <= s@.len(),
    ensures
        r == (s@.subrange(i as int, i + p@.len()) == p@),
{
    let slen = s.len();
    let mut k: usize = 0;
    while k < p.len()
        invariant
            i + p@.len() <= s@.len(),
            s@.len() == slen,
            k <= p@.len(),
            forall|j: int| 0 <= j < k ==> s@[i + j] == p@[j],
        decreases p@.len() - k,
    {
        if s[i + k] != p[k] {
            assert(s@.subrange(i as int, i + p@.len())[k as int] != p@[k as int]);
            return false;
        }
        k = k + 1;
    }
    assert(s@.subrange(i as int, i + p@.len()) =~= p@);
    true
}

/// Whether `s` starts with `p`.
pub fn starts_with(s: &str, p: &str) -> (r: bool)
    ensures
        r == is_prefix(p@, s@),
{
    let sv = chars_of(s);
    let pv = chars_of(p);
    if pv.len() > sv.len() {
        return false;
    }
    matches_at(&sv, &pv, 0)
}

/// Whether `s` ends with `p`.
pub fn ends_with(s: &str, p: &str) -> (r: bool)
    ensures
        r == is_suffix(p@, s@),
{
    let sv = chars_of(s);
    let pv = chars_of(p);
    if pv.len() > sv.len() {
        return false;
    }
    matches_at(&sv, &pv, sv.len() - pv.len())
}

/// Whether `needle` occurs anywhere in `hay`.
pub fn contains(hay: &str, needle: &str) -> (r: bool)
    ensures
        r == contains_seq(hay@, needle@),
{
    let hv = chars_of(hay);
    let nv = chars_of(needle);
    if nv.len() > hv.len() {
        assert(forall|i: int| !occurs_at(needle@, hay@, i));
        return false;
    }
    if nv.len() == 0 {
        assert(hay@.subrange(0, 0) =~= needle@);
        assert(occurs_at(needle@, hay@, 0));
        return true;
    }
    let last = hv.len() - nv.len();
    let mut i: usize = 0;
    while i <= last
        invariant
            last + nv@.len() == hv@.len(),
            nv@.len() >= 1,
            hv@.len() <= usize::MAX,
            hv@ == hay@,
            nv@ == needle@,
            forall|j: int| 0 <= j < i ==> !occurs_at(needle@, hay@, j),
        decreases last + 1 - i,
    {
        if matches_at(&hv, &nv, i) {
            assert(occurs_at(needle@, hay@, i as int));
            return true;
        }
        i = i + 1;
    }
    assert forall|j: int| !occurs_at(needle@, hay@, j) by {
        if 0 <= j && j + needle@.len() <= hay@.len() {
            assert(j < i);
        }
    }
    false
}

/// Equality of two string slices.
pub fn str_eq(a: &str, b: &str) -> (r: bool)
    ensures
        r == (a@ == b@),
{
    let av = chars_of(a);
    let bv = chars_of(b);
    if av.len() != bv.len() {
        return false;
    }
    let r = matches_at(&av, &bv, 0);
    assert(av@.subrange(0, bv@.len() as int) =~= av@);
    r
}

// ─────────────────────────────────────────────────────────────────────────────
// Trimming, splitting, case
// ─────────────────────────────────────────────────────────────────────────────

/// The Unicode `White_Space` property, as `char::is_whitespace` defines it.
pub open spec fn is_ws(c: char) -> bool {
    ||| '\u{9}' <= c <= '\u{d}'
    ||| c == ' '
    ||| c == '\u{85}'
    ||| c == '\u{a0}'
    ||| c == '\u{1680}'
    ||| '\u{2000}' <= c <= '\u{200a}'
    ||| c == '\u{2028}'
    ||| c == '\u{2029}'
    ||| c == '\u{202f}'
    ||| c == '\u{205f}'
    ||| c == '\u{3000}'
}

pub fn is_ws_exec(c: char) -> (r: bool)
    ensures
        r == is_ws(c),
{
    ('\u{9}' <= c && c <= '\u{d}') || c == ' ' || c == '\u{85}' || c == '\u{a0}' || c == '\u{1680}'
        || ('\u{2000}' <= c && c <= '\u{200a}') || c == '\u{2028}' || c == '\u{2029}' || c == '\u{202f}'
        || c == '\u{205f}' || c == '\u{3000}'
}

pub open spec fn trim_start_spec(s: Seq<char>) -> Seq<char>
    decreases s.len(),
{
    if s.len() > 0 && is_ws(s[0]) {
        trim_start_spec(s.drop_first())
    } else {
        s
    }
}

pub open spec fn trim_end_spec(s: Seq<char>) -> Seq<char>
    decreases s.len(),
{
    if s.len() > 0 && is_ws(s.last()) {
        trim_end_spec(s.drop_last())
    } else {
        s
    }
}

/// Leading and trailing whitespace removed, as `str::trim` does.
pub open spec fn trim_spec(s: Seq<char>) -> Seq<char> {
    trim_end_spec(trim_start_spec(s))
}

proof fn lemma_trim_start_skip(s: Seq<char>, i: int)
    requires
        0 <= i <= s.len(),
        forall|j: int| 0 <= j < i ==> is_ws(s[j]),
    ensures
        trim_start_spec(s) == trim_start_spec(s.skip(i)),
    decreases i,
{
    if i > 0 {
        assert(s.skip(1) =~= s.drop_first());
        assert(s.drop_first().skip(i - 1) =~= s.skip(i));
        lemma_trim_start_skip(s.drop_first(), i - 1);
    } else {
        assert(s.skip(0) =~= s);
    }
}

proof fn lemma_trim_end_take(s: Seq<char>, i: int)
    requires
        0 <= i <= s.len(),
        forall|j: int| i <= j < s.len() ==> is_ws(s[j]),
    ensures
        trim_end_spec(s) == trim_end_spec(s.take(i)),
    decreases s.len() - i,
{
    if i < s.len() {
        assert(s.drop_last().take(i) =~= s.take(i));
        lemma_trim_end_take(s.drop_last(), i);
    } else {
        assert(s.take(i) =~= s);
    }
}

/// The chars of `v[from..to]` with surrounding whitespace removed, as
/// `(start, end)` indices.
fn trim_bounds(v: &Vec<char>, from: usize, to: usize) -> (r: (usize, usize))
    requires
        from <= to <= v@.len(),
    ensures
        from <= r.0 <= r.1 <= to,
        v@.subrange(r.0 as int, r.1 as int) == trim_spec(v@.subrange(from as int, to as int)),
{
    let ghost seg = v@.subrange(from as int, to as int);
    let mut a = from;
    while a < to && is_ws_exec(v[a])
        invariant
            from <= a <= to <= v@.len(),
            forall|j: int| from <= j < a ==> is_ws(v@[j]),
        decreases to - a,
    {
        a = a + 1;
    }
    proof {
        lemma_trim_start_skip(seg, a - from);
        assert(seg.skip(a - from) =~= v@.subrange(a as int, to as int));
        let rest = v@.subrange(a as int, to as int);
        if rest.len() > 0 {
            assert(!is_ws(rest[0]));
        }
        assert(trim_start_spec(rest) == rest);
    }
    let mut b = to;
    while b > a && is_ws_exec(v[b - 1])
        invariant
            from <= a <= b <= to <= v@.len(),
            forall|j: int| b <= j < to ==> is_ws(v@[j]),
        decreases b - a,
    {
        b = b - 1;
    }
    proof {
        let rest = v@.subrange(a as int, to as int);
        lemma_trim_end_take(rest, b - a);
        assert(rest.take(b - a) =~= v@.subrange(a as int, b as int));
        let fin = v@.subrange(a as int, b as int);
        if fin.len() > 0 {
            assert(!is_ws(fin.last()));
        }
        assert(trim_end_spec(fin) == fin);
    }
    (a, b)
}

/// `s` with leading and trailing whitespace removed.
pub fn trim(s: &str) -> (r: String)
    ensures
        r@ == trim_spec(s@),
{
    let v = chars_of(s);
    let (a, b) = trim_bounds(&v, 0, v.len());
    assert(v@.subrange(0, v@.len() as int) =~= v@);
    let mut out = String::new();
    let mut i = a;
    while i < b
        invariant
            a <= i <= b <= v@.len(),
            out@ == v@.subrange(a as int, i as int),
        decreases b - i,
    {
        push_char(&mut out, v[i]);
        i = i + 1;
        assert(out@ =~= v@.subrange(a as int, i as int));
    }
    out
}

/// The pieces of `s` between occurrences of `sep`, as `str::split` yields
/// them (an empty string yields one empty piece).
pub open spec fn split_spec(s: Seq<char>, sep: char) -> Seq<Seq<char>>
    decreases s.len(),
{
    if s.len() == 0 {
        seq![Seq::<char>::empty()]
    } else {
        let r = split_spec(s.drop_last(), sep);
        if s.last() == sep {
            r.push(Seq::<char>::empty())
        } else {
            r.update(r.len() - 1, r.last().push(s.last()))
        }
    }
}

pub proof fn lemma_split_nonempty(s: Seq<char>, sep: char)
    ensures
        split_spec(s, sep).len() >= 1,
    decreases s.len(),
{
    if s.len() > 0 {
        lemma_split_nonempty(s.drop_last(), sep);
    }
}

/// The pieces of `s` separated by `sep`.
pub fn split_on(s: &str, sep: char) -> (r: Vec<String>)
    ensures
        r@.len() == split_spec(s@, sep).len(),
        forall|i: int| 0 <= i < r@.len() ==> (#[trigger] r@[i])@ == split_spec(s@, sep)[i],
{
    let v = chars_of(s);
    let mut out: Vec<String> = Vec::new();
    let mut cur = String::new();
    let mut i: usize = 0;
    assert(s@.take(0) =~= Seq::<char>::empty());
    while i < v.len()
        invariant
            v@ == s@,
            i <= v@.len(),
            out@.len() + 1 == split_spec(s@.take(i as int), sep).len(),
            forall|j: int| 0 <= j < out@.len() ==> (#[trigger] out@[j])@ == split_spec(s@.take(i as int), sep)[j],
            cur@ == split_spec(s@.take(i as int), sep).last(),
        decreases v@.len() - i,
    {
        let c = v[i];
        proof {
            assert(s@.take(i + 1).drop_last() =~= s@.take(i as int));
            assert(s@.take(i + 1).last() == c);
            lemma_split_nonempty(s@.take(i as int), sep);
        }
        if c == sep {
            out.push(cur);
            cur = String::new();
        } else {
            push_char(&mut cur, c);
        }
        i = i + 1;
    }
    assert(s@.take(v@.len() as int) =~= s@);
    out.push(cur);
    out
}

/// `line` without one trailing carriage return.
pub open spec fn strip_cr(line: Seq<char>) -> Seq<char> {
    if line.len() > 0 && line.last() == '\r' { line.drop_last() } else { line }
}

/// The lines of `s` as `str::lines` yields them: split at `\n`, a `\r`
/// before the `\n` dropped, and no empty line after a final `\n`.
pub open spec fn lines_spec(s: Seq<char>) -> Seq<Seq<char>> {
    let parts = split_spec(s, '\n');
    let body = if parts.last().len() == 0 { parts.drop_last() } else { parts };
    Seq::new(body.len(), |i: int| if i < parts.len() - 1 { strip_cr(body[i]) } else { body[i] })
}

/// The lines of `s` (see `lines_spec`).
pub fn lines_of(s: &str) -> (lines: Vec<String>)
    ensures
        lines@.len() == lines_spec(s@).len(),
        forall|i: int| 0 <= i < lines@.len() ==> (#[trigger] lines@[i])@ == lines_spec(s@)[i],
{
    let parts = split_on(s, '\n');
    proof { lemma_split_nonempty(s@, '\n'); }
    let n = parts.len();
    let last_empty = parts[n - 1].as_str().is_empty();
    let count = if last_empty { n - 1 } else { n };
    let mut lines: Vec<String> = Vec::new();
    let mut i: usize = 0;
    while i < count
        invariant
            n == parts@.len(),
            n == split_spec(s@, '\n').len(),
            n >= 1,
            forall|j: int| 0 <= j < n ==> (#[trigger] parts@[j])@ == split_spec(s@, '\n')[j],
            count == lines_spec(s@).len(),
            count <= n,
            i <= count,
            lines@.len() == i,
            forall|j: int| 0 <= j < i ==> (#[trigger] lines@[j])@ == lines_spec(s@)[j],
        decreases count - i,
    {
        let piece = chars_of(parts[i].as_str());
        let terminated = i < n - 1;
        let line = if terminated && piece.len() > 0 && piece[piece.len() - 1] == '\r' {
            let mut w: Vec<char> = Vec::new();
            let mut k: usize = 0;
            while k < piece.len() - 1
                invariant
                    piece@.len() > 0,
                    k <= piece@.len() - 1,
                    w@ == piece@.take(k as int),
                decreases piece@.len() - 1 - k,
            {
                w.push(piece[k]);
                k = k + 1;
                assert(w@ =~= piece@.take(k as int));
            }
            assert(w@ =~= piece@.drop_last());
            string_from_chars(&w)
        } else {
            string_from_chars(&piece)
        };
        lines.push(line);
        i = i + 1;
    }
    lines
}

/// ASCII lowercase of a char (other chars unchanged).
pub open spec fn ascii_lower(c: char) -> char {
    if 'A' <= c <= 'Z' { ((c as u32) + 32) as char } else { c }
}

pub fn ascii_lower_exec(c: char) -> (r: char)
    ensures
        r == ascii_lower(c),
{
    if 'A' <= c && c <= 'Z' {
        let u = (c as u32) + 32;
        assert(0x61 <= u <= 0x7a);
        char_from_ascii(u)
    } else {
        c
    }
}

fn char_from_ascii(u: u32) -> (c: char)
    requires
        u < 128,
    ensures
        c == u as char,
{
    (u as u8) as char
}

/// Lowercase per the Unicode `Lowercase` mapping that `str::to_lowercase`
/// implements.
pub uninterp spec fn unicode_lowercase(s: Seq<char>) -> Seq<char>;

/// Every char is ASCII (below 128).
pub open spec fn is_ascii_seq(s: Seq<char>) -> bool {
    forall|i: int| 0 <= i < s.len() ==> (#[trigger] s[i] as u32) < 128
}

/// Lowercases a string.
///
/// Wraps `str::to_lowercase`; its result is a function of the input alone
/// and is named `unicode_lowercase`. Of ASCII text it states what the
/// Unicode lowercase mapping gives there: `A`-`Z` become `a`-`z`, every other
/// ASCII char stays. Nothing more is stated.
#[verifier::external_body]
pub fn to_lowercase(s: &str) -> (r: String)
    ensures
        r@ == unicode_lowercase(s@),
        is_ascii_seq(s@) ==> r@ == ascii_lower_seq(s@),
{
    s.to_lowercase()
}


/// ASCII lowercase of every char (`str::to_ascii_lowercase`).
pub open spec fn ascii_lower_seq(s: Seq<char>) -> Seq<char> {
    s.map_values(|c: char| ascii_lower(c))
}

/// ASCII lowercasing keeps text ASCII, and doing it twice is doing it once.
pub proof fn lemma_ascii_lower_idempotent(s: Seq<char>)
    requires
        is_ascii_seq(s),
    ensures
        is_ascii_seq(ascii_lower_seq(s)),
        ascii_lower_seq(ascii_lower_seq(s)) == ascii_lower_seq(s),
{
    assert forall|i: int| 0 <= i < s.len() implies (#[trigger] ascii_lower_seq(s)[i] as u32) < 128 by {
        assert((s[i] as u32) < 128);
    }
    assert(ascii_lower_seq(ascii_lower_seq(s)) =~= ascii_lower_seq(s));
}

/// `s` without any trailing `c` (`str::trim_end_matches(c)`).
pub open spec fn trim_end_char(s: Seq<char>, c: char) -> Seq<char>
    decreases s.len(),
{
    if s.len() > 0 && s.last() == c {
        trim_end_char(s.drop_last(), c)
    } else {
        s
    }
}

/// `s` without any leading `c` (`str::trim_start_matches(c)`).
pub open spec fn trim_start_char(s: Seq<char>, c: char) -> Seq<char>
    decreases s.len(),
{
    if s.len() > 0 && s[0] == c {
        trim_start_char(s.drop_first(), c)
    } else {
        s
    }
}

proof fn lemma_trim_end_char_take(s: Seq<char>, c: char, i: int)
    requires
        0 <= i <= s.len(),
        forall|j: int| i <= j < s.len() ==> s[j] == c,
    ensures
        trim_end_char(s, c) == trim_end_char(s.take(i), c),
    decreases s.len() - i,
{
    if i < s.len() {
        assert(s.drop_last().take(i) =~= s.take(i));
        lemma_trim_end_char_take(s.drop_last(), c, i);
    } else {
        assert(s.take(i) =~= s);
    }
}

proof fn lemma_trim_start_char_skip(s: Seq<char>, c: char, i: int)
    requires
        0 <= i <= s.len(),
        forall|j: int| 0 <= j < i ==> s[j] == c,
    ensures
        trim_start_char(s, c) == trim_start_char(s.skip(i), c),
    decreases i,
{
    if i > 0 {
        assert(s.drop_first().skip(i - 1) =~= s.skip(i));
        lemma_trim_start_char_skip(s.drop_first(), c, i - 1);
    } else {
        assert(s.skip(0) =~= s);
    }
}

/// `s` with leading `open` and trailing `close` chars stripped, e.g. the
/// brackets around an IPv6 literal host.
pub fn strip_wrapping(s: &str, open: char, close: char) -> (r: String)
    ensures
        r@ == trim_end_char(trim_start_char(s@, open), close),
{
    let v = chars_of(s);
    let mut a: usize = 0;
    while a < v.len() && v[a] == open
        invariant
            a <= v@.len(),
            forall|j: int| 0 <= j < a ==> v@[j] == open,
        decreases v@.len() - a,
    {
        a = a + 1;
    }
    proof {
        lemma_trim_start_char_skip(s@, open, a as int);
        let rest = s@.skip(a as int);
        if rest.len() > 0 {
            assert(rest[0] != open);
        }
        assert(trim_start_char(rest, open) == rest);
    }
    let mut b: usize = v.len();
    while b > a && v[b - 1] == close
        invariant
            a <= b <= v@.len(),
            forall|j: int| b <= j < v@.len() ==> v@[j] == close,
        decreases b - a,
    {
        b = b - 1;
    }
    proof {
        let rest = s@.skip(a as int);
        lemma_trim_end_char_take(rest, close, b - a);
        assert(rest.take(b - a) =~= s@.subrange(a as int, b as int));
        let fin = s@.subrange(a as int, b as int);
        if fin.len() > 0 {
            assert(fin.last() != close);
        }
        assert(trim_end_char(fin, close) == fin);
    }
    let mut out = String::new();
    let mut i = a;
    while i < b
        invariant
            a <= i <= b <= v@.len(),
            v@ == s@,
            out@ == v@.subrange(a as int, i as int),
        decreases b - i,
    {
        push_char(&mut out, v[i]);
        i = i + 1;
        assert(out@ =~= v@.subrange(a as int, i as int));
    }
    out
}

/// `s` without trailing `c`, ASCII-lowercased.
pub fn trim_end_lower(s: &str, c: char) -> (r: String)
    ensures
        r@ == ascii_lower_seq(trim_end_char(s@, c)),
{
    let v = chars_of(s);
    let mut b: usize = v.len();
    while b > 0 && v[b - 1] == c
        invariant
            b <= v@.len(),
            forall|j: int| b <= j < v@.len() ==> v@[j] == c,
        decreases b,
    {
        b = b - 1;
    }
    proof {
        lemma_trim_end_char_take(s@, c, b as int);
        let fin = s@.take(b as int);
        if fin.len() > 0 {
            assert(fin.last() != c);
        }
        assert(trim_end_char(fin, c) == fin);
    }
    let mut out = String::new();
    let mut i: usize = 0;
    while i < b
        invariant
            i <= b <= v@.len(),
            v@ == s@,
            out@ == ascii_lower_seq(v@.take(i as int)),
        decreases b - i,
    {
        push_char(&mut out, ascii_lower_exec(v[i]));
        i = i + 1;
        assert(out@ =~= ascii_lower_seq(v@.take(i as int)));
    }
    assert(v@.take(b as int) =~= s@.take(b as int));
    out
}

/// ASCII lowercase of a string (`str::to_ascii_lowercase`).
pub fn to_ascii_lowercase(s: &str) -> (r: String)
    ensures
        r@ == ascii_lower_seq(s@),
{
    let v = chars_of(s);
    let mut out = String::new();
    let mut i: usize = 0;
    while i < v.len()
        invariant
            i <= v@.len(),
            out@ == ascii_lower_seq(v@.take(i as int)),
        decreases v@.len() - i,
    {
        push_char(&mut out, ascii_lower_exec(v[i]));
        i = i + 1;
        assert(out@ =~= ascii_lower_seq(v@.take(i as int)));
    }
    assert(v@.take(i as int) =~= s@);
    out
}

/// The number of chars in `s`.
pub fn char_count(s: &str) -> (n: usize)
    ensures
        n == s@.len(),
{
    s.unicode_len()
}

} // verus!
