//! ICMP echo probe logic: the Internet checksum, echo-request framing,
//! echo-reply decoding and the crediting of replies to the probe whose
//! sequence id they carry.

use vstd::prelude::*;
use vstd::arithmetic::div_mod::{
    lemma_fundamental_div_mod, lemma_mod_multiples_vanish,
};
use crate::metrics::ErrorCategory;
use crate::text::{decimal, push_decimal, push_str, string_of};

verus! {

// ─────────────────────────────────────────────────────────────────────────────
// Configuration
// ─────────────────────────────────────────────────────────────────────────────

#[derive(Debug, Clone)]
pub struct PingProbeConfig {
    /// Hostname or IP literal to ping.
    pub target_host: String,
    /// Number of echo probes.
    pub probe_count: u32,
    /// Per-probe echo timeout in ms.
    pub timeout_ms: u64,
    /// ICMP payload size in bytes.
    pub payload_size: usize,
}

impl Default for PingProbeConfig {
    /// Loopback, 10 probes, 5 s timeout, the classic 56-byte payload.
    fn default() -> (c: PingProbeConfig)
        ensures
            c.target_host@ == "127.0.0.1"@,
            c.probe_count == 10,
            c.timeout_ms == 5000,
            c.payload_size == 56,
    {
        PingProbeConfig {
            target_host: string_of("127.0.0.1"),
            probe_count: 10,
            timeout_ms: 5000,
            payload_size: 56,
        }
    }
}

/// Probe parameters as the run uses them: at least one probe, a timeout of
/// at least 1 ms.
pub fn effective_params(cfg: &PingProbeConfig) -> (r: (u32, u64))
    ensures
        r.0 == (if cfg.probe_count >= 1 { cfg.probe_count } else { 1 }),
        r.1 == (if cfg.timeout_ms >= 1 { cfg.timeout_ms } else { 1 }),
{
    (
        if cfg.probe_count >= 1 { cfg.probe_count } else { 1 },
        if cfg.timeout_ms >= 1 { cfg.timeout_ms } else { 1 },
    )
}

/// Why the ICMP backend could not run.
#[derive(Debug, Clone, PartialEq, Eq)]
pub enum PingError {
    /// The OS denied the unprivileged ICMP socket — configuration, not
    /// network. `hint` carries the per-platform fix.
    Permission { message: String, hint: String },
    /// The platform has no unprivileged ICMP path.
    Unsupported(String),
    /// Everything else (bind/send errors, ...).
    Io(String),
}

/// Attribution of a backend failure: permission and platform gaps are
/// environment problems (`Config`), the rest is `Other`.
pub fn ping_error_category(e: &PingError) -> (c: ErrorCategory)
    ensures
        c == (match e {
            PingError::Permission { .. } => ErrorCategory::Config,
            PingError::Unsupported(_) => ErrorCategory::Config,
            PingError::Io(_) => ErrorCategory::Other,
        }),
{
    match e {
        PingError::Permission { .. } => ErrorCategory::Config,
        PingError::Unsupported(_) => ErrorCategory::Config,
        PingError::Io(_) => ErrorCategory::Other,
    }
}

/// An iphlpapi IP_STATUS code (the 11000 range) is a network outcome — the
/// probe is lost; any other failure code is an API failure.
pub fn is_network_status(code: u32) -> (r: bool)
    ensures
        r == (11_000 <= code <= 11_999),
{
    11_000 <= code && code <= 11_999
}

/// A failed echo send on the iphlpapi path: a network status (the 11000
/// range) is a lost probe, recorded as such; any other code aborts the run
/// as an API failure rather than masquerading as loss.
pub fn classify_send_error<T>(probe_rtts: &mut Vec<Option<T>>, code: u32) -> (r: Result<(), PingError>)
    ensures
        11_000 <= code <= 11_999 ==> r is Ok && final(probe_rtts)@ == old(probe_rtts)@.push(None),
        !(11_000 <= code <= 11_999) ==> final(probe_rtts)@ == old(probe_rtts)@ && (r matches Err(PingError::Io(m))
            && m@ == "IcmpSendEcho failed (error "@ + decimal(code as nat) + ")"@),
{
    if is_network_status(code) {
        probe_rtts.push(None);
        Ok(())
    } else {
        let mut m = string_of("IcmpSendEcho failed (error ");
        push_decimal(&mut m, code as u64);
        push_str(&mut m, ")");
        Err(PingError::Io(m))
    }
}

/// The iphlpapi status of a successful echo.
pub const IP_SUCCESS: u32 = 0;

/// One iphlpapi echo round. With an answer (`replies > 0`), a success status
/// records `rtt` (and the reply TTL, when the API reports one) and any other
/// status is a lost probe; without one, `last_error` decides as in
/// `classify_send_error`.
pub fn record_echo<T>(
    probe_rtts: &mut Vec<Option<T>>,
    reply_ttl: &mut Option<u32>,
    replies: u32,
    status: u32,
    rtt: T,
    ttl: Option<u32>,
    last_error: u32,
) -> (r: Result<(), PingError>)
    ensures
        replies > 0 && status == IP_SUCCESS ==> r is Ok && final(probe_rtts)@ == old(probe_rtts)@.push(Some(rtt))
            && *final(reply_ttl) == (if ttl is Some { ttl } else { *old(reply_ttl) }),
        replies > 0 && status != IP_SUCCESS ==> r is Ok && final(probe_rtts)@ == old(probe_rtts)@.push(None)
            && *final(reply_ttl) == *old(reply_ttl),
        replies == 0 ==> *final(reply_ttl) == *old(reply_ttl) && (11_000 <= last_error <= 11_999 ==> r is Ok
            && final(probe_rtts)@ == old(probe_rtts)@.push(None)) && (!(11_000 <= last_error <= 11_999)
            ==> final(probe_rtts)@ == old(probe_rtts)@ && (r matches Err(PingError::Io(m))
            && m@ == "IcmpSendEcho failed (error "@ + decimal(last_error as nat) + ")"@)),
{
    if replies > 0 {
        if status == IP_SUCCESS {
            probe_rtts.push(Some(rtt));
            match ttl {
                Some(t) => {
                    *reply_ttl = Some(t);
                },
                None => {},
            }
        } else {
            probe_rtts.push(None);
        }
        Ok(())
    } else {
        classify_send_error(probe_rtts, last_error)
    }
}

/// The ping run succeeds when at least one echo came back.
pub fn ping_success<T>(probe_rtts: &Vec<Option<T>>) -> (r: (u32, bool))
    requires
        probe_rtts@.len() <= u32::MAX,
    ensures
        r.0 == count_some(probe_rtts@),
        r.1 == (count_some(probe_rtts@) > 0),
{
    let mut n: u32 = 0;
    let mut i: usize = 0;
    while i < probe_rtts.len()
        invariant
            i <= probe_rtts@.len(),
            probe_rtts@.len() <= u32::MAX,
            n == count_some(probe_rtts@.take(i as int)),
            n <= i,
        decreases probe_rtts@.len() - i,
    {
        assert(probe_rtts@.take(i + 1).drop_last() =~= probe_rtts@.take(i as int));
        if probe_rtts[i].is_some() {
            n = n + 1;
        }
        i = i + 1;
    }
    assert(probe_rtts@.take(probe_rtts@.len() as int) =~= probe_rtts@);
    (n, n > 0)
}

/// Number of answered probes.
pub open spec fn count_some<T>(s: Seq<Option<T>>) -> nat
    decreases s.len(),
{
    if s.len() == 0 {
        0
    } else {
        count_some(s.drop_last()) + (if s.last() is Some { 1nat } else { 0nat })
    }
}

// ─────────────────────────────────────────────────────────────────────────────
// Internet checksum (RFC 1071)
// ─────────────────────────────────────────────────────────────────────────────

/// The `i`-th 16-bit big-endian word; an odd trailing byte is padded with 0.
pub open spec fn word_at(data: Seq<u8>, i: int) -> nat {
    (data[2 * i] as nat) * 256 + (if 2 * i + 1 < data.len() { data[2 * i + 1] as nat } else { 0 })
}

/// Sum of the first `n` words.
pub open spec fn words_sum(data: Seq<u8>, n: nat) -> nat
    decreases n,
{
    if n == 0 {
        0
    } else {
        words_sum(data, (n - 1) as nat) + word_at(data, n - 1)
    }
}

pub open spec fn word_count(data: Seq<u8>) -> nat {
    ((data.len() + 1) / 2) as nat
}

pub proof fn lemma_fold_step(s: nat)
    requires
        s >= 65536,
    ensures
        s % 65536 + s / 65536 < s,
        (s % 65536 + s / 65536) % 65535 == s % 65535,
{
    lemma_fundamental_div_mod(s as int, 65536);
    let q = s / 65536;
    let r = s % 65536;
    assert(s == 65535 * q + (r + q));
    lemma_mod_multiples_vanish(q as int, (r + q) as int, 65535);
}

/// End-around-carry folding: repeatedly add the high half to the low half.
pub open spec fn fold_carries(s: nat) -> nat
    decreases s,
{
    if s < 65536 {
        s
    } else {
        proof {
            lemma_fold_step(s);
        }
        fold_carries(s % 65536 + s / 65536)
    }
}

/// The ones'-complement checksum of `data`.
pub open spec fn checksum_spec(data: Seq<u8>) -> u16 {
    (65535 - fold_carries(words_sum(data, word_count(data)))) as u16
}

pub proof fn lemma_fold_carries(s: nat)
    ensures
        fold_carries(s) < 65536,
        fold_carries(s) % 65535 == s % 65535,
        s > 0 ==> fold_carries(s) > 0,
        s == 0 ==> fold_carries(s) == 0,
    decreases s,
{
    if s >= 65536 {
        lemma_fold_step(s);
        lemma_fold_carries(s % 65536 + s / 65536);
    }
}

proof fn lemma_words_sum_monotone(data: Seq<u8>, k: nat, n: nat)
    requires
        k <= n,
    ensures
        words_sum(data, k) <= words_sum(data, n),
    decreases n,
{
    if k < n {
        lemma_words_sum_monotone(data, k, (n - 1) as nat);
    }
}

/// A message whose bytes from 16 on are zero has a word sum of at most
/// eight full words, whatever its length.
proof fn lemma_zero_tail_words_sum(data: Seq<u8>, n: nat)
    requires
        2 * n <= data.len() + 1,
        forall|j: int| 16 <= j < data.len() ==> data[j] == 0,
    ensures
        words_sum(data, n) <= 65535 * (if n < 8 { n } else { 8 }),
    decreases n,
{
    if n > 0 {
        lemma_zero_tail_words_sum(data, (n - 1) as nat);
        if n > 8 {
            assert(word_at(data, n - 1) == 0);
        }
    }
}

/// Folding state of the checksum accumulator.
pub open spec fn fold_of(sum: u32) -> nat {
    fold_carries(sum as nat)
}

fn widen(b: u8) -> (r: u32)
    ensures
        r == b,
{
    b as u32
}

fn complement_low_half(x: u32) -> (r: u16)
    requires
        x < 65536,
    ensures
        r == 65535 - x,
{
    let low = x as u16;
    assert(!low == 65535 - low) by (bit_vector);
    !low
}

fn fold_once(sum: u32) -> (r: u32)
    requires
        sum >= 65536,
    ensures
        fold_of(r) == fold_of(sum),
        r < sum,
{
    assert(sum >> 16 == sum / 65536 && sum & 0xffff == sum % 65536) by (bit_vector);
    proof {
        lemma_fold_step(sum as nat);
    }
    (sum & 0xffff) + (sum >> 16)
}

fn below_two_pow_16(sum: u32) -> (r: bool)
    ensures
        r == (sum < 65536),
{
    assert(sum >> 16 == 0 <==> sum < 65536) by (bit_vector);
    sum >> 16 == 0
}

/// Ones'-complement sum of the message's 16-bit words, carries folded in.
fn folded_word_sum(data: &[u8]) -> (r: u32)
    requires
        words_sum(data@, word_count(data@)) <= u32::MAX,
    ensures
        r == fold_carries(words_sum(data@, word_count(data@))),
        r < 65536,
{
    let mut sum: u32 = 0;
    let n = data.len() / 2;
    let mut k: usize = 0;
    while k < n
        invariant
            n == data@.len() / 2,
            data@.len() <= usize::MAX,
            words_sum(data@, word_count(data@)) <= u32::MAX,
            k <= n,
            sum == words_sum(data@, k as nat),
        decreases n - k,
    {
        proof {
            lemma_words_sum_monotone(data@, (k + 1) as nat, word_count(data@));
        }
        let w = widen(data[2 * k]) * 256 + widen(data[2 * k + 1]);
        sum = sum + w;
        k = k + 1;
    }
    if data.len() % 2 == 1 {
        let w = widen(data[2 * n]) * 256;
        sum = sum + w;
    }
    assert(sum == words_sum(data@, word_count(data@)));
    let ghost total = sum;
    while !below_two_pow_16(sum)
        invariant
            fold_of(sum) == fold_of(total),
            total == words_sum(data@, word_count(data@)),
        decreases sum,
    {
        sum = fold_once(sum);
    }
    proof {
        lemma_fold_carries(total as nat);
    }
    sum
}

/// Internet checksum of an ICMP message.
pub fn icmp_checksum(data: &[u8]) -> (r: u16)
    requires
        words_sum(data@, word_count(data@)) <= u32::MAX,
    ensures
        r == checksum_spec(data@),
{
    complement_low_half(folded_word_sum(data))
}

proof fn lemma_words_sum_update(a: Seq<u8>, b: Seq<u8>, n: nat)
    requires
        a.len() == b.len(),
        a.len() >= 4,
        2 <= n,
        2 * n <= a.len() + 1,
        forall|j: int| 0 <= j < a.len() && j != 2 && j != 3 ==> a[j] == b[j],
    ensures
        words_sum(b, n) + word_at(a, 1) == words_sum(a, n) + word_at(b, 1),
    decreases n,
{
    if n > 2 {
        lemma_words_sum_update(a, b, (n - 1) as nat);
        assert(word_at(a, n - 1) == word_at(b, n - 1));
    } else {
        reveal_with_fuel(words_sum, 3);
        assert(word_at(a, 0) == word_at(b, 0));
    }
}

// ─────────────────────────────────────────────────────────────────────────────
// Echo request framing
// ─────────────────────────────────────────────────────────────────────────────

pub const ECHO_REQUEST_V4: u8 = 8;
pub const ECHO_REPLY_V4: u8 = 0;
pub const ECHO_REQUEST_V6: u8 = 128;
pub const ECHO_REPLY_V6: u8 = 129;

/// Byte `k` (0 = most significant) of the big-endian encoding of `v`.
pub open spec fn be_byte_u64(v: u64, k: int) -> u8 {
    ((v >> ((7 - k) * 8) as u64) & 0xff) as u8
}

/// The echo-request bytes before the checksum: type, code 0, checksum 0,
/// identifier and sequence (big-endian), the 8-byte send-time marker, then a
/// zero payload.
pub open spec fn echo_request_body(len: nat, is_v6: bool, ident: u16, seq: u16, stamp: u64) -> Seq<u8> {
    Seq::new(
        len,
        |j: int|
            if j == 0 {
                if is_v6 { ECHO_REQUEST_V6 } else { ECHO_REQUEST_V4 }
            } else if j == 4 {
                hi_byte_spec(ident)
            } else if j == 5 {
                lo_byte_spec(ident)
            } else if j == 6 {
                hi_byte_spec(seq)
            } else if j == 7 {
                lo_byte_spec(seq)
            } else if 8 <= j < 16 {
                be_byte_u64(stamp, j - 8)
            } else {
                0u8
            },
    )
}

pub open spec fn hi_byte_spec(x: u16) -> u8 {
    (x / 256) as u8
}

pub open spec fn lo_byte_spec(x: u16) -> u8 {
    (x % 256) as u8
}

/// The finished IPv4 request: the body with its checksum stored big-endian
/// at bytes 2 and 3.
pub open spec fn with_checksum(body: Seq<u8>) -> Seq<u8> {
    body.update(2, hi_byte_spec(checksum_spec(body))).update(3, lo_byte_spec(checksum_spec(body)))
}

fn hi_byte(x: u16) -> (r: u8)
    ensures
        r == hi_byte_spec(x),
{
    (x / 256) as u8
}

fn lo_byte(x: u16) -> (r: u8)
    ensures
        r == lo_byte_spec(x),
{
    (x % 256) as u8
}

pub(crate) fn stamp_byte(stamp: u64, k: usize) -> (r: u8)
    requires
        k < 8,
    ensures
        r == be_byte_u64(stamp, k as int),
{
    let shift: u64 = ((7 - k) * 8) as u64;
    ((stamp >> shift) & 0xff) as u8
}

/// Fill `packet` with an echo request. IPv4 requests carry their checksum
/// (IPv6's pseudo-header checksum is the kernel's job). `stamp` is the
/// send-time marker (microseconds since the epoch).
pub fn build_echo_request(packet: &mut [u8], is_v6: bool, ident: u16, seq: u16, stamp: u64)
    requires
        16 <= old(packet)@.len(),
    ensures
        final(packet)@.len() == old(packet)@.len(),
        is_v6 ==> final(packet)@ == echo_request_body(old(packet)@.len(), is_v6, ident, seq, stamp),
        !is_v6 ==> final(packet)@ == with_checksum(
            echo_request_body(old(packet)@.len(), is_v6, ident, seq, stamp),
        ),
{
    let len = packet.len();
    let ghost body = echo_request_body(packet@.len(), is_v6, ident, seq, stamp);
    let mut i: usize = 0;
    while i < len
        invariant
            len == packet@.len(),
            i <= len,
            forall|j: int| 0 <= j < i ==> packet@[j] == 0,
        decreases len - i,
    {
        packet[i] = 0;
        i = i + 1;
    }
    packet[0] = if is_v6 { ECHO_REQUEST_V6 } else { ECHO_REQUEST_V4 };
    packet[1] = 0;
    packet[4] = hi_byte(ident);
    packet[5] = lo_byte(ident);
    packet[6] = hi_byte(seq);
    packet[7] = lo_byte(seq);
    let mut k: usize = 0;
    while k < 8
        invariant
            len == packet@.len(),
            16 <= len,
            k <= 8,
            packet@[0] == (if is_v6 { ECHO_REQUEST_V6 } else { ECHO_REQUEST_V4 }),
            packet@[1] == 0,
            packet@[2] == 0,
            packet@[3] == 0,
            packet@[4] == hi_byte_spec(ident),
            packet@[5] == lo_byte_spec(ident),
            packet@[6] == hi_byte_spec(seq),
            packet@[7] == lo_byte_spec(seq),
            forall|j: int| 8 <= j < 8 + k ==> packet@[j] == be_byte_u64(stamp, j - 8),
            forall|j: int| 8 + k <= j < len ==> packet@[j] == 0,
        decreases 8 - k,
    {
        packet[8 + k] = stamp_byte(stamp, k);
        k = k + 1;
    }
    assert(packet@ =~= body);
    if !is_v6 {
        proof {
            lemma_zero_tail_words_sum(packet@, word_count(packet@));
        }
        let sum = icmp_checksum(packet);
        packet[2] = hi_byte(sum);
        packet[3] = lo_byte(sum);
    }
}

/// A message carrying its own checksum verifies: when the checksum field
/// (bytes 2 and 3) is zero, computing the checksum and storing it there
/// big-endian makes the message's checksum zero.
pub proof fn law_checksum_round_trip(data: Seq<u8>)
    requires
        data.len() >= 4,
        data[2] == 0,
        data[3] == 0,
    ensures
        checksum_spec(with_checksum(data)) == 0,
{
    let c = checksum_spec(data);
    let done = with_checksum(data);
    let n = word_count(data);
    assert(word_count(done) == n);
    let s = words_sum(data, n);
    lemma_words_sum_update(data, done, n);
    assert(word_at(data, 1) == 0);
    assert(word_at(done, 1) == c as nat);
    let s2 = words_sum(done, n);
    lemma_fold_carries(s);
    let f = fold_carries(s);
    assert(c as nat == 65535 - f);
    assert(s2 == s + 65535 - f);
    lemma_fold_carries(s2);
    lemma_fundamental_div_mod(s as int, 65535);
    lemma_fundamental_div_mod(f as int, 65535);
    let q = s / 65535;
    let qf = f / 65535;
    assert(s2 == 65535 * (q + 1 - qf));
    assert(s2 > 0);
    lemma_mod_multiples_vanish((q + 1 - qf) as int, 0, 65535);
    assert(s2 % 65535 == 0);
    assert(fold_carries(s2) == 65535);
}

/// A correctly framed IPv4 echo request verifies: recomputing the checksum
/// over the finished message (checksum field included) gives zero.
pub proof fn law_echo_request_checksum_verifies(len: nat, ident: u16, seq: u16, stamp: u64)
    requires
        16 <= len,
    ensures
        checksum_spec(with_checksum(echo_request_body(len, false, ident, seq, stamp))) == 0,
{
    law_checksum_round_trip(echo_request_body(len, false, ident, seq, stamp));
}

// ─────────────────────────────────────────────────────────────────────────────
// Echo reply decoding
// ─────────────────────────────────────────────────────────────────────────────

/// Where the ICMP message starts inside a received IPv4 datagram that
/// carries its IP header (BSD delivery), plus that header's TTL. Linux and
/// all ICMPv6 sockets deliver bare ICMP: offset 0, no TTL.
pub open spec fn ip_header_split(is_v4: bool, data: Seq<u8>) -> (int, Option<u32>) {
    if is_v4 && data.len() >= 20 && data[0] >> 4u8 == 4 {
        let ihl = ((data[0] & 0x0f) as int) * 4;
        if ihl >= 20 && data.len() > ihl {
            (ihl, Some(data[8] as u32))
        } else {
            (0, None)
        }
    } else {
        (0, None)
    }
}

/// Offset of the ICMP message and the IP-header TTL, when present.
pub fn strip_ip_header(is_v4: bool, data: &[u8]) -> (r: (usize, Option<u32>))
    ensures
        r.0 as int == ip_header_split(is_v4, data@).0,
        r.1 == ip_header_split(is_v4, data@).1,
        r.0 <= data@.len(),
{
    if is_v4 && data.len() >= 20 && data[0] >> 4 == 4 {
        let ihl = ((data[0] & 0x0f) as usize) * 4;
        if ihl >= 20 && data.len() > ihl {
            return (ihl, Some(data[8] as u32));
        }
    }
    (0, None)
}

/// Whether a received ICMP message is the expected echo reply.
#[derive(Debug, Clone, Copy, PartialEq, Eq, Structural)]
pub enum EchoKind {
    Reply,
    Other,
}

/// Decoded echo message: kind, identifier, sequence, IP-header TTL.
pub open spec fn parse_echo_reply_spec(is_v6: bool, data: Seq<u8>) -> Option<(EchoKind, u16, u16, Option<u32>)> {
    let (off, ttl) = ip_header_split(!is_v6, data);
    let msg = data.skip(off);
    if msg.len() < 8 {
        None
    } else {
        let expected = if is_v6 { ECHO_REPLY_V6 } else { ECHO_REPLY_V4 };
        Some((
            if msg[0] == expected { EchoKind::Reply } else { EchoKind::Other },
            (msg[4] as u16 * 256 + msg[5] as u16) as u16,
            (msg[6] as u16 * 256 + msg[7] as u16) as u16,
            ttl,
        ))
    }
}

/// Decode a received datagram into (kind, ident, seq, ip_header_ttl).
pub fn parse_echo_reply(is_v6: bool, data: &[u8]) -> (r: Option<(EchoKind, u16, u16, Option<u32>)>)
    ensures
        r == parse_echo_reply_spec(is_v6, data@),
{
    let (off, ttl) = strip_ip_header(!is_v6, data);
    if data.len() - off < 8 {
        return None;
    }
    let expected = if is_v6 { ECHO_REPLY_V6 } else { ECHO_REPLY_V4 };
    let kind = if data[off] == expected { EchoKind::Reply } else { EchoKind::Other };
    let ident = data[off + 4] as u16 * 256 + data[off + 5] as u16;
    let seq = data[off + 6] as u16 * 256 + data[off + 7] as u16;
    Some((kind, ident, seq, ttl))
}

// ─────────────────────────────────────────────────────────────────────────────
// Crediting replies
// ─────────────────────────────────────────────────────────────────────────────

/// Credit one echo reply to the probe its sequence id names. Only a probe
/// that was actually sent and not yet answered is credited (late, reordered
/// and duplicate replies land correctly or are ignored); the reply TTL is
/// recorded from the control message or, failing that, the IP header.
/// Returns whether the reply was credited.
pub fn credit_echo_reply<T>(
    probe_rtts: &mut Vec<Option<T>>,
    sent: &Vec<bool>,
    seq: u16,
    rtt: T,
    cmsg_ttl: Option<u32>,
    hdr_ttl: Option<u32>,
    reply_ttl: &mut Option<u32>,
) -> (credited: bool)
    requires
        old(probe_rtts)@.len() == sent@.len(),
    ensures
        credited == ((seq as int) < sent@.len() && sent@[seq as int] && old(probe_rtts)@[seq as int] is None),
        credited ==> final(probe_rtts)@ == old(probe_rtts)@.update(seq as int, Some(rtt)),
        !credited ==> final(probe_rtts)@ == old(probe_rtts)@,
        *final(reply_ttl) == (if credited {
            match cmsg_ttl {
                Some(t) => Some(t),
                None => match hdr_ttl {
                    Some(t) => Some(t),
                    None => *old(reply_ttl),
                },
            }
        } else {
            *old(reply_ttl)
        }),
{
    let idx = seq as usize;
    if idx < probe_rtts.len() && sent[idx] && probe_rtts[idx].is_none() {
        probe_rtts.set(idx, Some(rtt));
        match cmsg_ttl {
            Some(t) => {
                *reply_ttl = Some(t);
            },
            None => match hdr_ttl {
                Some(t) => {
                    *reply_ttl = Some(t);
                },
                None => {},
            },
        }
        true
    } else {
        false
    }
}

/// Crediting never invents an answer: a probe that was never sent, or one
/// already answered, keeps its entry; every other entry is untouched.
pub proof fn law_credit_only_sent_unanswered<T>(
    before: Seq<Option<T>>,
    sent: Seq<bool>,
    seq: u16,
    rtt: T,
    i: int,
)
    requires
        before.len() == sent.len(),
        0 <= i < before.len(),
        i != seq as int || !sent[i] || before[i] is Some,
    ensures
        ({
            let credited = (seq as int) < sent.len() && sent[seq as int] && before[seq as int] is None;
            let after = if credited { before.update(seq as int, Some(rtt)) } else { before };
            after[i] == before[i]
        }),
{
}

} // verus!
