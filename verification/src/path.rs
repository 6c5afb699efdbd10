//! Hop discovery (traceroute without raw sockets): decoding per-TTL
//! feedback and accumulating the trace, one TTL at a time.

use vstd::prelude::*;
use crate::pmtud::{ErrOrigin, LocalErrno};
use crate::text::string_of;

verus! {

// ─────────────────────────────────────────────────────────────────────────────
// Configuration
// ─────────────────────────────────────────────────────────────────────────────

pub const DEFAULT_PATH_MAX_TTL: u32 = 30;
pub const DEFAULT_PATH_HOP_TIMEOUT_MS: u64 = 1_000;
pub const DEFAULT_PATH_BASE_PORT: u16 = 33_434;

#[derive(Debug, Clone)]
pub struct PathProbeConfig {
    /// Hostname or IP literal to trace toward.
    pub target_host: String,
    /// Highest TTL probed.
    pub max_ttl: u32,
    /// Per-hop wait for an ICMP error (ms).
    pub per_hop_timeout_ms: u64,
    /// First destination UDP port; hop N probes `base_port + N - 1`.
    pub base_port: u16,
}

impl Default for PathProbeConfig {
    /// Loopback, 30 hops, 1 s per hop, ports from 33434.
    fn default() -> (c: PathProbeConfig)
        ensures
            c.target_host@ == "127.0.0.1"@,
            c.max_ttl == DEFAULT_PATH_MAX_TTL,
            c.per_hop_timeout_ms == DEFAULT_PATH_HOP_TIMEOUT_MS,
            c.base_port == DEFAULT_PATH_BASE_PORT,
    {
        PathProbeConfig {
            target_host: string_of("127.0.0.1"),
            max_ttl: DEFAULT_PATH_MAX_TTL,
            per_hop_timeout_ms: DEFAULT_PATH_HOP_TIMEOUT_MS,
            base_port: DEFAULT_PATH_BASE_PORT,
        }
    }
}

/// Trace parameters as the run uses them: TTL limit clamped to `[1, 64]`,
/// per-hop timeout at least 1 ms.
pub fn effective_params(cfg: &PathProbeConfig) -> (r: (u32, u64))
    ensures
        r.0 == (if cfg.max_ttl < 1 { 1 } else if cfg.max_ttl > 64 { 64 } else { cfg.max_ttl }),
        r.1 == (if cfg.per_hop_timeout_ms >= 1 { cfg.per_hop_timeout_ms } else { 1 }),
{
    (
        if cfg.max_ttl < 1 { 1 } else if cfg.max_ttl > 64 { 64 } else { cfg.max_ttl },
        if cfg.per_hop_timeout_ms >= 1 { cfg.per_hop_timeout_ms } else { 1 },
    )
}

/// Destination port of the probe sent with `ttl`: `base_port + ttl - 1`,
/// wrapping at 65536.
pub fn probe_port(base_port: u16, ttl: u32) -> (p: u16)
    requires
        ttl >= 1,
    ensures
        p == (base_port as int + (ttl - 1) % 65536) % 65536,
{
    let off: u16 = ((ttl - 1) % 65536) as u16;
    let sum: u32 = base_port as u32 + off as u32;
    (sum % 65536) as u16
}

// ─────────────────────────────────────────────────────────────────────────────
// Per-TTL feedback
// ─────────────────────────────────────────────────────────────────────────────

/// What one TTL's error-queue entry told us. `A` is the address type.
#[derive(Debug, Clone, PartialEq, Eq)]
pub enum HopEvent<A> {
    /// A router decremented TTL to zero — one hop discovered.
    TimeExceeded { offender: Option<A> },
    /// The probe reached the destination (its port was refused).
    DestinationReached,
    /// Some other unreachable — the path ends before the destination.
    Unreachable { offender: Option<A> },
}

pub const TIME_EXCEEDED_V4: u8 = 11;
pub const DEST_UNREACH_V4: u8 = 3;
pub const PORT_UNREACH_CODE_V4: u8 = 3;
pub const TIME_EXCEEDED_V6: u8 = 3;
pub const DEST_UNREACH_V6: u8 = 1;
pub const PORT_UNREACH_CODE_V6: u8 = 4;

pub open spec fn classify_hop_spec<A>(origin: ErrOrigin, ee_type: u8, ee_code: u8, errno: LocalErrno, offender: Option<A>) -> HopEvent<A> {
    match origin {
        ErrOrigin::Icmp => if ee_type == TIME_EXCEEDED_V4 {
            HopEvent::TimeExceeded { offender }
        } else if ee_type == DEST_UNREACH_V4 && ee_code == PORT_UNREACH_CODE_V4 {
            HopEvent::DestinationReached
        } else {
            HopEvent::Unreachable { offender }
        },
        ErrOrigin::Icmp6 => if ee_type == TIME_EXCEEDED_V6 {
            HopEvent::TimeExceeded { offender }
        } else if ee_type == DEST_UNREACH_V6 && ee_code == PORT_UNREACH_CODE_V6 {
            HopEvent::DestinationReached
        } else {
            HopEvent::Unreachable { offender }
        },
        ErrOrigin::Local => if errno == LocalErrno::ConnRefused {
            HopEvent::DestinationReached
        } else {
            HopEvent::Unreachable { offender: None }
        },
    }
}

/// Hop decoding by the ICMP numbers: for ICMPv4, type 11 (time exceeded)
/// is a hop and type 3 code 3 (port unreachable) the destination; for
/// ICMPv6, type 3 (time exceeded) is a hop and type 1 code 4 (port
/// unreachable) the destination; whatever else comes off the wire ends the
/// path at its sender. A local entry means the destination exactly when it
/// is a connection refusal, and names no address.
pub proof fn law_hop_decoding_by_type<A>(ee_type: u8, ee_code: u8, errno: LocalErrno, offender: Option<A>)
    ensures
        (classify_hop_spec(ErrOrigin::Icmp, ee_type, ee_code, errno, offender) == (HopEvent::TimeExceeded { offender }))
            <==> ee_type == 11,
        classify_hop_spec(ErrOrigin::Icmp, ee_type, ee_code, errno, offender) is DestinationReached
            <==> (ee_type == 3 && ee_code == 3),
        (ee_type != 11 && !(ee_type == 3 && ee_code == 3))
            ==> classify_hop_spec(ErrOrigin::Icmp, ee_type, ee_code, errno, offender) == (HopEvent::Unreachable { offender }),
        (classify_hop_spec(ErrOrigin::Icmp6, ee_type, ee_code, errno, offender) == (HopEvent::TimeExceeded { offender }))
            <==> ee_type == 3,
        classify_hop_spec(ErrOrigin::Icmp6, ee_type, ee_code, errno, offender) is DestinationReached
            <==> (ee_type == 1 && ee_code == 4),
        (ee_type != 3 && !(ee_type == 1 && ee_code == 4))
            ==> classify_hop_spec(ErrOrigin::Icmp6, ee_type, ee_code, errno, offender) == (HopEvent::Unreachable { offender }),
        classify_hop_spec(ErrOrigin::Local, ee_type, ee_code, errno, offender) is DestinationReached
            <==> errno == LocalErrno::ConnRefused,
        errno != LocalErrno::ConnRefused ==> classify_hop_spec(ErrOrigin::Local, ee_type, ee_code, errno, offender)
            == (HopEvent::<A>::Unreachable { offender: None }),
{
}

/// Decode an error-queue entry: time-exceeded names a hop, port-unreachable
/// (or a same-host refusal) means the destination was reached, anything else
/// ends the path before the destination.
pub fn classify_hop<A>(origin: ErrOrigin, ee_type: u8, ee_code: u8, errno: LocalErrno, offender: Option<A>) -> (e: HopEvent<A>)
    ensures
        e == classify_hop_spec(origin, ee_type, ee_code, errno, offender),
{
    match origin {
        ErrOrigin::Icmp => if ee_type == TIME_EXCEEDED_V4 {
            HopEvent::TimeExceeded { offender }
        } else if ee_type == DEST_UNREACH_V4 && ee_code == PORT_UNREACH_CODE_V4 {
            HopEvent::DestinationReached
        } else {
            HopEvent::Unreachable { offender }
        },
        ErrOrigin::Icmp6 => if ee_type == TIME_EXCEEDED_V6 {
            HopEvent::TimeExceeded { offender }
        } else if ee_type == DEST_UNREACH_V6 && ee_code == PORT_UNREACH_CODE_V6 {
            HopEvent::DestinationReached
        } else {
            HopEvent::Unreachable { offender }
        },
        ErrOrigin::Local => if errno == LocalErrno::ConnRefused {
            HopEvent::DestinationReached
        } else {
            HopEvent::Unreachable { offender: None }
        },
    }
}

// ─────────────────────────────────────────────────────────────────────────────
// Trace accumulation
// ─────────────────────────────────────────────────────────────────────────────

/// One row of the trace. `A` is the address type, `T` the RTT type.
#[derive(Debug, Clone, PartialEq)]
pub struct PathHop<A, T> {
    pub index: u32,
    pub addr: Option<A>,
    pub rtt_ms: Option<T>,
}

/// The trace so far.
pub struct TraceState<A, T> {
    pub hops: Vec<PathHop<A, T>>,
    pub hop_count: Option<u32>,
    pub destination_reached: bool,
    pub destination_rtt_ms: Option<T>,
    /// No further TTL is worth probing.
    pub done: bool,
}

/// Hop rows are numbered by TTL from 1, one row per probed TTL; a reached
/// destination is the last row and is counted.
pub open spec fn trace_wf<A, T>(s: TraceState<A, T>) -> bool {
    &&& s.hops@.len() <= u32::MAX
    &&& forall|i: int| 0 <= i < s.hops@.len() ==> (#[trigger] s.hops@[i]).index == i + 1
    &&& s.destination_reached ==> s.done && s.hops@.len() > 0 && s.hop_count == Some(
        s.hops@.len() as u32,
    )
    &&& !s.destination_reached ==> s.hop_count is None && s.destination_rtt_ms is None
}

/// The row a TTL's event produces.
pub open spec fn hop_row<A, T>(ttl: u32, event: Option<HopEvent<A>>, rtt: T, destination: A) -> PathHop<A, T> {
    match event {
        Some(HopEvent::TimeExceeded { offender }) => PathHop { index: ttl, addr: offender, rtt_ms: Some(rtt) },
        Some(HopEvent::DestinationReached) => PathHop { index: ttl, addr: Some(destination), rtt_ms: Some(rtt) },
        Some(HopEvent::Unreachable { offender }) => PathHop { index: ttl, addr: offender, rtt_ms: Some(rtt) },
        None => PathHop { index: ttl, addr: None, rtt_ms: None },
    }
}

impl<A, T: Copy> TraceState<A, T> {
    /// An empty trace.
    pub fn new() -> (s: TraceState<A, T>)
        ensures
            s.hops@.len() == 0,
            s.hop_count is None,
            !s.destination_reached,
            s.destination_rtt_ms is None,
            !s.done,
            trace_wf(s),
    {
        TraceState {
            hops: Vec::new(),
            hop_count: None,
            destination_reached: false,
            destination_rtt_ms: None,
            done: false,
        }
    }

    /// Record what the probe with `ttl` told us (`None`: silence within the
    /// window, an honest `*`). `rtt` is the time since that probe was sent;
    /// `destination` is the traced address.
    pub fn record(&mut self, ttl: u32, event: Option<HopEvent<A>>, rtt: T, destination: A)
        requires
            trace_wf(*old(self)),
            !old(self).done,
            ttl as int == old(self).hops@.len() + 1,
        ensures
            trace_wf(*final(self)),
            final(self).hops@ == old(self).hops@.push(hop_row(ttl, event, rtt, destination)),
            final(self).destination_reached == (event matches Some(HopEvent::DestinationReached)),
            final(self).done == (event matches Some(HopEvent::DestinationReached) || event matches Some(HopEvent::Unreachable { .. })),
            final(self).hop_count == (if event matches Some(HopEvent::DestinationReached) { Some(ttl) } else { None }),
            final(self).destination_rtt_ms == (if event matches Some(HopEvent::DestinationReached) { Some(rtt) } else { None }),
    {
        let ghost ev = event;
        match event {
            Some(HopEvent::TimeExceeded { offender }) => {
                self.hops.push(PathHop { index: ttl, addr: offender, rtt_ms: Some(rtt) });
            },
            Some(HopEvent::DestinationReached) => {
                self.hops.push(PathHop { index: ttl, addr: Some(destination), rtt_ms: Some(rtt) });
                self.destination_reached = true;
                self.destination_rtt_ms = Some(rtt);
                self.hop_count = Some(ttl);
                self.done = true;
            },
            Some(HopEvent::Unreachable { offender }) => {
                self.hops.push(PathHop { index: ttl, addr: offender, rtt_ms: Some(rtt) });
                self.done = true;
            },
            None => {
                self.hops.push(PathHop { index: ttl, addr: None, rtt_ms: None });
            },
        }
        assert(self.hops@.last() == hop_row(ttl, ev, rtt, destination));
    }
}

/// Result of a trace.
pub struct TraceOutcome<A, T> {
    pub hops: Vec<PathHop<A, T>>,
    pub hop_count: Option<u32>,
    pub destination_reached: bool,
    pub destination_rtt_ms: Option<T>,
}

/// No row names an address.
pub open spec fn all_silent<A, T>(hops: Seq<PathHop<A, T>>) -> bool {
    forall|i: int| 0 <= i < hops.len() ==> (#[trigger] hops[i]).addr is None
}

/// Close the trace. A trace where nothing answered carries no path
/// information, so its silent rows are dropped rather than reported as hops.
pub fn finish_trace<A, T>(s: TraceState<A, T>) -> (o: TraceOutcome<A, T>)
    ensures
        o.hops@ == (if !s.destination_reached && all_silent(s.hops@) {
            Seq::<PathHop<A, T>>::empty()
        } else {
            s.hops@
        }),
        o.hop_count == s.hop_count,
        o.destination_reached == s.destination_reached,
        o.destination_rtt_ms == s.destination_rtt_ms,
{
    let mut silent = true;
    let mut i: usize = 0;
    while i < s.hops.len()
        invariant
            i <= s.hops@.len(),
            silent == (forall|j: int| 0 <= j < i ==> (#[trigger] s.hops@[j]).addr is None),
        decreases s.hops@.len() - i,
    {
        if s.hops[i].addr.is_some() {
            silent = false;
        }
        i = i + 1;
    }
    let hops = if !s.destination_reached && silent {
        Vec::new()
    } else {
        s.hops
    };
    TraceOutcome {
        hops,
        hop_count: s.hop_count,
        destination_reached: s.destination_reached,
        destination_rtt_ms: s.destination_rtt_ms,
    }
}

/// Degraded platforms (no per-hop feedback): the first TTL at which the
/// destination answers gives the hop count; no hop rows are ever reported.
pub fn estimate_step<T>(s: &mut TraceOutcome<(), T>, ttl: u32, reached: bool, rtt: T)
    requires
        old(s).hops@.len() == 0,
        !old(s).destination_reached,
    ensures
        final(s).hops@.len() == 0,
        final(s).destination_reached == reached,
        final(s).hop_count == (if reached { Some(ttl) } else { old(s).hop_count }),
        final(s).destination_rtt_ms == (if reached { Some(rtt) } else { old(s).destination_rtt_ms }),
{
    if reached {
        s.destination_reached = true;
        s.hop_count = Some(ttl);
        s.destination_rtt_ms = Some(rtt);
    }
}

/// The trace is a success when it carries any information: the destination
/// answered or at least one hop row survived.
pub fn trace_success<A, T>(o: &TraceOutcome<A, T>) -> (r: bool)
    ensures
        r == (o.destination_reached || o.hops@.len() > 0),
{
    o.destination_reached || o.hops.len() > 0
}

/// Hop addresses are never fabricated: every row of a finished trace either
/// names the address an ICMP error came from (or the destination, for the
/// final row of a reached trace), or none at all; and a finished trace with
/// rows but no answering address exists only when the destination answered.
pub proof fn law_trace_reports_only_observed_hops<A, T>(s: TraceState<A, T>, o: TraceOutcome<A, T>)
    requires
        o.hops@ == (if !s.destination_reached && all_silent(s.hops@) {
            Seq::<PathHop<A, T>>::empty()
        } else {
            s.hops@
        }),
        o.destination_reached == s.destination_reached,
    ensures
        o.hops@.len() > 0 && all_silent(o.hops@) ==> o.destination_reached,
        o.hops@.len() == 0 || o.hops@ == s.hops@,
{
}

/// A row names an address only where feedback named it: the offender of an
/// ICMP error, or the traced destination when it answered; a silent TTL has
/// neither address nor RTT.
pub proof fn law_hop_row_names_only_observed_addresses<A, T>(ttl: u32, event: Option<HopEvent<A>>, rtt: T, destination: A)
    ensures
        hop_row(ttl, event, rtt, destination).index == ttl,
        hop_row(ttl, event, rtt, destination).addr matches Some(a) ==> (
            event == Some(HopEvent::TimeExceeded { offender: Some(a) })
            || event == Some(HopEvent::Unreachable { offender: Some(a) })
            || (event == Some(HopEvent::<A>::DestinationReached) && a == destination)),
        event is None ==> hop_row(ttl, event, rtt, destination).addr is None
            && hop_row(ttl, event, rtt, destination).rtt_ms is None,
{
}

} // verus!
