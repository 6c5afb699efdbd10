//! Multi-connection throughput: per-connection attribution of what limited
//! the transfer, from the kernel's busy/rwnd/sndbuf chronograph triad.

use vstd::prelude::*;
use crate::text::{decimal, push_decimal, push_str, string_of};

verus! {

/// Post-transfer socket statistics (microseconds), as far as the platform
/// reports them.
#[derive(Debug, Clone, Copy, PartialEq, Eq, Structural)]
pub struct SocketStats {
    pub busy_time_us: Option<u64>,
    pub rwnd_limited_us: Option<u64>,
    pub sndbuf_limited_us: Option<u64>,
}

/// A connection's throughput-attribution verdict.
#[derive(Debug, Clone, Copy, PartialEq, Eq, Structural)]
pub enum Verdict {
    /// At least 5% of busy time limited by the peer's receive window.
    RwndLimited(u8),
    /// At least 5% of busy time limited by the local send buffer.
    SndbufLimited(u8),
    /// Triad present, neither share noteworthy.
    PathLimited,
    /// No triad data — honest absence.
    Unobserved,
}

/// Noteworthiness threshold, percent of busy time.
pub const NOTEWORTHY_PCT: u64 = 5;

/// `part` as a percentage of `busy`, rounded half up, capped at 100.
pub open spec fn rounded_pct(part: u64, busy: u64) -> u8 {
    let p = (200 * (part as int) + busy) / (2 * (busy as int));
    (if p > 100 { 100 } else { p }) as u8
}

/// `part` is at least the noteworthy share of `busy`.
pub open spec fn noteworthy(part: u64, busy: u64) -> bool {
    100 * (part as int) >= NOTEWORTHY_PCT * (busy as int)
}

pub open spec fn limited_verdict_spec(stats: Option<SocketStats>) -> Verdict {
    match stats {
        None => Verdict::Unobserved,
        Some(s) => match s.busy_time_us {
            None => Verdict::Unobserved,
            Some(busy) => if busy == 0 {
                Verdict::Unobserved
            } else {
                let r = match s.rwnd_limited_us { Some(v) => v, None => 0 };
                let b = match s.sndbuf_limited_us { Some(v) => v, None => 0 };
                if noteworthy(r, busy) && r >= b {
                    Verdict::RwndLimited(rounded_pct(r, busy))
                } else if noteworthy(b, busy) {
                    Verdict::SndbufLimited(rounded_pct(b, busy))
                } else {
                    Verdict::PathLimited
                }
            },
        },
    }
}

fn rounded_pct_exec(part: u64, busy: u64) -> (r: u8)
    requires
        busy > 0,
    ensures
        r == rounded_pct(part, busy),
{
    let p: u128 = (200 * (part as u128) + busy as u128) / (2 * busy as u128);
    if p > 100 { 100 } else { p as u8 }
}

/// Attribution of one connection from its kernel counters: whichever share
/// of busy time (receive window or send buffer) is bigger and reaches the
/// threshold is reported, the receive window on equal shares; with no busy
/// time the connection stays unattributed.
pub fn limited_verdict(stats: Option<&SocketStats>) -> (v: Verdict)
    ensures
        v == limited_verdict_spec(match stats { Some(s) => Some(*s), None => None }),
{
    let s = match stats {
        None => return Verdict::Unobserved,
        Some(s) => s,
    };
    let busy = match s.busy_time_us {
        None => return Verdict::Unobserved,
        Some(b) => b,
    };
    if busy == 0 {
        return Verdict::Unobserved;
    }
    let r = match s.rwnd_limited_us { Some(v) => v, None => 0 };
    let b = match s.sndbuf_limited_us { Some(v) => v, None => 0 };
    let r_note = 100 * (r as u128) >= (NOTEWORTHY_PCT as u128) * (busy as u128);
    let b_note = 100 * (b as u128) >= (NOTEWORTHY_PCT as u128) * (busy as u128);
    if r_note && r >= b {
        Verdict::RwndLimited(rounded_pct_exec(r, busy))
    } else if b_note {
        Verdict::SndbufLimited(rounded_pct_exec(b, busy))
    } else {
        Verdict::PathLimited
    }
}

pub open spec fn verdict_text(v: Verdict) -> Seq<char> {
    match v {
        Verdict::RwndLimited(p) => "rwnd-limited "@ + decimal(p as nat) + "%"@,
        Verdict::SndbufLimited(p) => "sndbuf-limited "@ + decimal(p as nat) + "%"@,
        Verdict::PathLimited => "path-limited"@,
        Verdict::Unobserved => "unobserved"@,
    }
}

impl Verdict {
    /// Display text: "rwnd-limited 84%", "path-limited", ...
    pub fn to_string(&self) -> (s: String)
        ensures
            s@ == verdict_text(*self),
    {
        match self {
            Verdict::RwndLimited(p) => {
                let mut s = string_of("rwnd-limited ");
                push_decimal(&mut s, *p as u64);
                push_str(&mut s, "%");
                s
            },
            Verdict::SndbufLimited(p) => {
                let mut s = string_of("sndbuf-limited ");
                push_decimal(&mut s, *p as u64);
                push_str(&mut s, "%");
                s
            },
            Verdict::PathLimited => string_of("path-limited"),
            Verdict::Unobserved => string_of("unobserved"),
        }
    }
}

/// Attribution law: without a busy-time chronograph there is no verdict (never
/// a silent "path-limited"); a limited verdict's share is a real share of busy
/// time (at most 100%) that clears the threshold, and the reported side is
/// the larger of the two.
pub proof fn law_limited_verdict_is_honest(s: SocketStats)
    ensures
        (s.busy_time_us is None || s.busy_time_us == Some(0u64)) ==> limited_verdict_spec(Some(s)) == Verdict::Unobserved,
        limited_verdict_spec(Some(s)) matches Verdict::RwndLimited(p) ==> {
            &&& p <= 100
            &&& noteworthy(match s.rwnd_limited_us { Some(v) => v, None => 0 }, s.busy_time_us->0)
            &&& (match s.rwnd_limited_us { Some(v) => v, None => 0 }) >= (match s.sndbuf_limited_us { Some(v) => v, None => 0 })
        },
        limited_verdict_spec(Some(s)) matches Verdict::SndbufLimited(p) ==> {
            &&& p <= 100
            &&& noteworthy(match s.sndbuf_limited_us { Some(v) => v, None => 0 }, s.busy_time_us->0)
            &&& (match s.sndbuf_limited_us { Some(v) => v, None => 0 }) > (match s.rwnd_limited_us { Some(v) => v, None => 0 })
                || !noteworthy(match s.rwnd_limited_us { Some(v) => v, None => 0 }, s.busy_time_us->0)
        },
{
}

/// Default ramp interval (ms).
pub const DEFAULT_INTERVAL_MS: u64 = 1_000;
/// Connections at stage start.
pub const DEFAULT_INITIAL_CONNECTIONS: u32 = 1;
/// Connections added per interval until saturation.
pub const DEFAULT_ADD_PER_INTERVAL: u32 = 1;
/// Connection cap.
pub const DEFAULT_MAX_CONNECTIONS: u32 = 8;
/// Moving-average distance (intervals), also the measure-window length.
pub const DEFAULT_MAD: usize = 4;
/// Per-direction wall-clock cap (ms).
pub const DEFAULT_MAX_DURATION_MS: u64 = 15_000;
/// Bytes per load request.
pub const DEFAULT_LOAD_REQUEST_BYTES: usize = 33_554_432;

/// Time-box law of the defaults: the worst-case ramp to the connection cap
/// plus the steady measure window fits inside the per-direction cap.
pub proof fn law_defaults_fit_time_box()
    ensures
        (DEFAULT_MAX_CONNECTIONS as int) * (DEFAULT_INTERVAL_MS as int) + (DEFAULT_MAD as int) * (DEFAULT_INTERVAL_MS as int)
            <= DEFAULT_MAX_DURATION_MS as int,
{
}

// ─────────────────────────────────────────────────────────────────────────────
// The ramp
// ─────────────────────────────────────────────────────────────────────────────

/// Ramp parameters as a run uses them: at least one initial connection, a
/// tick of at least 50 ms, a cap of at least one tick, a moving-average
/// window of at least two ticks.
pub struct RampParams {
    pub initial_connections: u32,
    pub interval_ms: u64,
    pub cap_ms: u64,
    pub mad: usize,
}

/// The ramp parameters for configured values (see `RampParams`).
pub fn ramp_params(initial_connections: u32, interval_ms: u64, max_duration_ms: u64, mad: usize) -> (p: RampParams)
    ensures
        p.initial_connections == (if initial_connections >= 1 { initial_connections } else { 1 }),
        p.interval_ms == (if interval_ms >= 50 { interval_ms } else { 50 }),
        p.cap_ms == (if max_duration_ms >= interval_ms { max_duration_ms } else { interval_ms }),
        p.mad == (if mad >= 2 { mad } else { 2 }),
{
    RampParams {
        initial_connections: if initial_connections >= 1 { initial_connections } else { 1 },
        interval_ms: if interval_ms >= 50 { interval_ms } else { 50 },
        cap_ms: if max_duration_ms >= interval_ms { max_duration_ms } else { interval_ms },
        mad: if mad >= 2 { mad } else { 2 },
    }
}

/// What the ramp does after a tick.
#[derive(Debug, Clone, Copy, PartialEq, Eq, Structural)]
pub enum RampAction {
    /// The measure window is over.
    Stop,
    /// Goodput is stable: saturation reached, measure for a window.
    StartMeasuring,
    /// Open up to this many more connections.
    AddConnections(u32),
    /// Keep going as is.
    Hold,
}

/// Where the ramp stands: ramping (no measure window yet) or measuring with
/// this many ticks left.
#[derive(Debug, Clone, Copy, PartialEq, Eq, Structural)]
pub struct RampState {
    pub measure_ticks_left: Option<usize>,
    pub saturation_reached: bool,
}

/// One tick of the ramp. While measuring, the window counts down and ends
/// the run; while ramping, stable goodput (the moving-average criterion,
/// decided by the caller) starts a window of `mad` ticks, else connections
/// are added, `add_per_interval` at a time, up to `max_connections`.
pub open spec fn ramp_tick_spec(s: RampState, stable: bool, conns: u32, max_connections: u32, add_per_interval: u32, mad: usize) -> (RampState, RampAction) {
    match s.measure_ticks_left {
        Some(left) => if left <= 1 {
            (s, RampAction::Stop)
        } else {
            (RampState { measure_ticks_left: Some((left - 1) as usize), ..s }, RampAction::Hold)
        },
        None => if stable {
            (RampState { measure_ticks_left: Some(mad), saturation_reached: true }, RampAction::StartMeasuring)
        } else if conns < max_connections {
            let room = (max_connections - conns) as u32;
            (s, RampAction::AddConnections(if add_per_interval <= room { add_per_interval } else { room }))
        } else {
            (s, RampAction::Hold)
        },
    }
}

impl RampState {
    /// The state before the first tick.
    pub fn new() -> (s: Self)
        ensures
            s.measure_ticks_left is None,
            !s.saturation_reached,
    {
        RampState { measure_ticks_left: None, saturation_reached: false }
    }

    /// One tick (see `ramp_tick_spec`).
    pub fn tick(&mut self, stable: bool, conns: u32, max_connections: u32, add_per_interval: u32, mad: usize) -> (a: RampAction)
        ensures
            (*final(self), a) == ramp_tick_spec(*old(self), stable, conns, max_connections, add_per_interval, mad),
    {
        match self.measure_ticks_left {
            Some(left) => {
                if left <= 1 {
                    RampAction::Stop
                } else {
                    self.measure_ticks_left = Some(left - 1);
                    RampAction::Hold
                }
            },
            None => {
                if stable {
                    self.measure_ticks_left = Some(mad);
                    self.saturation_reached = true;
                    RampAction::StartMeasuring
                } else if conns < max_connections {
                    let room = max_connections - conns;
                    RampAction::AddConnections(if add_per_interval <= room { add_per_interval } else { room })
                } else {
                    RampAction::Hold
                }
            },
        }
    }
}

/// The ramp never opens more than the cap: the connections it asks for fit
/// under `max_connections`.
pub proof fn law_ramp_respects_connection_cap(s: RampState, stable: bool, conns: u32, max_connections: u32, add_per_interval: u32, mad: usize)
    ensures
        ramp_tick_spec(s, stable, conns, max_connections, add_per_interval, mad).1 matches RampAction::AddConnections(k)
            ==> conns + k <= max_connections && k <= add_per_interval,
{
}

/// Ticks left in the measure window, ticked with whatever stability or
/// connection count.
pub open spec fn ticks_until_stop(s: RampState, fuel: nat) -> nat
    decreases fuel,
{
    if fuel == 0 {
        0
    } else {
        let (next, a) = ramp_tick_spec(s, false, 0, 0, 0, 0);
        if a == RampAction::Stop { 1 } else { 1 + ticks_until_stop(next, (fuel - 1) as nat) }
    }
}

/// Once stable, the run measures for exactly the window: starting a window
/// of `m` ticks, the `m`-th tick after it stops the ramp, and the ticks
/// before it hold (for `m` of at least one).
pub proof fn law_measure_window_lasts_mad_ticks(m: usize, saturated: bool, stable: bool, conns: u32, max_c: u32, add: u32, mad: usize)
    requires
        m >= 1,
    ensures
        ({
            let s = RampState { measure_ticks_left: Some(m), saturation_reached: saturated };
            let (next, a) = ramp_tick_spec(s, stable, conns, max_c, add, mad);
            &&& (m == 1 ==> a == RampAction::Stop)
            &&& (m > 1 ==> a == RampAction::Hold && next.measure_ticks_left == Some((m - 1) as usize)
                && next.saturation_reached == saturated)
        }),
        ticks_until_stop(RampState { measure_ticks_left: Some(m), saturation_reached: saturated }, m as nat) == m,
    decreases m,
{
    if m > 1 {
        law_measure_window_lasts_mad_ticks((m - 1) as usize, saturated, stable, conns, max_c, add, mad);
    }
}

/// Ticks of the measure window: the moving-average distance, or fewer when
/// fewer snapshot intervals were taken.
pub fn measure_window_ticks(mad: usize, snapshots: usize) -> (w: usize)
    ensures
        w == (if snapshots == 0 { 0 } else if mad <= snapshots - 1 { mad } else { (snapshots - 1) as usize }),
{
    let intervals = if snapshots == 0 { 0 } else { snapshots - 1 };
    if mad <= intervals { mad } else { intervals }
}

/// Bytes each connection moved over the window: the later snapshot minus the
/// earlier (0 when a snapshot lacks the connection, never negative).
pub fn window_deltas(start: &Vec<u64>, end: &Vec<u64>, conns: usize) -> (d: Vec<u64>)
    ensures
        d@.len() == conns,
        forall|i: int| 0 <= i < conns ==> #[trigger] d@[i] == ({
            let e: int = if i < end@.len() { end@[i] as int } else { 0 };
            let s: int = if i < start@.len() { start@[i] as int } else { 0 };
            if e >= s { e - s } else { 0 }
        }),
{
    let mut d: Vec<u64> = Vec::new();
    let mut i: usize = 0;
    while i < conns
        invariant
            i <= conns,
            d@.len() == i,
            forall|j: int| 0 <= j < i ==> #[trigger] d@[j] == ({
                let e: int = if j < end@.len() { end@[j] as int } else { 0 };
                let s: int = if j < start@.len() { start@[j] as int } else { 0 };
                if e >= s { e - s } else { 0 }
            }),
        decreases conns - i,
    {
        let e = if i < end.len() { end[i] } else { 0 };
        let s = if i < start.len() { start[i] } else { 0 };
        d.push(if e >= s { e - s } else { 0 });
        i = i + 1;
    }
    d
}

/// How many entries of `v` fall in each class, in the order receive window,
/// send buffer, path, no data.
pub open spec fn verdict_tally_spec(v: Seq<Verdict>) -> (nat, nat, nat, nat)
    decreases v.len(),
{
    if v.len() == 0 {
        (0, 0, 0, 0)
    } else {
        let p = verdict_tally_spec(v.drop_last());
        match v.last() {
            Verdict::RwndLimited(_) => (p.0 + 1, p.1, p.2, p.3),
            Verdict::SndbufLimited(_) => (p.0, p.1 + 1, p.2, p.3),
            Verdict::PathLimited => (p.0, p.1, p.2 + 1, p.3),
            Verdict::Unobserved => (p.0, p.1, p.2, p.3 + 1),
        }
    }
}

proof fn lemma_tally_total(v: Seq<Verdict>)
    ensures
        verdict_tally_spec(v).0 + verdict_tally_spec(v).1 + verdict_tally_spec(v).2 + verdict_tally_spec(v).3 == v.len(),
    decreases v.len(),
{
    if v.len() > 0 {
        lemma_tally_total(v.drop_last());
    }
}

/// Counts the connections per verdict (see `verdict_tally_spec`).
pub fn tally_verdicts(verdicts: &Vec<Verdict>) -> (t: (u32, u32, u32, u32))
    requires
        verdicts@.len() <= u32::MAX,
    ensures
        t.0 == verdict_tally_spec(verdicts@).0,
        t.1 == verdict_tally_spec(verdicts@).1,
        t.2 == verdict_tally_spec(verdicts@).2,
        t.3 == verdict_tally_spec(verdicts@).3,
{
    let mut t: (u32, u32, u32, u32) = (0, 0, 0, 0);
    let mut i: usize = 0;
    while i < verdicts.len()
        invariant
            i <= verdicts@.len(),
            verdicts@.len() <= u32::MAX,
            t.0 == verdict_tally_spec(verdicts@.take(i as int)).0,
            t.1 == verdict_tally_spec(verdicts@.take(i as int)).1,
            t.2 == verdict_tally_spec(verdicts@.take(i as int)).2,
            t.3 == verdict_tally_spec(verdicts@.take(i as int)).3,
        decreases verdicts@.len() - i,
    {
        proof {
            assert(verdicts@.take(i + 1).drop_last() =~= verdicts@.take(i as int));
            lemma_tally_total(verdicts@.take(i as int));
        }
        match verdicts[i] {
            Verdict::RwndLimited(_) => { t.0 = t.0 + 1; },
            Verdict::SndbufLimited(_) => { t.1 = t.1 + 1; },
            Verdict::PathLimited => { t.2 = t.2 + 1; },
            Verdict::Unobserved => { t.3 = t.3 + 1; },
        }
        i = i + 1;
    }
    assert(verdicts@.take(i as int) =~= verdicts@);
    t
}

/// The four class counts of `verdict_tally_spec` sum to the length of the
/// sequence: each entry is counted in one class.
pub proof fn law_every_connection_tallied_once(v: Seq<Verdict>)
    ensures
        verdict_tally_spec(v).0 + verdict_tally_spec(v).1 + verdict_tally_spec(v).2 + verdict_tally_spec(v).3 == v.len(),
{
    lemma_tally_total(v);
}

} // verus!
