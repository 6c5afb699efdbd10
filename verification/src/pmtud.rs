//! Path-MTU discovery: the binary search over DF probe sizes, written as a
//! state machine (the platform performs each send/wait and hands back what the
//! size told it), plus the honest per-evidence verdict.

use vstd::prelude::*;
use crate::ping::{be_byte_u64, stamp_byte};
use crate::text::{push_str, string_of};

verus! {

// ─────────────────────────────────────────────────────────────────────────────
// Per-size classification and search outcome
// ─────────────────────────────────────────────────────────────────────────────

/// What one probe size told us.
#[derive(Debug, Clone, Copy, PartialEq, Eq, Structural)]
pub enum SizeClass {
    /// Positively confirmed: an echo reply or an ICMP port-unreachable
    /// proved a DF datagram of this size reached the destination.
    Fit,
    /// No feedback within the window.
    Silent,
    /// Fragmentation feedback. `mtu` = next-hop MTU when known;
    /// `wire_icmp` = true only for evidence that came off the wire.
    TooBig { mtu: Option<u32>, wire_icmp: bool },
}

/// Result of the size search.
#[derive(Debug, Clone, Copy, PartialEq, Eq, Structural)]
pub struct SearchOutcome {
    /// Largest payload the search settled on; None when even a minimal
    /// datagram was rejected.
    pub largest_fit: Option<u32>,
    /// Any size was positively confirmed (echo / port-unreachable).
    pub confirmed_seen: bool,
    pub wire_icmp_seen: bool,
    pub bound_found: bool,
    pub icmp_mtu: Option<u32>,
}

/// Size of the second candidate tried when even the floor is too big.
pub const MINIMAL_DATAGRAM: u32 = 32;

/// Where the search stands.
#[derive(Debug, Clone, Copy, PartialEq, Eq, Structural)]
pub enum SearchPhase {
    /// About to probe the floor size.
    Floor,
    /// The floor was too big; about to probe a minimal datagram.
    Minimal,
    /// A working size is known; bisecting `[lo, hi]`.
    Bisect,
    /// Even the minimal datagram was rejected.
    Rejected,
}

/// The search state. `lo` is the largest size known to pass (once in
/// `Bisect`), `hi` the largest size not yet ruled out.
#[derive(Debug, Clone, Copy, PartialEq, Eq, Structural)]
pub struct SearchState {
    pub floor: u32,
    pub header: u32,
    pub lo: u32,
    pub hi: u32,
    pub phase: SearchPhase,
    pub confirmed_seen: bool,
    pub wire_icmp_seen: bool,
    pub bound_found: bool,
    pub icmp_mtu: Option<u32>,
}

pub open spec fn sat_sub(a: u32, b: u32) -> u32 {
    if a >= b { (a - b) as u32 } else { 0 }
}

pub open spec fn min_u32(a: u32, b: u32) -> u32 {
    if a <= b { a } else { b }
}

/// Upper midpoint of `[lo, hi]`: `lo + ceil((hi - lo) / 2)`.
pub open spec fn upper_mid(lo: u32, hi: u32) -> u32 {
    (lo + (hi - lo + 1) / 2) as u32
}

pub open spec fn search_start(floor: u32, ceil: u32, header: u32) -> SearchState {
    SearchState {
        floor,
        header,
        lo: floor,
        hi: ceil,
        phase: SearchPhase::Floor,
        confirmed_seen: false,
        wire_icmp_seen: false,
        bound_found: false,
        icmp_mtu: None,
    }
}

/// The size the search wants probed next; None once it has concluded.
pub open spec fn next_probe_spec(s: SearchState) -> Option<u32> {
    match s.phase {
        SearchPhase::Floor => Some(s.floor),
        SearchPhase::Minimal => Some(MINIMAL_DATAGRAM),
        SearchPhase::Bisect => if s.lo < s.hi { Some(upper_mid(s.lo, s.hi)) } else { None },
        SearchPhase::Rejected => None,
    }
}

/// Evidence bookkeeping for one classification.
pub open spec fn note_spec(s: SearchState, class: SizeClass) -> SearchState {
    match class {
        SizeClass::Fit => SearchState { confirmed_seen: true, ..s },
        SizeClass::Silent => s,
        SizeClass::TooBig { mtu, wire_icmp } => {
            if wire_icmp {
                SearchState {
                    bound_found: true,
                    wire_icmp_seen: true,
                    icmp_mtu: match mtu {
                        Some(m) => match s.icmp_mtu {
                            Some(cur) => Some(min_u32(cur, m)),
                            None => Some(m),
                        },
                        None => s.icmp_mtu,
                    },
                    ..s
                }
            } else {
                SearchState { bound_found: true, ..s }
            }
        },
    }
}

/// Upper bound after a TooBig at `size`, tightened by a next-hop MTU hint.
pub open spec fn shrink_hi(hi: u32, size_minus_one: u32, mtu: Option<u32>, header: u32) -> u32 {
    let h = min_u32(hi, size_minus_one);
    match mtu {
        Some(m) => min_u32(h, sat_sub(m, header)),
        None => h,
    }
}

/// The state after the size named by `next_probe_spec(s)` was classified.
/// A concluded search ignores further classifications.
pub open spec fn observe_spec(s: SearchState, class: SizeClass) -> SearchState {
    match next_probe_spec(s) {
        None => s,
        Some(size) => {
            let n = note_spec(s, class);
            match s.phase {
                SearchPhase::Bisect => match class {
                    SizeClass::TooBig { mtu, .. } => SearchState {
                        hi: shrink_hi(s.hi, (size - 1) as u32, mtu, s.header),
                        ..n
                    },
                    _ => SearchState { lo: size, ..n },
                },
                _ => match class {
                    SizeClass::TooBig { mtu, .. } => SearchState {
                        hi: shrink_hi(s.hi, sat_sub(size, 1), mtu, s.header),
                        phase: if s.phase == SearchPhase::Floor {
                            SearchPhase::Minimal
                        } else {
                            SearchPhase::Rejected
                        },
                        ..n
                    },
                    _ => SearchState { lo: size, phase: SearchPhase::Bisect, ..n },
                },
            }
        },
    }
}

pub open spec fn outcome_spec(s: SearchState) -> SearchOutcome {
    SearchOutcome {
        largest_fit: if s.phase == SearchPhase::Rejected { None } else { Some(s.lo) },
        confirmed_seen: s.confirmed_seen,
        wire_icmp_seen: s.wire_icmp_seen,
        bound_found: s.bound_found,
        icmp_mtu: s.icmp_mtu,
    }
}

pub open spec fn phase_rank(p: SearchPhase) -> nat {
    match p {
        SearchPhase::Floor => 2,
        SearchPhase::Minimal => 1,
        _ => 0,
    }
}

pub open spec fn gap(s: SearchState) -> nat {
    if s.hi > s.lo { (s.hi - s.lo) as nat } else { 0 }
}

pub proof fn lemma_observe_progress(s: SearchState, class: SizeClass)
    requires
        next_probe_spec(s) is Some,
    ensures
        phase_rank(observe_spec(s, class).phase) < phase_rank(s.phase) || (phase_rank(
            observe_spec(s, class).phase,
        ) == phase_rank(s.phase) && gap(observe_spec(s, class)) < gap(s)),
{
}

/// The whole search run against a classification function: probe, observe,
/// until the search concludes.
pub open spec fn run_search(s: SearchState, cls: spec_fn(u32) -> SizeClass) -> SearchState
    decreases phase_rank(s.phase), gap(s),
{
    match next_probe_spec(s) {
        None => s,
        Some(size) => {
            proof {
                lemma_observe_progress(s, cls(size));
            }
            run_search(observe_spec(s, cls(size)), cls)
        },
    }
}

/// The outcome of the search on `[floor, ceil]` when size `s` is classified
/// as `cls(s)`.
pub open spec fn search_spec(
    floor: u32,
    ceil: u32,
    header: u32,
    cls: spec_fn(u32) -> SizeClass,
) -> SearchOutcome {
    outcome_spec(run_search(search_start(floor, ceil, header), cls))
}

/// Replays a sequence of classifications from a state.
pub open spec fn replay(s: SearchState, obs: Seq<SizeClass>) -> SearchState
    decreases obs.len(),
{
    if obs.len() == 0 {
        s
    } else {
        replay(observe_spec(s, obs[0]), obs.drop_first())
    }
}

/// The size probed for the `i`-th classification of `obs`.
pub open spec fn probe_at(s: SearchState, obs: Seq<SizeClass>, i: int) -> Option<u32> {
    next_probe_spec(replay(s, obs.take(i)))
}

// ─────────────────────────────────────────────────────────────────────────────
// Executable state machine
// ─────────────────────────────────────────────────────────────────────────────

fn min_u32_exec(a: u32, b: u32) -> (r: u32)
    ensures
        r == min_u32(a, b),
{
    if a <= b {
        a
    } else {
        b
    }
}

fn sat_sub_exec(a: u32, b: u32) -> (r: u32)
    ensures
        r == sat_sub(a, b),
{
    if a >= b {
        a - b
    } else {
        0
    }
}

impl SearchState {
    /// A fresh search over payload sizes `[floor, ceil]`; `header` converts
    /// next-hop MTU hints into payload bounds.
    pub fn start(floor: u32, ceil: u32, header: u32) -> (s: SearchState)
        ensures
            s == search_start(floor, ceil, header),
    {
        SearchState {
            floor,
            header,
            lo: floor,
            hi: ceil,
            phase: SearchPhase::Floor,
            confirmed_seen: false,
            wire_icmp_seen: false,
            bound_found: false,
            icmp_mtu: None,
        }
    }

    /// The size to probe next, or None once the search has concluded.
    pub fn next_probe(&self) -> (r: Option<u32>)
        ensures
            r == next_probe_spec(*self),
    {
        match self.phase {
            SearchPhase::Floor => Some(self.floor),
            SearchPhase::Minimal => Some(MINIMAL_DATAGRAM),
            SearchPhase::Bisect => {
                if self.lo < self.hi {
                    Some(self.lo + (self.hi - self.lo) / 2 + (self.hi - self.lo) % 2)
                } else {
                    None
                }
            },
            SearchPhase::Rejected => None,
        }
    }

    /// Record what the size named by `next_probe` told us.
    pub fn observe(&mut self, class: SizeClass)
        ensures
            *final(self) == observe_spec(*old(self), class),
    {
        let pending = self.next_probe();
        match pending {
            None => {},
            Some(size) => {
                match class {
                    SizeClass::Fit => {
                        self.confirmed_seen = true;
                    },
                    SizeClass::Silent => {},
                    SizeClass::TooBig { mtu, wire_icmp } => {
                        self.bound_found = true;
                        if wire_icmp {
                            self.wire_icmp_seen = true;
                            match mtu {
                                Some(m) => {
                                    self.icmp_mtu = match self.icmp_mtu {
                                        Some(cur) => Some(min_u32_exec(cur, m)),
                                        None => Some(m),
                                    };
                                },
                                None => {},
                            }
                        }
                    },
                }
                match class {
                    SizeClass::TooBig { mtu, .. } => {
                        let below = if self.phase == SearchPhase::Bisect {
                            size - 1
                        } else {
                            sat_sub_exec(size, 1)
                        };
                        let mut h = min_u32_exec(self.hi, below);
                        match mtu {
                            Some(m) => {
                                h = min_u32_exec(h, sat_sub_exec(m, self.header));
                            },
                            None => {},
                        }
                        self.hi = h;
                        if self.phase == SearchPhase::Floor {
                            self.phase = SearchPhase::Minimal;
                        } else if self.phase == SearchPhase::Minimal {
                            self.phase = SearchPhase::Rejected;
                        }
                    },
                    _ => {
                        self.lo = size;
                        self.phase = SearchPhase::Bisect;
                    },
                }
            },
        }
    }

    /// The search outcome (meaningful once `next_probe` is None).
    pub fn outcome(&self) -> (o: SearchOutcome)
        ensures
            o == outcome_spec(*self),
    {
        SearchOutcome {
            largest_fit: if self.phase == SearchPhase::Rejected {
                None
            } else {
                Some(self.lo)
            },
            confirmed_seen: self.confirmed_seen,
            wire_icmp_seen: self.wire_icmp_seen,
            bound_found: self.bound_found,
            icmp_mtu: self.icmp_mtu,
        }
    }
}


// ─────────────────────────────────────────────────────────────────────────────
// Driving the search with a classifier
// ─────────────────────────────────────────────────────────────────────────────

/// `classify` behaves as the function `cls`: whenever it returns, it returns
/// `Ok(cls(size))`.
pub open spec fn classifies<F: Fn(u32) -> Result<SizeClass, String>>(
    classify: F,
    cls: spec_fn(u32) -> SizeClass,
) -> bool {
    forall|size: u32, r: Result<SizeClass, String>|
        call_ensures(classify, (size,), r) ==> r == Ok::<SizeClass, String>(cls(size))
}

pub proof fn lemma_replay_push(s: SearchState, obs: Seq<SizeClass>, c: SizeClass)
    ensures
        replay(s, obs.push(c)) == observe_spec(replay(s, obs), c),
    decreases obs.len(),
{
    if obs.len() > 0 {
        assert(obs.push(c).drop_first() =~= obs.drop_first().push(c));
        lemma_replay_push(observe_spec(s, obs[0]), obs.drop_first(), c);
    } else {
        reveal_with_fuel(replay, 2);
        assert(obs.push(c).drop_first() =~= Seq::<SizeClass>::empty());
    }
}

/// A finished replay whose classifications all came from `cls` is the run of
/// the search against `cls`.
pub proof fn lemma_replay_is_run(s: SearchState, obs: Seq<SizeClass>, cls: spec_fn(u32) -> SizeClass)
    requires
        forall|i: int|
            0 <= i < obs.len() ==> {
                &&& #[trigger] probe_at(s, obs, i) is Some
                &&& obs[i] == cls(probe_at(s, obs, i)->0)
            },
        next_probe_spec(replay(s, obs)) is None,
    ensures
        run_search(s, cls) == replay(s, obs),
    decreases obs.len(),
{
    if obs.len() == 0 {
        assert(obs.take(0) =~= obs);
    } else {
        assert(obs.take(0) =~= Seq::<SizeClass>::empty());
        assert(probe_at(s, obs, 0) is Some);
        let s1 = observe_spec(s, obs[0]);
        let rest = obs.drop_first();
        assert forall|i: int| 0 <= i < rest.len() implies {
            &&& #[trigger] probe_at(s1, rest, i) is Some
            &&& rest[i] == cls(probe_at(s1, rest, i)->0)
        } by {
            assert(obs.take(i + 1).drop_first() =~= rest.take(i));
            assert(obs.take(i + 1)[0] == obs[0]);
            assert(probe_at(s, obs, i + 1) is Some);
        }
        lemma_replay_is_run(s1, rest, cls);
    }
}

/// One classifier call of a search: the size probed and what came back.
pub type ProbeRecord = (u32, Result<SizeClass, String>);

/// The classification a call contributes to the search (an error ends the
/// search, so its stand-in is never observed).
pub open spec fn class_of(r: Result<SizeClass, String>) -> SizeClass {
    match r {
        Ok(c) => c,
        Err(_) => SizeClass::Silent,
    }
}

/// The classifications of a sequence of calls, in call order.
pub open spec fn log_classes(log: Seq<ProbeRecord>) -> Seq<SizeClass> {
    log.map_values(|e: ProbeRecord| class_of(e.1))
}

/// Number of binary digits of `n` (0 for 0): `floor(log2(n)) + 1` for
/// `n >= 1`.
pub open spec fn bit_len(n: nat) -> nat
    decreases n,
{
    if n == 0 {
        0
    } else {
        1 + bit_len(n / 2)
    }
}

/// What a run of the search did, call by call. `log` lists the classifier
/// calls in the order they were made:
/// - call `i` probed the size the search asks for after the first `i`
///   answers, and its answer is one the classifier may give for that size;
/// - every call but the last answered `Ok`;
/// - there are at most `2 + bit_len(ceil)` calls, and with
///   `32 <= floor <= ceil` every probed size lies in `[32, ceil]`;
/// - an `Ok(o)` result comes after the search concluded on the answers, and
///   `o` is their outcome; an `Err(e)` result is the last call's own error.
pub open spec fn search_log_ok<F: Fn(u32) -> Result<SizeClass, String>>(
    classify: F,
    floor: u32,
    ceil: u32,
    header: u32,
    log: Seq<ProbeRecord>,
    r: Result<SearchOutcome, String>,
) -> bool {
    let s0 = search_start(floor, ceil, header);
    let obs = log_classes(log);
    &&& forall|i: int| 0 <= i < log.len() ==> probe_at(s0, obs, i) == Some(#[trigger] log[i].0)
    &&& forall|i: int| 0 <= i < log.len() ==> call_ensures(classify, (log[i].0,), #[trigger] log[i].1)
    &&& forall|i: int| 0 <= i < log.len() - 1 ==> #[trigger] log[i].1 is Ok
    &&& log.len() <= 2 + bit_len(ceil as nat)
    &&& (MINIMAL_DATAGRAM <= floor <= ceil ==> forall|i: int|
        0 <= i < log.len() ==> MINIMAL_DATAGRAM <= #[trigger] log[i].0 <= ceil)
    &&& match r {
        Ok(o) => {
            &&& forall|i: int| 0 <= i < log.len() ==> #[trigger] log[i].1 is Ok
            &&& next_probe_spec(replay(s0, obs)) is None
            &&& o == outcome_spec(replay(s0, obs))
        },
        Err(e) => log.len() > 0 && log.last().1 == Err::<SizeClass, String>(e),
    }
}

/// Potential of a state: an upper bound on the probes it still sends.
pub open spec fn probe_budget(s: SearchState) -> nat {
    match s.phase {
        SearchPhase::Floor => 2 + bit_len(s.hi as nat),
        SearchPhase::Minimal => 1 + bit_len(s.hi as nat),
        SearchPhase::Bisect => bit_len(gap(s)),
        SearchPhase::Rejected => 0,
    }
}

/// Probed sizes stay in `[32, ceil]` from this state on.
pub open spec fn sizes_in_range(s: SearchState, ceil: u32) -> bool {
    &&& MINIMAL_DATAGRAM <= s.floor <= ceil
    &&& s.hi <= ceil
    &&& (s.phase == SearchPhase::Bisect ==> s.lo >= MINIMAL_DATAGRAM)
}

proof fn lemma_bit_len_monotone(a: nat, b: nat)
    requires
        a <= b,
    ensures
        bit_len(a) <= bit_len(b),
    decreases b,
{
    if a > 0 {
        lemma_bit_len_monotone(a / 2, b / 2);
    }
}

/// Each probe uses up budget, and a state that still probes has budget.
proof fn lemma_budget_step(s: SearchState, class: SizeClass)
    requires
        next_probe_spec(s) is Some,
    ensures
        probe_budget(s) >= 1,
        probe_budget(observe_spec(s, class)) + 1 <= probe_budget(s),
{
    let n = observe_spec(s, class);
    match s.phase {
        SearchPhase::Floor => {
            lemma_bit_len_monotone(n.hi as nat, s.hi as nat);
            lemma_bit_len_monotone(gap(n), s.hi as nat);
        },
        SearchPhase::Minimal => {
            lemma_bit_len_monotone(gap(n), s.hi as nat);
        },
        SearchPhase::Bisect => {
            let g = gap(s);
            assert(g >= 1);
            assert(gap(n) <= g / 2);
            lemma_bit_len_monotone(gap(n), g / 2);
        },
        SearchPhase::Rejected => {},
    }
}

proof fn lemma_range_step(s: SearchState, class: SizeClass, ceil: u32)
    requires
        next_probe_spec(s) is Some,
        sizes_in_range(s, ceil),
    ensures
        MINIMAL_DATAGRAM <= next_probe_spec(s)->0 <= ceil,
        sizes_in_range(observe_spec(s, class), ceil),
{
}

/// Binary-search the largest payload in `[floor, ceil]` accepted by
/// `classify`, tracking evidence, and return with the result the record of
/// every classifier call made. A classifier error aborts the search at once.
pub fn search_largest_fit_traced<F: Fn(u32) -> Result<SizeClass, String>>(
    floor: u32,
    ceil: u32,
    header: u32,
    classify: F,
) -> (r: (Result<SearchOutcome, String>, Ghost<Seq<ProbeRecord>>))
    requires
        forall|size: u32| call_requires(classify, (size,)),
    ensures
        search_log_ok(classify, floor, ceil, header, r.1@, r.0),
        forall|cls: spec_fn(u32) -> SizeClass|
            classifies(classify, cls) ==> r.0 == Ok::<SearchOutcome, String>(
                search_spec(floor, ceil, header, cls),
            ),
{
    let mut st = SearchState::start(floor, ceil, header);
    let ghost s0 = st;
    let ghost mut log: Seq<ProbeRecord> = Seq::empty();
    proof {
        assert(log_classes(log) =~= Seq::<SizeClass>::empty());
    }
    loop
        invariant
            forall|size: u32| call_requires(classify, (size,)),
            s0 == search_start(floor, ceil, header),
            st == replay(s0, log_classes(log)),
            forall|i: int| 0 <= i < log.len() ==> probe_at(s0, log_classes(log), i) == Some(#[trigger] log[i].0),
            forall|i: int| 0 <= i < log.len() ==> call_ensures(classify, (log[i].0,), #[trigger] log[i].1),
            forall|i: int| 0 <= i < log.len() ==> #[trigger] log[i].1 is Ok,
            log.len() + probe_budget(st) <= 2 + bit_len(ceil as nat),
            MINIMAL_DATAGRAM <= floor <= ceil ==> sizes_in_range(st, ceil),
            MINIMAL_DATAGRAM <= floor <= ceil ==> forall|i: int|
                0 <= i < log.len() ==> MINIMAL_DATAGRAM <= #[trigger] log[i].0 <= ceil,
        decreases phase_rank(st.phase), gap(st),
    {
        match st.next_probe() {
            None => {
                let o = st.outcome();
                proof {
                    let obs = log_classes(log);
                    assert forall|cls: spec_fn(u32) -> SizeClass|
                        classifies(classify, cls) implies o == search_spec(floor, ceil, header, cls) by {
                        assert forall|i: int| 0 <= i < obs.len() implies {
                            &&& #[trigger] probe_at(s0, obs, i) is Some
                            &&& obs[i] == cls(probe_at(s0, obs, i)->0)
                        } by {
                            assert(probe_at(s0, obs, i) == Some(log[i].0));
                            assert(call_ensures(classify, (log[i].0,), log[i].1));
                        }
                        lemma_replay_is_run(s0, obs, cls);
                    }
                }
                return (Ok(o), Ghost(log));
            },
            Some(size) => {
                let res = classify(size);
                let ghost old_log = log;
                proof {
                    lemma_budget_step(st, class_of(res));
                    if MINIMAL_DATAGRAM <= floor <= ceil {
                        lemma_range_step(st, class_of(res), ceil);
                    }
                    log = log.push((size, res));
                    assert forall|i: int| 0 <= i < old_log.len() implies
                        log_classes(log).take(i) =~= log_classes(old_log).take(i) by {}
                    assert(log_classes(log).take(old_log.len() as int) =~= log_classes(old_log));
                    assert forall|i: int| 0 <= i < log.len() implies
                        probe_at(s0, log_classes(log), i) == Some(#[trigger] log[i].0) by {
                        if i < old_log.len() {
                            assert(log_classes(log).take(i) =~= log_classes(old_log).take(i));
                            assert(probe_at(s0, log_classes(old_log), i) == Some(old_log[i].0));
                        }
                    }
                }
                match res {
                    Err(e) => {
                        return (Err(e), Ghost(log));
                    },
                    Ok(class) => {
                        proof {
                            lemma_observe_progress(st, class);
                            lemma_replay_push(s0, log_classes(old_log), class);
                            assert(log_classes(log) =~= log_classes(old_log).push(class));
                        }
                        st.observe(class);
                    },
                }
            },
        }
    }
}

/// Binary-search the largest payload in `[floor, ceil]` accepted by
/// `classify`, tracking evidence. A classifier error aborts the search.
/// The calls it makes are those of `search_largest_fit_traced`.
pub fn search_largest_fit<F: Fn(u32) -> Result<SizeClass, String>>(
    floor: u32,
    ceil: u32,
    header: u32,
    classify: F,
) -> (r: Result<SearchOutcome, String>)
    requires
        forall|size: u32| call_requires(classify, (size,)),
    ensures
        exists|log: Seq<ProbeRecord>| #[trigger] search_log_ok(classify, floor, ceil, header, log, r),
        forall|cls: spec_fn(u32) -> SizeClass|
            classifies(classify, cls) ==> r == Ok::<SearchOutcome, String>(
                search_spec(floor, ceil, header, cls),
            ),
{
    let (r, log) = search_largest_fit_traced(floor, ceil, header, classify);
    assert(search_log_ok(classify, floor, ceil, header, log@, r));
    r
}


// ─────────────────────────────────────────────────────────────────────────────
// Laws of the search
// ─────────────────────────────────────────────────────────────────────────────

/// `cls` describes a path that carries every payload up to `b` bytes and
/// rejects every larger one, with honest next-hop MTU hints (a hint never
/// rules out a payload the path actually carries).
pub open spec fn threshold_classifier(cls: spec_fn(u32) -> SizeClass, b: u32, header: u32) -> bool {
    forall|x: u32|
        {
            &&& (x <= b ==> !(#[trigger] cls(x) is TooBig))
            &&& (x > b ==> cls(x) is TooBig)
            &&& (cls(x) matches SizeClass::TooBig { mtu: Some(m), .. } ==> sat_sub(m, header) >= b)
        }
}

proof fn lemma_bisect_converges(s: SearchState, cls: spec_fn(u32) -> SizeClass, b: u32)
    requires
        s.phase == SearchPhase::Bisect,
        threshold_classifier(cls, b, s.header),
        s.lo <= min_u32(b, s.hi),
    ensures
        run_search(s, cls).phase == SearchPhase::Bisect,
        run_search(s, cls).lo == min_u32(b, s.hi),
        run_search(s, cls).bound_found == (s.bound_found || b < s.hi),
    decreases gap(s),
{
    if s.lo < s.hi {
        let size = upper_mid(s.lo, s.hi);
        lemma_observe_progress(s, cls(size));
        lemma_bisect_converges(observe_spec(s, cls(size)), cls, b);
    }
}

/// Boundary law: against a path that carries exactly the payloads up to `b`,
/// the search settles on `min(b, ceil)` (or reports that not even a minimal
/// datagram passes), and it reports a bound exactly when `b` is below the
/// ceiling.
pub proof fn law_search_finds_boundary(
    floor: u32,
    ceil: u32,
    header: u32,
    cls: spec_fn(u32) -> SizeClass,
    b: u32,
)
    requires
        floor <= ceil,
        threshold_classifier(cls, b, header),
    ensures
        search_spec(floor, ceil, header, cls).largest_fit == (if b >= floor || b >= MINIMAL_DATAGRAM {
            Some(min_u32(b, ceil))
        } else {
            None
        }),
        search_spec(floor, ceil, header, cls).bound_found == (b < ceil),
{
    let s0 = search_start(floor, ceil, header);
    let c0 = cls(floor);
    let s1 = observe_spec(s0, c0);
    lemma_observe_progress(s0, c0);
    assert(run_search(s0, cls) == run_search(s1, cls));
    if floor <= b {
        lemma_bisect_converges(s1, cls, b);
    } else {
        let c1 = cls(MINIMAL_DATAGRAM);
        let s2 = observe_spec(s1, c1);
        lemma_observe_progress(s1, c1);
        assert(run_search(s1, cls) == run_search(s2, cls));
        if MINIMAL_DATAGRAM <= b {
            lemma_bisect_converges(s2, cls, b);
        } else {
            assert(next_probe_spec(s2) is None);
        }
    }
}

/// Evidence is never fabricated: every flag the search raises, and every
/// next-hop MTU it reports, traces back to a classification it was given.
pub proof fn law_search_evidence_is_observed(s: SearchState, cls: spec_fn(u32) -> SizeClass)
    ensures
        run_search(s, cls).confirmed_seen ==> s.confirmed_seen || exists|x: u32|
            #[trigger] cls(x) is Fit,
        run_search(s, cls).wire_icmp_seen ==> s.wire_icmp_seen || exists|x: u32|
            #[trigger] cls(x) matches SizeClass::TooBig { wire_icmp: true, .. },
        run_search(s, cls).bound_found ==> s.bound_found || exists|x: u32|
            #[trigger] cls(x) is TooBig,
        run_search(s, cls).icmp_mtu matches Some(m) ==> s.icmp_mtu == Some(m) || exists|x: u32|
            #[trigger] cls(x) == (SizeClass::TooBig { mtu: Some(m), wire_icmp: true }),
    decreases phase_rank(s.phase), gap(s),
{
    match next_probe_spec(s) {
        None => {},
        Some(size) => {
            lemma_observe_progress(s, cls(size));
            law_search_evidence_is_observed(observe_spec(s, cls(size)), cls);
        },
    }
}


/// `c` is fragmentation feedback that came off the wire.
pub open spec fn is_wire_feedback(c: SizeClass) -> bool {
    c matches SizeClass::TooBig { wire_icmp: true, .. }
}

/// `c` is wire feedback naming next-hop MTU `m`.
pub open spec fn wire_mtu_hint(c: SizeClass, m: u32) -> bool {
    c == (SizeClass::TooBig { mtu: Some(m), wire_icmp: true })
}

/// Every answer in `obs` was asked for: the search still probed at each step.
pub open spec fn all_probed(s: SearchState, obs: Seq<SizeClass>) -> bool {
    forall|i: int| 0 <= i < obs.len() ==> #[trigger] probe_at(s, obs, i) is Some
}

proof fn lemma_flags_of_replay(s: SearchState, obs: Seq<SizeClass>)
    requires
        all_probed(s, obs),
    ensures
        replay(s, obs).confirmed_seen == (s.confirmed_seen || exists|i: int|
            0 <= i < obs.len() && #[trigger] obs[i] is Fit),
        replay(s, obs).bound_found == (s.bound_found || exists|i: int|
            0 <= i < obs.len() && #[trigger] obs[i] is TooBig),
        replay(s, obs).wire_icmp_seen == (s.wire_icmp_seen || exists|i: int|
            0 <= i < obs.len() && #[trigger] is_wire_feedback(obs[i])),
        replay(s, obs).icmp_mtu is None == (s.icmp_mtu is None && forall|i: int, m: u32|
            0 <= i < obs.len() ==> !#[trigger] wire_mtu_hint(obs[i], m)),
        replay(s, obs).icmp_mtu matches Some(m) ==> {
            &&& (s.icmp_mtu == Some(m) || exists|i: int| 0 <= i < obs.len() && #[trigger] wire_mtu_hint(obs[i], m))
            &&& (s.icmp_mtu matches Some(c) ==> m <= c)
            &&& forall|i: int, m2: u32| 0 <= i < obs.len() && #[trigger] wire_mtu_hint(obs[i], m2) ==> m <= m2
        },
    decreases obs.len(),
{
    if obs.len() > 0 {
        let p = obs.drop_last();
        let c = obs.last();
        assert(obs =~= p.push(c));
        assert forall|i: int| 0 <= i < p.len() implies #[trigger] probe_at(s, p, i) is Some by {
            assert(p.take(i) =~= obs.take(i));
            assert(probe_at(s, obs, i) is Some);
        }
        lemma_flags_of_replay(s, p);
        lemma_replay_push(s, p, c);
        let k = obs.len() - 1;
        assert(obs.take(k) =~= p);
        assert(probe_at(s, obs, k) is Some);
        let r = replay(s, p);
        assert(next_probe_spec(r) is Some);
        if exists|i: int| 0 <= i < p.len() && #[trigger] p[i] is Fit {
            let i = choose|i: int| 0 <= i < p.len() && #[trigger] p[i] is Fit;
            assert(obs[i] == p[i]);
        }
        if exists|i: int| 0 <= i < p.len() && #[trigger] p[i] is TooBig {
            let i = choose|i: int| 0 <= i < p.len() && #[trigger] p[i] is TooBig;
            assert(obs[i] == p[i]);
        }
        if exists|i: int| 0 <= i < p.len() && #[trigger] is_wire_feedback(p[i]) {
            let i = choose|i: int| 0 <= i < p.len() && #[trigger] is_wire_feedback(p[i]);
            assert(obs[i] == p[i]);
            assert(is_wire_feedback(obs[i]));
        }
        assert forall|i: int| 0 <= i < p.len() implies obs[i] == #[trigger] p[i] by {}
        assert(obs[k] == c);
        assert(is_wire_feedback(obs[k]) == is_wire_feedback(c));
        assert forall|i: int| 0 <= i < obs.len() && #[trigger] is_wire_feedback(obs[i]) implies
            i == k || is_wire_feedback(p[i]) by {
            if i < k {
                assert(obs[i] == p[i]);
            }
        }
        assert forall|i: int, m: u32| 0 <= i < obs.len() && #[trigger] wire_mtu_hint(obs[i], m) implies
            (i == k && wire_mtu_hint(c, m)) || (i < k && wire_mtu_hint(p[i], m)) by {
            if i < k {
                assert(obs[i] == p[i]);
            }
        }
        assert forall|i: int, m: u32| 0 <= i < p.len() && #[trigger] wire_mtu_hint(p[i], m) implies
            wire_mtu_hint(obs[i], m) by {
            assert(obs[i] == p[i]);
        }
        let r2 = observe_spec(r, c);
        match c {
            SizeClass::TooBig { mtu: Some(mc), wire_icmp: true } => {
                assert(wire_mtu_hint(obs[k], mc));
                match r2.icmp_mtu {
                    Some(m) => {
                        if m != mc {
                            assert(r.icmp_mtu == Some(m));
                            if s.icmp_mtu != Some(m) {
                                let i = choose|i: int| 0 <= i < p.len() && #[trigger] wire_mtu_hint(p[i], m);
                                assert(wire_mtu_hint(obs[i], m));
                            }
                        }
                    },
                    None => {},
                }
            },
            _ => {
                assert forall|m: u32| !wire_mtu_hint(c, m) by {}
                assert(r2.icmp_mtu == r.icmp_mtu);
                if r.icmp_mtu is Some && s.icmp_mtu != r.icmp_mtu {
                    let m = r.icmp_mtu->0;
                    let i = choose|i: int| 0 <= i < p.len() && #[trigger] wire_mtu_hint(p[i], m);
                    assert(wire_mtu_hint(obs[i], m));
                }
            },
        }
    }
}

/// The outcome's evidence is exactly what the answers showed: a size was
/// confirmed iff some answer was `Fit`; a bound was found iff some answer was
/// `TooBig`; wire ICMP was seen iff some `TooBig` came off the wire; and the
/// reported next-hop MTU is the smallest one named by wire feedback (none
/// when no wire feedback named one; host-local feedback never sets it).
pub proof fn law_search_evidence_matches_answers(floor: u32, ceil: u32, header: u32, obs: Seq<SizeClass>)
    requires
        all_probed(search_start(floor, ceil, header), obs),
    ensures
        ({
            let o = outcome_spec(replay(search_start(floor, ceil, header), obs));
            &&& o.confirmed_seen == exists|i: int| 0 <= i < obs.len() && #[trigger] obs[i] is Fit
            &&& o.bound_found == exists|i: int| 0 <= i < obs.len() && #[trigger] obs[i] is TooBig
            &&& o.wire_icmp_seen == exists|i: int|
                0 <= i < obs.len() && #[trigger] is_wire_feedback(obs[i])
            &&& o.icmp_mtu is None == forall|i: int, m: u32| 0 <= i < obs.len() ==> !#[trigger] wire_mtu_hint(obs[i], m)
            &&& (o.icmp_mtu matches Some(m) ==> {
                &&& exists|i: int| 0 <= i < obs.len() && #[trigger] wire_mtu_hint(obs[i], m)
                &&& forall|i: int, m2: u32| 0 <= i < obs.len() && #[trigger] wire_mtu_hint(obs[i], m2) ==> m <= m2
            })
        }),
{
    lemma_flags_of_replay(search_start(floor, ceil, header), obs);
}

// ─────────────────────────────────────────────────────────────────────────────
// Probe datagrams
// ─────────────────────────────────────────────────────────────────────────────

/// Byte `k` (0 = most significant) of the big-endian encoding of `v`.
pub open spec fn be_byte_u32(v: u32, k: int) -> u8 {
    ((v >> ((3 - k) * 8) as u32) & 0xff) as u8
}

fn seq_byte(v: u32, k: usize) -> (r: u8)
    requires
        k < 4,
    ensures
        r == be_byte_u32(v, k as int),
{
    let shift: u32 = ((3 - k) * 8) as u32;
    ((v >> shift) & 0xff) as u8
}

/// Marks a probe datagram of at least 12 bytes: the sequence number, then
/// the send time in microseconds, both big-endian; the rest is left as it
/// is. Shorter datagrams are left unmarked.
pub fn stamp_probe(buf: &mut [u8], seq: u32, now_us: u64)
    ensures
        final(buf)@.len() == old(buf)@.len(),
        old(buf)@.len() < 12 ==> final(buf)@ == old(buf)@,
        old(buf)@.len() >= 12 ==> {
            &&& forall|j: int| 0 <= j < 4 ==> #[trigger] final(buf)@[j] == be_byte_u32(seq, j)
            &&& forall|j: int| 4 <= j < 12 ==> #[trigger] final(buf)@[j] == be_byte_u64(now_us, j - 4)
            &&& forall|j: int| 12 <= j < old(buf)@.len() ==> #[trigger] final(buf)@[j] == old(buf)@[j]
        },
{
    if buf.len() < 12 {
        return;
    }
    let mut k: usize = 0;
    while k < 4
        invariant
            k <= 4,
            buf@.len() == old(buf)@.len(),
            buf@.len() >= 12,
            forall|j: int| 0 <= j < k ==> #[trigger] buf@[j] == be_byte_u32(seq, j),
            forall|j: int| k <= j < buf@.len() ==> #[trigger] buf@[j] == old(buf)@[j],
        decreases 4 - k,
    {
        buf[k] = seq_byte(seq, k);
        k = k + 1;
    }
    let mut k: usize = 0;
    while k < 8
        invariant
            k <= 8,
            buf@.len() == old(buf)@.len(),
            buf@.len() >= 12,
            forall|j: int| 0 <= j < 4 ==> #[trigger] buf@[j] == be_byte_u32(seq, j),
            forall|j: int| 4 <= j < 4 + k ==> #[trigger] buf@[j] == be_byte_u64(now_us, j - 4),
            forall|j: int| 4 + k <= j < buf@.len() ==> #[trigger] buf@[j] == old(buf)@[j],
        decreases 8 - k,
    {
        buf[4 + k] = stamp_byte(now_us, k);
        k = k + 1;
    }
}

// ─────────────────────────────────────────────────────────────────────────────
// Configuration and search bounds
// ─────────────────────────────────────────────────────────────────────────────

pub const DEFAULT_PMTUD_TIMEOUT_MS: u64 = 1_000;
pub const DEFAULT_PMTUD_RETRIES: u32 = 2;
/// Jumbo-frame ceiling: paths above this are reported as a lower bound.
pub const DEFAULT_PMTUD_MAX_MTU: u32 = 9_216;
/// ICMP errors come from routers close by; unconfirmed waits are capped.
pub const PMTUD_ICMP_WAIT_CAP_MS: u64 = 300;
/// UDP echo port of the measurement endpoint.
pub const DEFAULT_PMTUD_PORT: u16 = 9999;

#[derive(Debug, Clone)]
pub struct PmtudProbeConfig {
    /// Hostname or IP literal to probe toward.
    pub target_host: String,
    /// UDP port the DF probes are aimed at.
    pub target_port: u16,
    /// Per-probe wait for a confirmation (ms).
    pub probe_timeout_ms: u64,
    /// Extra sends per size before a silent probe is classified (confirmed
    /// mode only).
    pub retries_per_size: u32,
    /// Search ceiling for the total IP MTU (bytes).
    pub max_mtu: u32,
}

impl Default for PmtudProbeConfig {
    /// Loopback target, echo port 9999, 1 s per probe, 2 retries, 9216-byte
    /// ceiling.
    fn default() -> (c: PmtudProbeConfig)
        ensures
            c.target_host@ == "127.0.0.1"@,
            c.target_port == DEFAULT_PMTUD_PORT,
            c.probe_timeout_ms == DEFAULT_PMTUD_TIMEOUT_MS,
            c.retries_per_size == DEFAULT_PMTUD_RETRIES,
            c.max_mtu == DEFAULT_PMTUD_MAX_MTU,
    {
        PmtudProbeConfig {
            target_host: string_of("127.0.0.1"),
            target_port: DEFAULT_PMTUD_PORT,
            probe_timeout_ms: DEFAULT_PMTUD_TIMEOUT_MS,
            retries_per_size: DEFAULT_PMTUD_RETRIES,
            max_mtu: DEFAULT_PMTUD_MAX_MTU,
        }
    }
}

/// Probe parameters as the run uses them: timeout at least 1 ms, ceiling
/// clamped to `[576, 65535]`.
pub fn effective_params(cfg: &PmtudProbeConfig) -> (r: (u64, u32, u32))
    ensures
        r.0 == (if cfg.probe_timeout_ms >= 1 { cfg.probe_timeout_ms } else { 1 }),
        r.1 == cfg.retries_per_size,
        r.2 == (if cfg.max_mtu < 576 { 576 } else if cfg.max_mtu > 65_535 { 65_535 } else { cfg.max_mtu }),
{
    let t = if cfg.probe_timeout_ms >= 1 { cfg.probe_timeout_ms } else { 1 };
    let m = if cfg.max_mtu < 576 { 576 } else if cfg.max_mtu > 65_535 { 65_535 } else { cfg.max_mtu };
    (t, cfg.retries_per_size, m)
}

/// IP + UDP header bytes: 48 for IPv6, 28 for IPv4.
pub open spec fn header_bytes_spec(is_v6: bool) -> u32 {
    if is_v6 { 48 } else { 28 }
}

/// Payload bounds of the search: `(header, floor, ceil)` with the floor at
/// the protocol's minimum MTU (1280 for IPv6, 576 for IPv4) and the ceiling
/// at `max_mtu` minus headers, never below the floor.
pub fn search_bounds(is_v6: bool, max_mtu: u32) -> (r: (u32, u32, u32))
    ensures
        r.0 == header_bytes_spec(is_v6),
        r.1 == (if is_v6 { 1280int } else { 576int }) - header_bytes_spec(is_v6),
        r.2 == (if sat_sub(max_mtu, r.0) >= r.1 { sat_sub(max_mtu, r.0) } else { r.1 }),
        r.1 <= r.2,
{
    let header: u32 = if is_v6 { 48 } else { 28 };
    let floor_mtu: u32 = if is_v6 { 1280 } else { 576 };
    let floor = floor_mtu - header;
    let c = sat_sub_exec(max_mtu, header);
    let ceil = if c >= floor { c } else { floor };
    (header, floor, ceil)
}

/// Largest UDP payload that crosses the path unfragmented.
pub fn max_unfragmented_payload(path_mtu: Option<u32>, header: u32) -> (r: Option<u32>)
    ensures
        r == (match path_mtu {
            Some(m) => Some(sat_sub(m, header)),
            None => None,
        }),
{
    match path_mtu {
        Some(m) => Some(sat_sub_exec(m, header)),
        None => None,
    }
}

// ─────────────────────────────────────────────────────────────────────────────
// Delivery confirmation and per-size decisions
// ─────────────────────────────────────────────────────────────────────────────

/// How delivery got confirmed — feeds the `method` string.
#[derive(Debug, Clone, Copy, PartialEq, Eq, Structural)]
pub enum ConfirmKind {
    UdpEcho,
    PortUnreach,
}

pub open spec fn confirm_label_spec(k: ConfirmKind) -> Seq<char> {
    match k {
        ConfirmKind::UdpEcho => "udp-echo"@,
        ConfirmKind::PortUnreach => "port-unreach"@,
    }
}

impl ConfirmKind {
    /// Label used inside the discovery `method` string.
    pub fn label(self) -> (r: &'static str)
        ensures
            r@ == confirm_label_spec(self),
    {
        match self {
            ConfirmKind::UdpEcho => "udp-echo",
            ConfirmKind::PortUnreach => "port-unreach",
        }
    }
}

/// What the socket reported after one DF probe was sent.
#[derive(Debug, Clone, Copy, PartialEq, Eq, Structural)]
pub enum ProbeFeedback {
    /// An echo datagram came back.
    Echo,
    /// ICMP port-unreachable: the datagram reached the destination.
    PortUnreach,
    /// Fragmentation feedback (next-hop MTU when known; wire evidence or a
    /// local interface constraint).
    TooBig { mtu: Option<u32>, wire_icmp: bool },
    /// Nothing within the wait window.
    Nothing,
}

/// Delivery confirmation learned from the capability probe at floor size.
pub fn capability_confirmation(f: ProbeFeedback) -> (r: Option<ConfirmKind>)
    ensures
        r == (match f {
            ProbeFeedback::Echo => Some(ConfirmKind::UdpEcho),
            ProbeFeedback::PortUnreach => Some(ConfirmKind::PortUnreach),
            _ => None,
        }),
{
    match f {
        ProbeFeedback::Echo => Some(ConfirmKind::UdpEcho),
        ProbeFeedback::PortUnreach => Some(ConfirmKind::PortUnreach),
        _ => None,
    }
}

/// Per-size probing schedule: `(wait_ms, tries)`. Confirmed mode waits the
/// full timeout and retries; unconfirmed mode waits at most the ICMP cap once.
pub fn probe_schedule(confirmed_mode: bool, probe_timeout_ms: u64, retries: u32) -> (r: (u64, u64))
    ensures
        r.0 == (if confirmed_mode {
            probe_timeout_ms
        } else if probe_timeout_ms <= PMTUD_ICMP_WAIT_CAP_MS {
            probe_timeout_ms
        } else {
            PMTUD_ICMP_WAIT_CAP_MS
        }),
        r.1 == (if confirmed_mode { retries + 1 } else { 1 }),
{
    let wait = if confirmed_mode {
        probe_timeout_ms
    } else if probe_timeout_ms <= PMTUD_ICMP_WAIT_CAP_MS {
        probe_timeout_ms
    } else {
        PMTUD_ICMP_WAIT_CAP_MS
    };
    let tries: u64 = if confirmed_mode { retries as u64 + 1 } else { 1 };
    (wait, tries)
}

/// What one try at a size concluded: `Some(class)` settles the size, `None`
/// means "no answer, try again". The delivery confirmation is kept once set
/// and otherwise learned from this answer.
pub fn feedback_decision(f: ProbeFeedback, confirm: Option<ConfirmKind>) -> (r: (
    Option<SizeClass>,
    Option<ConfirmKind>,
))
    ensures
        r.0 == (match f {
            ProbeFeedback::Echo => Some(SizeClass::Fit),
            ProbeFeedback::PortUnreach => Some(SizeClass::Fit),
            ProbeFeedback::TooBig { mtu, wire_icmp } => Some(SizeClass::TooBig { mtu, wire_icmp }),
            ProbeFeedback::Nothing => None,
        }),
        r.1 == (match confirm {
            Some(k) => Some(k),
            None => capability_confirmation_spec(f),
        }),
{
    let learned = capability_confirmation(f);
    let kept = match confirm {
        Some(k) => Some(k),
        None => learned,
    };
    let class = match f {
        ProbeFeedback::Echo => Some(SizeClass::Fit),
        ProbeFeedback::PortUnreach => Some(SizeClass::Fit),
        ProbeFeedback::TooBig { mtu, wire_icmp } => Some(SizeClass::TooBig { mtu, wire_icmp }),
        ProbeFeedback::Nothing => None,
    };
    (class, kept)
}

pub open spec fn capability_confirmation_spec(f: ProbeFeedback) -> Option<ConfirmKind> {
    match f {
        ProbeFeedback::Echo => Some(ConfirmKind::UdpEcho),
        ProbeFeedback::PortUnreach => Some(ConfirmKind::PortUnreach),
        _ => None,
    }
}

/// Classification of a size after every try went unanswered: with delivery
/// confirmations flowing elsewhere, silence at this size means a DF drop.
pub fn exhausted_class(confirmed_mode: bool) -> (c: SizeClass)
    ensures
        c == (if confirmed_mode {
            SizeClass::TooBig { mtu: None, wire_icmp: false }
        } else {
            SizeClass::Silent
        }),
{
    if confirmed_mode {
        SizeClass::TooBig { mtu: None, wire_icmp: false }
    } else {
        SizeClass::Silent
    }
}

/// Origin of an error-queue entry.
#[derive(Debug, Clone, Copy, PartialEq, Eq, Structural)]
pub enum ErrOrigin {
    Icmp,
    Icmp6,
    Local,
}

/// The error number of a locally originated entry.
#[derive(Debug, Clone, Copy, PartialEq, Eq, Structural)]
pub enum LocalErrno {
    ConnRefused,
    MsgSize,
    Other,
}

/// One decoded error-queue entry.
#[derive(Debug, Clone, Copy, PartialEq, Eq, Structural)]
pub enum ErrEntry {
    Frag { mtu: Option<u32>, wire_icmp: bool },
    PortUnreach,
    Other,
}

pub const ICMP_DEST_UNREACH: u8 = 3;
pub const ICMP_FRAG_NEEDED_CODE: u8 = 4;
pub const ICMP_PORT_UNREACH_CODE: u8 = 3;
pub const ICMPV6_DEST_UNREACH: u8 = 1;
pub const ICMPV6_PORT_UNREACH_CODE: u8 = 4;
pub const ICMPV6_PACKET_TOO_BIG: u8 = 2;

pub open spec fn classify_err_spec(origin: ErrOrigin, ee_type: u8, ee_code: u8, errno: LocalErrno, ee_info: u32) -> ErrEntry {
    let mtu = if ee_info > 0 { Some(ee_info) } else { None };
    match origin {
        ErrOrigin::Icmp => if ee_type == ICMP_DEST_UNREACH && ee_code == ICMP_FRAG_NEEDED_CODE {
            ErrEntry::Frag { mtu, wire_icmp: true }
        } else if ee_type == ICMP_DEST_UNREACH && ee_code == ICMP_PORT_UNREACH_CODE {
            ErrEntry::PortUnreach
        } else {
            ErrEntry::Other
        },
        ErrOrigin::Icmp6 => if ee_type == ICMPV6_PACKET_TOO_BIG {
            ErrEntry::Frag { mtu, wire_icmp: true }
        } else if ee_type == ICMPV6_DEST_UNREACH && ee_code == ICMPV6_PORT_UNREACH_CODE {
            ErrEntry::PortUnreach
        } else {
            ErrEntry::Other
        },
        ErrOrigin::Local => match errno {
            LocalErrno::ConnRefused => ErrEntry::PortUnreach,
            LocalErrno::MsgSize => ErrEntry::Frag { mtu, wire_icmp: false },
            LocalErrno::Other => ErrEntry::Other,
        },
    }
}

/// Feedback decoding by the ICMP numbers: for ICMPv4, type 3 code 4
/// (fragmentation needed) is wire size evidence and type 3 code 3 (port
/// unreachable) proves arrival; for ICMPv6, type 2 (packet too big) is wire
/// size evidence and type 1 code 4 (port unreachable) proves arrival;
/// anything else off the wire proves nothing. The next-hop MTU is the
/// reported one when non-zero. Locally, a refusal proves arrival and a
/// message-size error is a bound that is not wire evidence.
pub proof fn law_feedback_decoding_by_type(ee_type: u8, ee_code: u8, errno: LocalErrno, ee_info: u32)
    ensures
        ({
            let mtu = if ee_info > 0 { Some(ee_info) } else { None::<u32> };
            let v4 = classify_err_spec(ErrOrigin::Icmp, ee_type, ee_code, errno, ee_info);
            let v6 = classify_err_spec(ErrOrigin::Icmp6, ee_type, ee_code, errno, ee_info);
            let lo = classify_err_spec(ErrOrigin::Local, ee_type, ee_code, errno, ee_info);
            &&& (v4 == ErrEntry::Frag { mtu, wire_icmp: true }) <==> (ee_type == 3 && ee_code == 4)
            &&& (v4 == ErrEntry::PortUnreach) <==> (ee_type == 3 && ee_code == 3)
            &&& (v4 == ErrEntry::Other) <==> !(ee_type == 3 && (ee_code == 3 || ee_code == 4))
            &&& (v6 == ErrEntry::Frag { mtu, wire_icmp: true }) <==> ee_type == 2
            &&& (v6 == ErrEntry::PortUnreach) <==> (ee_type == 1 && ee_code == 4)
            &&& (v6 == ErrEntry::Other) <==> !(ee_type == 2 || (ee_type == 1 && ee_code == 4))
            &&& (lo == ErrEntry::PortUnreach) <==> errno == LocalErrno::ConnRefused
            &&& (lo == ErrEntry::Frag { mtu, wire_icmp: false }) <==> errno == LocalErrno::MsgSize
            &&& (lo == ErrEntry::Other) <==> errno == LocalErrno::Other
        }),
{
}

/// Decode an extended socket error: wire ICMP frag-needed / packet-too-big
/// is path evidence with the next-hop MTU (`ee_info`, when non-zero); a
/// port-unreachable (or a local connection refusal) proves arrival; a local
/// message-size error is a bound but not wire evidence.
pub fn classify_err(origin: ErrOrigin, ee_type: u8, ee_code: u8, errno: LocalErrno, ee_info: u32) -> (e: ErrEntry)
    ensures
        e == classify_err_spec(origin, ee_type, ee_code, errno, ee_info),
{
    let mtu = if ee_info > 0 { Some(ee_info) } else { None };
    match origin {
        ErrOrigin::Icmp => if ee_type == ICMP_DEST_UNREACH && ee_code == ICMP_FRAG_NEEDED_CODE {
            ErrEntry::Frag { mtu, wire_icmp: true }
        } else if ee_type == ICMP_DEST_UNREACH && ee_code == ICMP_PORT_UNREACH_CODE {
            ErrEntry::PortUnreach
        } else {
            ErrEntry::Other
        },
        ErrOrigin::Icmp6 => if ee_type == ICMPV6_PACKET_TOO_BIG {
            ErrEntry::Frag { mtu, wire_icmp: true }
        } else if ee_type == ICMPV6_DEST_UNREACH && ee_code == ICMPV6_PORT_UNREACH_CODE {
            ErrEntry::PortUnreach
        } else {
            ErrEntry::Other
        },
        ErrOrigin::Local => match errno {
            LocalErrno::ConnRefused => ErrEntry::PortUnreach,
            LocalErrno::MsgSize => ErrEntry::Frag { mtu, wire_icmp: false },
            LocalErrno::Other => ErrEntry::Other,
        },
    }
}

// ─────────────────────────────────────────────────────────────────────────────
// Verdict per evidence class
// ─────────────────────────────────────────────────────────────────────────────

/// The platform mechanism behind the DF probes.
#[derive(Debug, Clone, Copy, PartialEq, Eq, Structural)]
pub enum DfBackend {
    /// `IP_PMTUDISC_DO` + `IP_RECVERR` (error queue with next-hop MTU).
    Recverr,
    /// `IP_DONTFRAG` (EMSGSIZE-based).
    Dontfrag,
    /// Winsock `IP_DONTFRAGMENT` (no wire-ICMP evidence class).
    Dontfragment,
}

/// Conclusion of a discovery run.
#[derive(Debug, Clone, PartialEq, Eq)]
pub struct DiscoverOutcome {
    /// Total IP-layer MTU; None when nothing was measured.
    pub path_mtu: Option<u32>,
    pub probes_sent: u32,
    pub method: String,
    /// Next-hop MTU from an ICMP frag-needed, when the platform exposes it.
    pub icmp_mtu: Option<u32>,
    /// True when the search ceiling fit without ever finding a bound.
    pub lower_bound_only: bool,
}

pub open spec fn method_spec(backend: DfBackend, confirm: Option<ConfirmKind>, wire_icmp_seen: bool) -> Seq<char> {
    match confirm {
        Some(k) => match backend {
            DfBackend::Recverr => "df-"@ + confirm_label_spec(k) + "/ip-recverr"@,
            DfBackend::Dontfrag => "df-dontfrag/"@ + confirm_label_spec(k),
            DfBackend::Dontfragment => "df-dontfragment/"@ + confirm_label_spec(k),
        },
        None => if wire_icmp_seen && backend == DfBackend::Recverr {
            "df-icmp/ip-recverr"@
        } else if wire_icmp_seen && backend == DfBackend::Dontfrag {
            "df-dontfrag/emsgsize"@
        } else {
            "df-no-feedback"@
        },
    }
}

/// Whether the evidence supports a path claim at all: delivery confirmation,
/// or wire ICMP on a platform that can observe it.
pub open spec fn has_path_evidence(backend: DfBackend, confirm: Option<ConfirmKind>, wire_icmp_seen: bool) -> bool {
    confirm is Some || (wire_icmp_seen && backend != DfBackend::Dontfragment)
}

pub open spec fn add_header(fit: Option<u32>, header: u32) -> Option<u32> {
    match fit {
        Some(p) => Some((p + header) as u32),
        None => None,
    }
}

/// Honest verdict per evidence class: with delivery confirmation the search
/// result is the path MTU (a lower bound when the ceiling fit with no bound
/// ever seen); with wire ICMP only it is still a path MTU; with neither there
/// is no path claim.
pub fn discovery_verdict(
    backend: DfBackend,
    confirm: Option<ConfirmKind>,
    outcome: SearchOutcome,
    header: u32,
    ceil: u32,
    probes_sent: u32,
) -> (d: DiscoverOutcome)
    requires
        outcome.largest_fit matches Some(p) ==> p + header <= u32::MAX,
    ensures
        d.path_mtu == (if has_path_evidence(backend, confirm, outcome.wire_icmp_seen) {
            add_header(outcome.largest_fit, header)
        } else {
            None
        }),
        d.method@ == method_spec(backend, confirm, outcome.wire_icmp_seen),
        d.lower_bound_only == (confirm is Some && outcome.largest_fit == Some(ceil)
            && !outcome.bound_found && outcome.confirmed_seen),
        d.icmp_mtu == outcome.icmp_mtu,
        d.probes_sent == probes_sent,
{
    let mtu = match outcome.largest_fit {
        Some(p) => Some(p + header),
        None => None,
    };
    match confirm {
        Some(k) => {
            let lb = match outcome.largest_fit {
                Some(p) => p == ceil,
                None => false,
            } && !outcome.bound_found && outcome.confirmed_seen;
            let mut method = match backend {
                DfBackend::Recverr => string_of("df-"),
                DfBackend::Dontfrag => string_of("df-dontfrag/"),
                DfBackend::Dontfragment => string_of("df-dontfragment/"),
            };
            push_str(&mut method, k.label());
            if backend == DfBackend::Recverr {
                push_str(&mut method, "/ip-recverr");
            }
            DiscoverOutcome {
                path_mtu: mtu,
                probes_sent,
                method,
                icmp_mtu: outcome.icmp_mtu,
                lower_bound_only: lb,
            }
        },
        None => {
            if outcome.wire_icmp_seen && backend == DfBackend::Recverr {
                DiscoverOutcome {
                    path_mtu: mtu,
                    probes_sent,
                    method: string_of("df-icmp/ip-recverr"),
                    icmp_mtu: outcome.icmp_mtu,
                    lower_bound_only: false,
                }
            } else if outcome.wire_icmp_seen && backend == DfBackend::Dontfrag {
                DiscoverOutcome {
                    path_mtu: mtu,
                    probes_sent,
                    method: string_of("df-dontfrag/emsgsize"),
                    icmp_mtu: outcome.icmp_mtu,
                    lower_bound_only: false,
                }
            } else {
                DiscoverOutcome {
                    path_mtu: None,
                    probes_sent,
                    method: string_of("df-no-feedback"),
                    icmp_mtu: outcome.icmp_mtu,
                    lower_bound_only: false,
                }
            }
        },
    }
}

} // verus!
