//! IPv4-vs-IPv6 comparison: legs, the honest absent leg, and the RFC 8305
//! happy-eyeballs verdict. Durations are whole microseconds.

use vstd::prelude::*;
use crate::text::{ms_one_decimal, push_ms_one_decimal, push_str, string_of};

verus! {

/// RFC 8305 §5 recommended connection-attempt delay, in microseconds.
pub const HAPPY_EYEBALLS_GRACE_US: u64 = 250_000;

/// One address family's request.
#[derive(Debug, Clone)]
pub struct DualStackLeg {
    /// False when the family had no records (nothing was tried).
    pub attempted: bool,
    pub success: bool,
    pub addr: Option<String>,
    pub dns_us: Option<u64>,
    pub tcp_us: Option<u64>,
    pub tls_us: Option<u64>,
    pub ttfb_us: Option<u64>,
    /// Only for completed requests.
    pub total_us: Option<u64>,
    pub error: Option<String>,
}

/// A family that was not attempted: no datapoint, just the reason.
pub fn absent_leg(reason: &str) -> (l: DualStackLeg)
    ensures
        !l.attempted,
        !l.success,
        l.addr is None,
        l.dns_us is None,
        l.tcp_us is None,
        l.tls_us is None,
        l.ttfb_us is None,
        l.total_us is None,
        l.error matches Some(e) && e@ == reason@,
{
    DualStackLeg {
        attempted: false,
        success: false,
        addr: None,
        dns_us: None,
        tcp_us: None,
        tls_us: None,
        ttfb_us: None,
        total_us: None,
        error: Some(string_of(reason)),
    }
}

/// The connect time the race is decided on: TCP connect, else the total,
/// else "never".
pub open spec fn race_time(l: DualStackLeg) -> u64 {
    match l.tcp_us {
        Some(t) => t,
        None => match l.total_us {
            Some(t) => t,
            None => u64::MAX,
        },
    }
}

pub open spec fn verdict_spec(ipv4: DualStackLeg, ipv6: DualStackLeg) -> Seq<char> {
    if !ipv4.success && !ipv6.success {
        "none (both families failed)"@
    } else if ipv4.success && !ipv6.success {
        if ipv6.attempted {
            "ipv4 (ipv6 attempted but failed)"@
        } else {
            "ipv4 (only family with records)"@
        }
    } else if !ipv4.success && ipv6.success {
        if ipv4.attempted {
            "ipv6 (ipv4 attempted but failed)"@
        } else {
            "ipv6 (only family with records)"@
        }
    } else {
        let v4 = race_time(ipv4);
        let v6 = race_time(ipv6);
        if v6 <= v4 + HAPPY_EYEBALLS_GRACE_US {
            "ipv6 (connect "@ + ms_one_decimal(v6 as nat) + "ms within 250ms grace of ipv4's "@
                + ms_one_decimal(v4 as nat) + "ms)"@
        } else {
            "ipv4 (ipv6 connect "@ + ms_one_decimal(v6 as nat) + "ms exceeds ipv4's "@
                + ms_one_decimal(v4 as nat) + "ms by more than the 250ms grace)"@
        }
    }
}

fn race_time_exec(l: &DualStackLeg) -> (t: u64)
    ensures
        t == race_time(*l),
{
    match l.tcp_us {
        Some(t) => t,
        None => match l.total_us {
            Some(t) => t,
            None => u64::MAX,
        },
    }
}

/// RFC 8305 connection race: IPv6 starts first, IPv4 after the grace period;
/// IPv6 wins unless its connect is more than the grace slower than IPv4's
/// (or it failed outright).
pub fn happy_eyeballs_verdict(ipv4: &DualStackLeg, ipv6: &DualStackLeg) -> (r: String)
    ensures
        r@ == verdict_spec(*ipv4, *ipv6),
{
    if !ipv4.success && !ipv6.success {
        string_of("none (both families failed)")
    } else if ipv4.success && !ipv6.success {
        if ipv6.attempted {
            string_of("ipv4 (ipv6 attempted but failed)")
        } else {
            string_of("ipv4 (only family with records)")
        }
    } else if !ipv4.success && ipv6.success {
        if ipv4.attempted {
            string_of("ipv6 (ipv4 attempted but failed)")
        } else {
            string_of("ipv6 (only family with records)")
        }
    } else {
        let v4 = race_time_exec(ipv4);
        let v6 = race_time_exec(ipv6);
        let ipv6_wins = (v6 as u128) <= (v4 as u128) + (HAPPY_EYEBALLS_GRACE_US as u128);
        if ipv6_wins {
            let mut s = string_of("ipv6 (connect ");
            push_ms_one_decimal(&mut s, v6);
            push_str(&mut s, "ms within 250ms grace of ipv4's ");
            push_ms_one_decimal(&mut s, v4);
            push_str(&mut s, "ms)");
            s
        } else {
            let mut s = string_of("ipv4 (ipv6 connect ");
            push_ms_one_decimal(&mut s, v6);
            push_str(&mut s, "ms exceeds ipv4's ");
            push_ms_one_decimal(&mut s, v4);
            push_str(&mut s, "ms by more than the 250ms grace)");
            s
        }
    }
}

/// The family whose verdict string names the winner.
pub open spec fn verdict_winner(ipv4: DualStackLeg, ipv6: DualStackLeg) -> Option<bool> {
    if !ipv4.success && !ipv6.success {
        None
    } else if ipv4.success && !ipv6.success {
        Some(false)
    } else if !ipv4.success && ipv6.success {
        Some(true)
    } else {
        Some(race_time(ipv6) <= race_time(ipv4) + HAPPY_EYEBALLS_GRACE_US)
    }
}

/// Race law: a failed family never wins; when both succeed, IPv6 wins
/// exactly when its connect is within the grace period of IPv4's, so IPv6 at
/// most as slow as IPv4 always wins and IPv4 wins only by more than the grace.
pub proof fn law_happy_eyeballs_race(ipv4: DualStackLeg, ipv6: DualStackLeg)
    ensures
        verdict_winner(ipv4, ipv6) == Some(true) ==> ipv6.success,
        verdict_winner(ipv4, ipv6) == Some(false) ==> ipv4.success,
        verdict_winner(ipv4, ipv6) is None <==> (!ipv4.success && !ipv6.success),
        ipv4.success && ipv6.success && race_time(ipv6) <= race_time(ipv4) ==> verdict_winner(ipv4, ipv6) == Some(true),
        ipv4.success && ipv6.success && verdict_winner(ipv4, ipv6) == Some(false) ==> race_time(ipv6) > race_time(ipv4) + HAPPY_EYEBALLS_GRACE_US,
{
}

/// The verdict text opens with the winning family: with both families up,
/// `ipv6` exactly when IPv6's connect time is at most IPv4's plus the 250 ms
/// grace (so whenever IPv6 connected no later than IPv4), `ipv4` otherwise;
/// with one family up, that family; with none, `none`.
pub proof fn law_verdict_text_names_winner(ipv4: DualStackLeg, ipv6: DualStackLeg)
    ensures
        (ipv4.success && ipv6.success && race_time(ipv6) <= race_time(ipv4) + 250_000)
            ==> verdict_spec(ipv4, ipv6).take(4) == "ipv6"@,
        (ipv4.success && ipv6.success && race_time(ipv6) > race_time(ipv4) + 250_000)
            ==> verdict_spec(ipv4, ipv6).take(4) == "ipv4"@,
        (ipv4.success && ipv6.success && ipv4.tcp_us is Some && ipv6.tcp_us is Some
            && ipv6.tcp_us->0 <= ipv4.tcp_us->0)
            ==> verdict_spec(ipv4, ipv6).take(4) == "ipv6"@,
        (ipv4.success && !ipv6.success) ==> verdict_spec(ipv4, ipv6).take(4) == "ipv4"@,
        (!ipv4.success && ipv6.success) ==> verdict_spec(ipv4, ipv6).take(4) == "ipv6"@,
        (!ipv4.success && !ipv6.success) ==> verdict_spec(ipv4, ipv6).take(4) == "none"@,
        (verdict_winner(ipv4, ipv6) == Some(true)) <==> verdict_spec(ipv4, ipv6).take(4) == "ipv6"@,
        (verdict_winner(ipv4, ipv6) == Some(false)) <==> verdict_spec(ipv4, ipv6).take(4) == "ipv4"@,
{
    reveal_strlit("ipv6");
    reveal_strlit("ipv4");
    reveal_strlit("none");
    reveal_strlit("none (both families failed)");
    reveal_strlit("ipv4 (ipv6 attempted but failed)");
    reveal_strlit("ipv4 (only family with records)");
    reveal_strlit("ipv6 (ipv4 attempted but failed)");
    reveal_strlit("ipv6 (only family with records)");
    reveal_strlit("ipv6 (connect ");
    reveal_strlit("ipv4 (ipv6 connect ");
    let v4 = race_time(ipv4);
    let v6 = race_time(ipv6);
    let t = verdict_spec(ipv4, ipv6);
    if ipv4.success && ipv6.success {
        if v6 <= v4 + HAPPY_EYEBALLS_GRACE_US {
            let a = "ipv6 (connect "@;
            assert(t == a + (ms_one_decimal(v6 as nat) + "ms within 250ms grace of ipv4's "@
                + ms_one_decimal(v4 as nat) + "ms)"@));
            assert(t.take(4) =~= a.take(4));
        } else {
            let a = "ipv4 (ipv6 connect "@;
            assert(t == a + (ms_one_decimal(v6 as nat) + "ms exceeds ipv4's "@
                + ms_one_decimal(v4 as nat) + "ms by more than the 250ms grace)"@));
            assert(t.take(4) =~= a.take(4));
        }
    } else if ipv4.success {
        if ipv6.attempted {
            assert(t.take(4) =~= "ipv4"@);
        } else {
            assert(t.take(4) =~= "ipv4"@);
        }
    } else if ipv6.success {
        assert(t.take(4) =~= "ipv6"@);
    } else {
        assert(t.take(4) =~= "none"@);
    }
    assert("ipv4"@ != "ipv6"@) by {
        assert("ipv4"@[3] != "ipv6"@[3]);
    }
}

/// The faster family by total time and the absolute difference, when both
/// legs completed.
pub fn compare_totals(ipv4: &DualStackLeg, ipv6: &DualStackLeg) -> (r: (Option<String>, Option<u64>))
    ensures
        (ipv4.total_us is Some && ipv6.total_us is Some) ==> ({
            let v4 = ipv4.total_us->0;
            let v6 = ipv6.total_us->0;
            &&& r.0 matches Some(f) && f@ == (if v4 <= v6 { "ipv4"@ } else { "ipv6"@ })
            &&& r.1 == Some((if v4 >= v6 { v4 - v6 } else { v6 - v4 }) as u64)
        }),
        !(ipv4.total_us is Some && ipv6.total_us is Some) ==> r.0 is None && r.1 is None,
{
    match (ipv4.total_us, ipv6.total_us) {
        (Some(v4), Some(v6)) => {
            let faster = if v4 <= v6 { string_of("ipv4") } else { string_of("ipv6") };
            let delta = if v4 >= v6 { v4 - v6 } else { v6 - v4 };
            (Some(faster), Some(delta))
        },
        _ => (None, None),
    }
}

/// The probe succeeds when either family worked; otherwise the error names
/// both families' failures ("not attempted" for an absent reason).
pub fn both_failed_message(ipv4: &DualStackLeg, ipv6: &DualStackLeg) -> (r: Option<String>)
    ensures
        (ipv4.success || ipv6.success) <==> r is None,
        r matches Some(m) ==> m@ == "Both address families failed — ipv4: "@
            + (match ipv4.error { Some(e) => e@, None => "not attempted"@ }) + "; ipv6: "@
            + (match ipv6.error { Some(e) => e@, None => "not attempted"@ }),
{
    if ipv4.success || ipv6.success {
        return None;
    }
    let mut m = string_of("Both address families failed — ipv4: ");
    match &ipv4.error {
        Some(e) => push_str(&mut m, e.as_str()),
        None => push_str(&mut m, "not attempted"),
    }
    push_str(&mut m, "; ipv6: ");
    match &ipv6.error {
        Some(e) => push_str(&mut m, e.as_str()),
        None => push_str(&mut m, "not attempted"),
    }
    Some(m)
}

} // verus!
