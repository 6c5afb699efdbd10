//! DNS probe: the CNAME chain of an answer section.

use vstd::prelude::*;
use crate::http::IpAddr;
use crate::text::{ascii_lower_seq, push_str, str_eq, string_of, trim_end_char, trim_end_lower};

verus! {

/// One record of an answer section: its owner name; for a CNAME record,
/// the canonical name it points to; for an A or AAAA record, the address
/// (both None for any other record type). Names are as the resolver renders
/// them, possibly with the trailing root dot.
#[derive(Debug, Clone)]
pub struct AnswerRecord {
    pub owner: String,
    pub cname_target: Option<String>,
    pub address: Option<IpAddr>,
}

/// A name compared and reported without its trailing root dot(s), in ASCII
/// lowercase.
pub open spec fn normalize_name(name: Seq<char>) -> Seq<char> {
    ascii_lower_seq(trim_end_char(name, '.'))
}

/// The (owner, target) links of the CNAME records, normalized, in answer
/// order.
pub open spec fn cname_links(records: Seq<AnswerRecord>) -> Seq<(Seq<char>, Seq<char>)>
    decreases records.len(),
{
    if records.len() == 0 {
        Seq::empty()
    } else {
        let prefix = cname_links(records.drop_last());
        match records.last().cname_target {
            Some(t) => prefix.push((normalize_name(records.last().owner@), normalize_name(t@))),
            None => prefix,
        }
    }
}

/// The target of the first link owned by `name`.
pub open spec fn first_target(links: Seq<(Seq<char>, Seq<char>)>, name: Seq<char>) -> Option<Seq<char>>
    decreases links.len(),
{
    if links.len() == 0 {
        None
    } else if links[0].0 == name {
        Some(links[0].1)
    } else {
        first_target(links.skip(1), name)
    }
}

/// Follows links from `current`, appending each target to `chain`, until
/// `chain` holds as many names as there are links, `current` owns no link, or
/// the next target is already in `chain` (a loop).
pub open spec fn walk(links: Seq<(Seq<char>, Seq<char>)>, current: Seq<char>, chain: Seq<Seq<char>>) -> Seq<Seq<char>>
    decreases links.len() - chain.len(),
{
    if chain.len() >= links.len() {
        chain
    } else {
        match first_target(links, current) {
            None => chain,
            Some(t) => if chain.contains(t) { chain } else { walk(links, t, chain.push(t)) },
        }
    }
}

/// The CNAME chain of `query` in an answer section, in resolution order.
pub open spec fn cname_chain_spec(query: Seq<char>, records: Seq<AnswerRecord>) -> Seq<Seq<char>> {
    walk(cname_links(records), normalize_name(query), Seq::empty())
}

pub open spec fn link_views(v: Seq<(String, String)>) -> Seq<(Seq<char>, Seq<char>)> {
    v.map_values(|p: (String, String)| (p.0@, p.1@))
}

pub open spec fn name_views(v: Seq<String>) -> Seq<Seq<char>> {
    v.map_values(|s: String| s@)
}

fn collect_links(records: &[AnswerRecord]) -> (links: Vec<(String, String)>)
    ensures
        link_views(links@) == cname_links(records@),
{
    let mut links: Vec<(String, String)> = Vec::new();
    let mut i: usize = 0;
    while i < records.len()
        invariant
            i <= records@.len(),
            link_views(links@) == cname_links(records@.take(i as int)),
        decreases records@.len() - i,
    {
        let r = &records[i];
        proof {
            assert(records@.take(i + 1).drop_last() =~= records@.take(i as int));
            assert(records@.take(i + 1).last() == records@[i as int]);
        }
        match &r.cname_target {
            Some(t) => {
                let owner = trim_end_lower(r.owner.as_str(), '.');
                let target = trim_end_lower(t.as_str(), '.');
                links.push((owner, target));
                assert(link_views(links@) =~= cname_links(records@.take(i as int)).push(
                    (normalize_name(r.owner@), normalize_name(t@))));
            },
            None => {},
        }
        i = i + 1;
    }
    assert(records@.take(i as int) =~= records@);
    links
}

fn find_target(links: &Vec<(String, String)>, name: &str) -> (r: Option<String>)
    ensures
        match r {
            Some(t) => first_target(link_views(links@), name@) == Some(t@),
            None => first_target(link_views(links@), name@) is None,
        },
{
    let ghost lv = link_views(links@);
    assert(lv.skip(0) =~= lv);
    let mut i: usize = 0;
    while i < links.len()
        invariant
            i <= links@.len(),
            lv == link_views(links@),
            first_target(lv, name@) == first_target(lv.skip(i as int), name@),
        decreases links@.len() - i,
    {
        if str_eq(links[i].0.as_str(), name) {
            assert(lv.skip(i as int)[0] == lv[i as int]);
            return Some(links[i].1.clone());
        }
        assert(lv.skip(i as int).skip(1) =~= lv.skip(i + 1));
        i = i + 1;
    }
    assert(lv.skip(i as int).len() == 0);
    None
}

fn holds_name(chain: &Vec<String>, name: &str) -> (r: bool)
    ensures
        r == name_views(chain@).contains(name@),
{
    let ghost cv = name_views(chain@);
    let mut i: usize = 0;
    while i < chain.len()
        invariant
            i <= chain@.len(),
            cv == name_views(chain@),
            forall|j: int| 0 <= j < i ==> cv[j] != name@,
        decreases chain@.len() - i,
    {
        if str_eq(chain[i].as_str(), name) {
            assert(cv[i as int] == name@);
            return true;
        }
        i = i + 1;
    }
    false
}

/// Walks the CNAME records of an answer section and returns the chain of
/// targets in resolution order, starting from `query_name`. Names are
/// compared case-insensitively (ASCII) and without the trailing root dot, and
/// reported the same way. The walk takes at most as many steps as there are
/// CNAME records and stops before repeating a name, so a CNAME loop ends.
pub fn extract_cname_chain(query_name: &str, records: &[AnswerRecord]) -> (chain: Vec<String>)
    ensures
        name_views(chain@) == cname_chain_spec(query_name@, records@),
{
    let links = collect_links(records);
    let ghost lv = link_views(links@);
    let mut chain: Vec<String> = Vec::new();
    let mut current = trim_end_lower(query_name, '.');
    assert(name_views(chain@) =~= Seq::<Seq<char>>::empty());
    loop
        invariant
            lv == link_views(links@),
            lv == cname_links(records@),
            walk(lv, normalize_name(query_name@), Seq::empty()) == walk(lv, current@, name_views(chain@)),
        decreases lv.len() - chain@.len(),
    {
        if chain.len() >= links.len() {
            return chain;
        }
        match find_target(&links, current.as_str()) {
            None => {
                return chain;
            },
            Some(t) => {
                if holds_name(&chain, t.as_str()) {
                    return chain;
                }
                let ghost before = name_views(chain@);
                let next = string_of(t.as_str());
                chain.push(t);
                assert(name_views(chain@) =~= before.push(next@));
                current = next;
            },
        }
    }
}

/// The name a chain position was reached from: the query for the first
/// position, the previous name otherwise.
pub open spec fn reached_from(query: Seq<char>, chain: Seq<Seq<char>>, i: int) -> Seq<char> {
    if i == 0 { query } else { chain[i - 1] }
}

/// The name the walk stands at after `chain`.
pub open spec fn last_reached(query: Seq<char>, chain: Seq<Seq<char>>) -> Seq<char> {
    if chain.len() == 0 { query } else { chain.last() }
}

pub open spec fn no_repeats(chain: Seq<Seq<char>>) -> bool {
    forall|i: int, j: int| 0 <= i < j < chain.len() ==> chain[i] != chain[j]
}

pub open spec fn follows_links(links: Seq<(Seq<char>, Seq<char>)>, query: Seq<char>, chain: Seq<Seq<char>>) -> bool {
    forall|i: int| 0 <= i < chain.len() ==> first_target(links, #[trigger] reached_from(query, chain, i)) == Some(chain[i])
}

proof fn lemma_walk(links: Seq<(Seq<char>, Seq<char>)>, query: Seq<char>, chain: Seq<Seq<char>>)
    requires
        chain.len() <= links.len(),
        no_repeats(chain),
        follows_links(links, query, chain),
    ensures
        ({
            let r = walk(links, last_reached(query, chain), chain);
            &&& r.len() <= links.len()
            &&& no_repeats(r)
            &&& follows_links(links, query, r)
            &&& (r.len() < links.len() ==> match first_target(links, last_reached(query, r)) {
                None => true,
                Some(t) => r.contains(t),
            })
        }),
    decreases links.len() - chain.len(),
{
    let cur = last_reached(query, chain);
    if chain.len() >= links.len() {
    } else {
        match first_target(links, cur) {
            None => {},
            Some(t) => {
                if !chain.contains(t) {
                    let next = chain.push(t);
                    assert(no_repeats(next)) by {
                        assert forall|i: int, j: int| 0 <= i < j < next.len() implies next[i] != next[j] by {
                            if j == chain.len() {
                                assert(chain[i] == next[i]);
                            }
                        }
                    }
                    assert(follows_links(links, query, next)) by {
                        assert forall|i: int| 0 <= i < next.len() implies
                            first_target(links, #[trigger] reached_from(query, next, i)) == Some(next[i]) by {
                            if i < chain.len() {
                                assert(reached_from(query, next, i) == reached_from(query, chain, i));
                            } else {
                                assert(reached_from(query, next, i) == cur);
                            }
                        }
                    }
                    assert(last_reached(query, next) == t);
                    lemma_walk(links, query, next);
                }
            },
        }
    }
}

/// The chain is bounded by the CNAME records: it has at most as many names
/// as the answer has CNAME records.
pub proof fn law_cname_chain_bounded(query: Seq<char>, records: Seq<AnswerRecord>)
    ensures
        cname_chain_spec(query, records).len() <= cname_links(records).len(),
{
    lemma_walk(cname_links(records), normalize_name(query), Seq::empty());
}

/// No name appears twice in a chain, so a CNAME loop is reported once
/// around and no further.
pub proof fn law_cname_chain_no_repeats(query: Seq<char>, records: Seq<AnswerRecord>)
    ensures
        no_repeats(cname_chain_spec(query, records)),
{
    lemma_walk(cname_links(records), normalize_name(query), Seq::empty());
}

/// The chain follows the links: its first name is the target of the query's
/// CNAME record, each further name the target of the previous name's (the
/// first such record in answer order).
pub proof fn law_cname_chain_follows_links(query: Seq<char>, records: Seq<AnswerRecord>)
    ensures
        follows_links(cname_links(records), normalize_name(query), cname_chain_spec(query, records)),
{
    lemma_walk(cname_links(records), normalize_name(query), Seq::empty());
}

/// The walk stops early only where the links end: unless the chain is as
/// long as there are CNAME records, the last name reached owns no CNAME
/// record, or its target is already in the chain.
pub proof fn law_cname_chain_stops_at_end_or_loop(query: Seq<char>, records: Seq<AnswerRecord>)
    ensures
        ({
            let r = cname_chain_spec(query, records);
            r.len() < cname_links(records).len() ==> match first_target(cname_links(records), last_reached(normalize_name(query), r)) {
                None => true,
                Some(t) => r.contains(t),
            }
        }),
{
    lemma_walk(cname_links(records), normalize_name(query), Seq::empty());
}

// ─────────────────────────────────────────────────────────────────────────────
// Combining the typed lookups
// ─────────────────────────────────────────────────────────────────────────────

/// Which typed lookups a detailed resolution performs: A unless only IPv6 is
/// wanted, AAAA unless only IPv4 is.
pub fn planned_lookups(ipv4_only: bool, ipv6_only: bool) -> (r: (bool, bool))
    ensures
        r == (!ipv6_only, !ipv4_only),
{
    (!ipv6_only, !ipv4_only)
}

/// An address of the family a typed lookup asked for (AAAA: IPv6, A: IPv4).
pub open spec fn of_family(r: AnswerRecord, aaaa: bool) -> bool {
    match r.address {
        Some(ip) => if aaaa { ip is V6 } else { ip is V4 },
        None => false,
    }
}

/// The addresses of the asked family in an answer section, in order.
pub open spec fn answer_addresses(records: Seq<AnswerRecord>, aaaa: bool) -> Seq<IpAddr>
    decreases records.len(),
{
    if records.len() == 0 {
        Seq::empty()
    } else {
        let prev = answer_addresses(records.drop_last(), aaaa);
        if of_family(records.last(), aaaa) { prev.push(records.last().address->0) } else { prev }
    }
}

proof fn lemma_answer_addresses_len(records: Seq<AnswerRecord>, aaaa: bool)
    ensures
        answer_addresses(records, aaaa).len() <= records.len(),
    decreases records.len(),
{
    if records.len() > 0 {
        lemma_answer_addresses_len(records.drop_last(), aaaa);
    }
}

/// The outcome of one typed (A or AAAA) lookup.
#[derive(Debug, Clone)]
pub struct TypedLookup {
    pub ips: Vec<IpAddr>,
    pub record_count: u32,
    pub cname_chain: Vec<String>,
    pub error: Option<String>,
}

/// The addresses and CNAME chain of a detailed resolution.
#[derive(Debug, Clone)]
pub struct CombinedLookup {
    pub ips: Vec<IpAddr>,
    pub cname_chain: Vec<String>,
}

/// A failed resolution (always a DNS-phase failure).
#[derive(Debug, Clone)]
pub struct DnsFailure {
    pub message: String,
    pub detail: Option<String>,
}

/// A successful typed lookup from its answer section: the addresses of the
/// asked family (counted as its records) and the query's CNAME chain.
pub fn typed_lookup_from_answers(hostname: &str, aaaa: bool, answers: &[AnswerRecord]) -> (l: TypedLookup)
    requires
        answers@.len() <= u32::MAX,
    ensures
        l.ips@ == answer_addresses(answers@, aaaa),
        l.record_count == answer_addresses(answers@, aaaa).len(),
        name_views(l.cname_chain@) == cname_chain_spec(hostname@, answers@),
        l.error is None,
{
    let mut ips: Vec<IpAddr> = Vec::new();
    let mut count: u32 = 0;
    let mut i: usize = 0;
    while i < answers.len()
        invariant
            i <= answers@.len(),
            answers@.len() <= u32::MAX,
            ips@ == answer_addresses(answers@.take(i as int), aaaa),
            count == ips@.len(),
        decreases answers@.len() - i,
    {
        proof {
            assert(answers@.take(i + 1).drop_last() =~= answers@.take(i as int));
            assert(answers@.take(i + 1).last() == answers@[i as int]);
            lemma_answer_addresses_len(answers@.take(i as int), aaaa);
        }
        match answers[i].address {
            Some(ip) => {
                let wanted = match ip {
                    IpAddr::V4(_) => !aaaa,
                    IpAddr::V6(_) => aaaa,
                };
                if wanted {
                    ips.push(ip);
                    count = count + 1;
                }
            },
            None => {},
        }
        i = i + 1;
    }
    assert(answers@.take(i as int) =~= answers@);
    let cname_chain = extract_cname_chain(hostname, answers);
    TypedLookup { ips, record_count: count, cname_chain, error: None }
}

/// The addresses a resolution keeps: IPv4 only, IPv6 only (when IPv4 only is
/// not asked), or all, in resolver order.
pub open spec fn family_filter_spec(ips: Seq<IpAddr>, ipv4_only: bool, ipv6_only: bool) -> Seq<IpAddr> {
    if ipv4_only {
        ips.filter(|ip: IpAddr| ip is V4)
    } else if ipv6_only {
        ips.filter(|ip: IpAddr| ip is V6)
    } else {
        ips
    }
}

/// Keeps the addresses of the wanted family (see `family_filter_spec`).
pub fn filter_family(ips: &Vec<IpAddr>, ipv4_only: bool, ipv6_only: bool) -> (r: Vec<IpAddr>)
    ensures
        r@ == family_filter_spec(ips@, ipv4_only, ipv6_only),
{
    if !ipv4_only && !ipv6_only {
        return ips.clone();
    }
    let mut r: Vec<IpAddr> = Vec::new();
    let mut i: usize = 0;
    while i < ips.len()
        invariant
            i <= ips@.len(),
            ipv4_only || ipv6_only,
            r@ == family_filter_spec(ips@.take(i as int), ipv4_only, ipv6_only),
        decreases ips@.len() - i,
    {
        proof {
            reveal_with_fuel(Seq::filter, 1);
            assert(ips@.take(i + 1).drop_last() =~= ips@.take(i as int));
        }
        let ip = ips[i];
        let keep = match ip {
            IpAddr::V4(_) => ipv4_only,
            IpAddr::V6(_) => !ipv4_only,
        };
        if keep {
            r.push(ip);
        }
        i = i + 1;
    }
    assert(ips@.take(i as int) =~= ips@);
    r
}

/// The failure text when no address is left.
pub open spec fn no_ips_text(hostname: Seq<char>, ipv4_only: bool, ipv6_only: bool) -> Seq<char> {
    "No IPs resolved for "@ + hostname + " (filter: ipv4_only="@ + bool_text(ipv4_only)
        + ", ipv6_only="@ + bool_text(ipv6_only) + ")"@
}

fn no_ips_message(hostname: &str, ipv4_only: bool, ipv6_only: bool) -> (m: String)
    ensures
        m@ == no_ips_text(hostname@, ipv4_only, ipv6_only),
{
    let mut m = string_of("No IPs resolved for ");
    push_str(&mut m, hostname);
    push_str(&mut m, " (filter: ipv4_only=");
    push_str(&mut m, if ipv4_only { "true" } else { "false" });
    push_str(&mut m, ", ipv6_only=");
    push_str(&mut m, if ipv6_only { "true" } else { "false" });
    push_str(&mut m, ")");
    m
}

/// The addresses of a plain resolution after the family filter, or the
/// failure when none is left.
pub fn resolved_addresses(hostname: &str, ips: &Vec<IpAddr>, ipv4_only: bool, ipv6_only: bool) -> (r: Result<Vec<IpAddr>, DnsFailure>)
    ensures
        family_filter_spec(ips@, ipv4_only, ipv6_only).len() > 0 ==> (r matches Ok(v)
            && v@ == family_filter_spec(ips@, ipv4_only, ipv6_only)),
        family_filter_spec(ips@, ipv4_only, ipv6_only).len() == 0 ==> (r matches Err(f)
            && f.message@ == no_ips_text(hostname@, ipv4_only, ipv6_only) && f.detail is None),
{
    let kept = filter_family(ips, ipv4_only, ipv6_only);
    if kept.len() == 0 {
        return Err(DnsFailure { message: no_ips_message(hostname, ipv4_only, ipv6_only), detail: None });
    }
    Ok(kept)
}

/// A lookup that was not performed, or that errored.
pub open spec fn lookup_failed(l: Option<TypedLookup>) -> bool {
    match l {
        Some(x) => x.error is Some,
        None => true,
    }
}

/// The error texts of the performed lookups, A first.
pub open spec fn lookup_errors(a: Option<TypedLookup>, aaaa: Option<TypedLookup>) -> Seq<Seq<char>> {
    let ea = match a {
        Some(x) => match x.error {
            Some(e) => seq![e@],
            None => Seq::empty(),
        },
        None => Seq::empty(),
    };
    let eb = match aaaa {
        Some(x) => match x.error {
            Some(e) => seq![e@],
            None => Seq::empty(),
        },
        None => Seq::empty(),
    };
    ea + eb
}

/// `parts` joined with `sep`.
pub open spec fn join_spec(parts: Seq<Seq<char>>, sep: Seq<char>) -> Seq<char>
    decreases parts.len(),
{
    if parts.len() == 0 {
        Seq::empty()
    } else if parts.len() == 1 {
        parts[0]
    } else {
        join_spec(parts.drop_last(), sep) + sep + parts.last()
    }
}

pub open spec fn bool_text(b: bool) -> Seq<char> {
    if b { "true"@ } else { "false"@ }
}

pub open spec fn lookup_ips(l: Option<TypedLookup>) -> Seq<IpAddr> {
    match l {
        Some(x) => x.ips@,
        None => Seq::empty(),
    }
}

pub open spec fn lookup_chain(l: Option<TypedLookup>) -> Seq<Seq<char>> {
    match l {
        Some(x) => name_views(x.cname_chain@),
        None => Seq::empty(),
    }
}

/// The result of a detailed resolution from its typed lookups: a failure
/// naming every lookup's error when all performed lookups errored (a missing
/// AAAA answer is no failure), a failure when no address came back, and
/// otherwise the A then AAAA addresses with the A answer's CNAME chain (the
/// AAAA answer's when the A answer has none).
pub fn combine_lookups(
    hostname: &str,
    ipv4_only: bool,
    ipv6_only: bool,
    a: Option<TypedLookup>,
    aaaa: Option<TypedLookup>,
) -> (r: Result<CombinedLookup, DnsFailure>)
    ensures
        lookup_failed(a) && lookup_failed(aaaa) ==> (r matches Err(f)
            && f.message@ == join_spec(lookup_errors(a, aaaa), "; "@)
            && (f.detail matches Some(d) && d@ == "A/AAAA lookups for "@ + hostname@ + " failed"@)),
        !(lookup_failed(a) && lookup_failed(aaaa)) && (lookup_ips(a) + lookup_ips(aaaa)).len() == 0 ==> (r matches Err(f)
            && f.message@ == no_ips_text(hostname@, ipv4_only, ipv6_only)
            && f.detail is None),
        !(lookup_failed(a) && lookup_failed(aaaa)) && (lookup_ips(a) + lookup_ips(aaaa)).len() > 0 ==> (r matches Ok(c)
            && c.ips@ == lookup_ips(a) + lookup_ips(aaaa)
            && name_views(c.cname_chain@) == (if lookup_chain(a).len() > 0 { lookup_chain(a) } else { lookup_chain(aaaa) })),
{
    let failed_a = match &a {
        Some(x) => x.error.is_some(),
        None => true,
    };
    let failed_b = match &aaaa {
        Some(x) => x.error.is_some(),
        None => true,
    };
    if failed_a && failed_b {
        let mut message = String::new();
        let mut first = true;
        let ghost mut parts: Seq<Seq<char>> = Seq::empty();
        match &a {
            Some(x) => match &x.error {
                Some(e) => {
                    push_str(&mut message, e.as_str());
                    first = false;
                    proof { parts = seq![e@]; }
                },
                None => {},
            },
            None => {},
        }
        assert(message@ == join_spec(parts, "; "@));
        assert(first == (parts.len() == 0));
        match &aaaa {
            Some(x) => match &x.error {
                Some(e) => {
                    if !first {
                        push_str(&mut message, "; ");
                    }
                    push_str(&mut message, e.as_str());
                    proof {
                        assert(parts.push(e@).drop_last() =~= parts);
                        parts = parts.push(e@);
                    }
                },
                None => {},
            },
            None => {},
        }
        assert(parts =~= lookup_errors(a, aaaa));
        let mut detail = string_of("A/AAAA lookups for ");
        push_str(&mut detail, hostname);
        push_str(&mut detail, " failed");
        return Err(DnsFailure { message, detail: Some(detail) });
    }
    let mut ips: Vec<IpAddr> = Vec::new();
    let mut a_chain: Vec<String> = Vec::new();
    let mut b_chain: Vec<String> = Vec::new();
    match a {
        Some(x) => {
            let mut v = x.ips;
            ips.append(&mut v);
            a_chain = x.cname_chain;
        },
        None => {},
    }
    match aaaa {
        Some(x) => {
            let mut v = x.ips;
            ips.append(&mut v);
            b_chain = x.cname_chain;
        },
        None => {},
    }
    proof {
        if a_chain@.len() == 0 {
            assert(name_views(a_chain@) =~= Seq::<Seq<char>>::empty());
        }
        if b_chain@.len() == 0 {
            assert(name_views(b_chain@) =~= Seq::<Seq<char>>::empty());
        }
    }
    if ips.len() == 0 {
        return Err(DnsFailure { message: no_ips_message(hostname, ipv4_only, ipv6_only), detail: None });
    }
    let cname_chain = if a_chain.len() > 0 { a_chain } else { b_chain };
    Ok(CombinedLookup { ips, cname_chain })
}

} // verus!
