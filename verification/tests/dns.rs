use networker_tester::dns::{extract_cname_chain, AnswerRecord};
use networker_tester::http::IpAddr;

fn cname_rec(owner: &str, target: &str) -> AnswerRecord {
    AnswerRecord { owner: owner.to_string(), cname_target: Some(target.to_string()), address: None }
}

fn a_rec(owner: &str) -> AnswerRecord {
    // 192.0.2.1
    AnswerRecord { owner: owner.to_string(), cname_target: None, address: Some(IpAddr::V4(0xC000_0201)) }
}

#[test]
fn cname_chain_walks_in_order() {
    let records = vec![
        cname_rec("cdn.example.net.", "edge.host.example."),
        a_rec("edge.host.example."),
        cname_rec("www.example.com.", "cdn.example.net."),
    ];
    let chain = extract_cname_chain("www.example.com", &records);
    assert_eq!(chain, vec!["cdn.example.net", "edge.host.example"]);
}

#[test]
fn cname_chain_empty_when_no_cnames() {
    let records = vec![a_rec("example.com.")];
    assert!(extract_cname_chain("example.com", &records).is_empty());
}

#[test]
fn cname_chain_is_case_insensitive_and_ignores_root_dot() {
    let records = vec![cname_rec("WWW.Example.COM.", "CDN.Example.NET.")];
    let chain = extract_cname_chain("www.example.com", &records);
    assert_eq!(chain, vec!["cdn.example.net"]);
}

#[test]
fn cname_chain_loop_terminates() {
    let records = vec![cname_rec("a.example.", "b.example."), cname_rec("b.example.", "a.example.")];
    let chain = extract_cname_chain("a.example", &records);
    assert_eq!(chain, vec!["b.example", "a.example"]);
}

#[test]
fn cname_chain_ignores_unrelated_cnames() {
    let records = vec![cname_rec("other.example.", "target.example.")];
    assert!(extract_cname_chain("www.example.com", &records).is_empty());
}

#[test]
fn cname_chain_first_record_wins_and_self_loop_stops() {
    let records = vec![
        cname_rec("q.example.", "first.example."),
        cname_rec("q.example.", "second.example."),
        cname_rec("first.example.", "first.example."),
    ];
    let chain = extract_cname_chain("Q.EXAMPLE.", &records);
    assert_eq!(chain, vec!["first.example"]);
}

#[test]
fn cname_chain_never_longer_than_the_cname_records() {
    let records = vec![cname_rec("a.", "b."), cname_rec("b.", "c."), cname_rec("c.", "d.")];
    let chain = extract_cname_chain("a", &records);
    assert_eq!(chain, vec!["b", "c", "d"]);
    assert!(chain.len() <= 3);
}

use networker_tester::dns::{
    combine_lookups, filter_family, planned_lookups, resolved_addresses, typed_lookup_from_answers, TypedLookup,
};

fn lookup(ips: Vec<IpAddr>, chain: &[&str], error: Option<&str>) -> TypedLookup {
    TypedLookup {
        record_count: ips.len() as u32,
        ips,
        cname_chain: chain.iter().map(|s| s.to_string()).collect(),
        error: error.map(String::from),
    }
}

#[test]
fn lookups_follow_the_family_filter() {
    assert_eq!(planned_lookups(false, false), (true, true));
    assert_eq!(planned_lookups(true, false), (true, false));
    assert_eq!(planned_lookups(false, true), (false, true));
}

#[test]
fn combined_lookup_keeps_a_then_aaaa_and_prefers_a_chain() {
    let a = lookup(vec![IpAddr::V4(1)], &[], None);
    let aaaa = lookup(vec![IpAddr::V6(2)], &["cdn.example"], None);
    let c = combine_lookups("h", false, false, Some(a), Some(aaaa)).unwrap();
    assert_eq!(c.ips, vec![IpAddr::V4(1), IpAddr::V6(2)]);
    assert_eq!(c.cname_chain, vec!["cdn.example"]);
    let a = lookup(vec![IpAddr::V4(1)], &["a.example"], None);
    let aaaa = lookup(vec![], &[], Some("NODATA"));
    let c = combine_lookups("h", false, false, Some(a), Some(aaaa)).unwrap();
    assert_eq!(c.cname_chain, vec!["a.example"]);
}

#[test]
fn combined_lookup_failures() {
    let a = lookup(vec![], &[], Some("timeout"));
    let aaaa = lookup(vec![], &[], Some("refused"));
    let f = combine_lookups("h.example", false, false, Some(a), Some(aaaa)).unwrap_err();
    assert_eq!(f.message, "timeout; refused");
    assert_eq!(f.detail.as_deref(), Some("A/AAAA lookups for h.example failed"));
    let a = lookup(vec![], &[], None);
    let f = combine_lookups("h.example", true, false, Some(a), None).unwrap_err();
    assert_eq!(f.message, "No IPs resolved for h.example (filter: ipv4_only=true, ipv6_only=false)");
    assert!(f.detail.is_none());
    let f = combine_lookups("h", true, true, None, None).unwrap_err();
    assert_eq!(f.message, "");
}

#[test]
fn typed_lookup_counts_records_of_its_family() {
    let records = vec![
        cname_rec("www.example.com.", "cdn.example.net."),
        a_rec("cdn.example.net."),
        AnswerRecord { owner: "cdn.example.net.".into(), cname_target: None, address: Some(IpAddr::V6(1)) },
        a_rec("cdn.example.net."),
    ];
    let l = typed_lookup_from_answers("www.example.com", false, &records);
    assert_eq!(l.ips, vec![IpAddr::V4(0xC000_0201), IpAddr::V4(0xC000_0201)]);
    assert_eq!(l.record_count, 2);
    assert_eq!(l.cname_chain, vec!["cdn.example.net"]);
    let l6 = typed_lookup_from_answers("www.example.com", true, &records);
    assert_eq!(l6.ips, vec![IpAddr::V6(1)]);
    assert_eq!(l6.record_count, 1);
}

#[test]
fn family_filter_and_empty_result() {
    let ips = vec![IpAddr::V6(1), IpAddr::V4(2), IpAddr::V6(3)];
    assert_eq!(filter_family(&ips, true, false), vec![IpAddr::V4(2)]);
    assert_eq!(filter_family(&ips, false, true), vec![IpAddr::V6(1), IpAddr::V6(3)]);
    assert_eq!(filter_family(&ips, true, true), vec![IpAddr::V4(2)]);
    assert_eq!(filter_family(&ips, false, false), ips);
    let f = resolved_addresses("v6only.example", &vec![IpAddr::V6(1)], true, false).unwrap_err();
    assert_eq!(f.message, "No IPs resolved for v6only.example (filter: ipv4_only=true, ipv6_only=false)");
}
