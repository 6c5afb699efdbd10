use networker_tester::http::{
    build_request, effective_proxy, families_present, is_no_proxy, pick_ip, select_proxy, IpAddr, ProxyEnv, RunConfig,
};

fn no_env() -> ProxyEnv {
    ProxyEnv { no_proxy: None, https_proxy: None, http_proxy: None, all_proxy: None }
}

#[test]
fn no_proxy_bypasses_env_vars() {
    let cfg = RunConfig { no_proxy: true, ..Default::default() };
    let env = ProxyEnv {
        no_proxy: None,
        https_proxy: Some("http://proxy:3128".into()),
        http_proxy: Some("http://proxy:3128".into()),
        all_proxy: Some("http://proxy:3128".into()),
    };
    assert!(effective_proxy("http", "example.com", &cfg, &env).is_none());
}

#[test]
fn effective_proxy_is_a_parsed_url() {
    let env = ProxyEnv { http_proxy: Some("http://proxy:3128".into()), ..no_env() };
    let cfg = RunConfig::default();
    assert_eq!(effective_proxy("http", "example.com", &cfg, &env).as_deref(), Some("http://proxy:3128/"));
    let bad = RunConfig { proxy: Some("not a url".into()), ..Default::default() };
    assert_eq!(effective_proxy("http", "example.com", &bad, &env), None);
}

#[test]
fn is_no_proxy_exact_match() {
    assert!(is_no_proxy("example.com", "example.com,foo.com"));
}

#[test]
fn is_no_proxy_suffix_match() {
    assert!(is_no_proxy("sub.example.com", "example.com"));
}

#[test]
fn is_no_proxy_no_match() {
    assert!(!is_no_proxy("other.com", "example.com"));
}

#[test]
fn is_no_proxy_wildcard() {
    assert!(is_no_proxy("anything.com", "*"));
}

#[test]
fn pick_ip_prefers_v4() {
    let ips = vec![IpAddr::V6(1), IpAddr::V4(0x7F00_0001)];
    let ip = pick_ip(&ips, true);
    assert!(ip.is_ipv4());
}

#[test]
fn pick_ip_first_when_not_ipv4_only() {
    let ips = vec![IpAddr::V4(0xC0A8_0101), IpAddr::V6(1)];
    assert_eq!(pick_ip(&ips, false), ips[0]);
}

#[test]
fn pick_ip_prefers_ipv4_when_ipv4_only() {
    let ips = vec![IpAddr::V6(1), IpAddr::V4(0x0A00_0001)];
    let picked = pick_ip(&ips, true);
    assert!(picked.is_ipv4());
    assert_eq!(picked, IpAddr::V4(0x0A00_0001));
}

#[test]
fn pick_ip_falls_back_to_first_when_no_ipv4() {
    let ips = vec![IpAddr::V6(1), IpAddr::V6(2)];
    assert_eq!(pick_ip(&ips, true), ips[0]);
}

#[test]
fn no_proxy_entries_are_trimmed_and_case_insensitive() {
    assert!(is_no_proxy("API.Example.COM", " foo.com , example.com "));
    assert!(!is_no_proxy("notexample.com", "example.com"));
    assert!(!is_no_proxy("example.com", ""));
}

#[test]
fn proxy_priority_explicit_then_scheme_then_all() {
    let env = ProxyEnv {
        no_proxy: Some("internal.corp".into()),
        https_proxy: Some("http://tls-proxy:1".into()),
        http_proxy: Some("http://plain-proxy:2".into()),
        all_proxy: Some("socks5://all:3".into()),
    };
    let explicit = RunConfig { proxy: Some("http://mine:9".into()), ..Default::default() };
    assert_eq!(select_proxy("https", "a.com", &explicit, &env).as_deref(), Some("http://mine:9"));
    let cfg = RunConfig::default();
    assert_eq!(select_proxy("https", "a.com", &cfg, &env).as_deref(), Some("http://tls-proxy:1"));
    assert_eq!(select_proxy("http", "a.com", &cfg, &env).as_deref(), Some("http://plain-proxy:2"));
    assert_eq!(select_proxy("http", "x.internal.corp", &cfg, &env), None);
    let only_all = ProxyEnv { all_proxy: Some("socks5://all:3".into()), ..no_env() };
    assert_eq!(select_proxy("https", "a.com", &cfg, &only_all).as_deref(), Some("socks5://all:3"));
    assert_eq!(select_proxy("https", "a.com", &cfg, &no_env()), None);
}

#[test]
fn run_config_defaults() {
    let c = RunConfig::default();
    assert_eq!(c.timeout_ms, 30_000);
    assert!(c.dns_enabled);
    assert_eq!(c.path, "/");
    assert_eq!(c.payload_size, 0);
    assert!(c.proxy.is_none() && !c.no_proxy);
}

#[test]
fn request_is_get_without_payload_and_post_with() {
    let cfg = RunConfig::default();
    let r = build_request("example.com:8443", "/health", &cfg, "id-1");
    assert_eq!(r.method, "GET");
    assert_eq!(r.path, "/health");
    assert_eq!(r.body_len, 0);
    assert_eq!(
        r.headers,
        vec![
            ("host".to_string(), "example.com:8443".to_string()),
            ("user-agent".to_string(), "networker-tester/0.1".to_string()),
            ("accept".to_string(), "*/*".to_string()),
            ("x-networker-request-id".to_string(), "id-1".to_string()),
        ]
    );
    let post = RunConfig { payload_size: 1024, ..Default::default() };
    let r = build_request("h", "/upload", &post, "id-2");
    assert_eq!(r.method, "POST");
    assert_eq!(r.body_len, 1024);
}

#[test]
fn families_present_reports_each_family() {
    assert_eq!(families_present(&[IpAddr::V4(1), IpAddr::V6(2)]), (true, true));
    assert_eq!(families_present(&[IpAddr::V6(2)]), (false, true));
    assert_eq!(families_present(&[]), (false, false));
}

use networker_tester::http::{http_version_for, plan_route, HttpVersion};
use networker_tester::metrics::Protocol;

#[test]
fn direct_route_uses_origin_form() {
    let r = plan_route("http://example.com:8080/a/b?x=1", None).unwrap();
    assert_eq!(r.host, "example.com");
    assert_eq!(r.port, 8080);
    assert_eq!((r.connect_host.as_str(), r.connect_port), ("example.com", 8080));
    assert!(!r.tunnel);
    assert_eq!(r.request_uri, "/a/b?x=1");
    let r = plan_route("https://example.com", None).unwrap();
    assert_eq!(r.port, 443);
    assert_eq!(r.request_uri, "/");
}

#[test]
fn proxied_routes_tunnel_https_and_use_absolute_form_for_http() {
    let r = plan_route("https://example.com/", Some("http://proxy:8000/")).unwrap();
    assert_eq!((r.connect_host.as_str(), r.connect_port), ("proxy", 8000));
    assert!(r.tunnel);
    assert_eq!(r.request_uri, "/");
    let r = plan_route("http://example.com/p", Some("http://proxy/")).unwrap();
    assert_eq!((r.connect_host.as_str(), r.connect_port), ("proxy", 3128));
    assert!(!r.tunnel);
    assert_eq!(r.request_uri, "http://example.com:80/p");
    let r = plan_route("http://example.com/p", Some("https://proxy/")).unwrap();
    assert_eq!(r.connect_port, 443);
}

#[test]
fn route_needs_a_host() {
    assert!(plan_route("unix:/run/x", None).is_none());
}

#[test]
fn http_versions_per_protocol() {
    assert_eq!(http_version_for(Protocol::Http1), Some(HttpVersion::Http1));
    assert_eq!(http_version_for(Protocol::WebUpload), Some(HttpVersion::Http1));
    assert_eq!(http_version_for(Protocol::Http2), Some(HttpVersion::Http2));
    assert_eq!(http_version_for(Protocol::Tcp), None);
}
