use networker_tester::browser::{
    browser_asset_bytes, browser_page_query, build_browser_http1_url, build_browser_http3_url,
    build_page_url, plain_http_port, truncate_url,
};

fn base(text: &str) -> String {
    url::Url::parse(text).unwrap().to_string()
}

#[test]
fn build_page_url_with_assets() {
    let base = base("https://host:8443/health");
    let url = build_page_url(&base, &[10240, 10240, 10240]);
    assert!(url.contains("/browser-page"), "should rewrite to /browser-page");
    assert!(url.contains("assets=3"), "should include assets count");
    assert!(url.contains("bytes=10240"), "should include asset size as bytes=");
}

#[test]
fn build_page_url_no_assets() {
    let base = base("http://localhost:8080/health");
    let url = build_page_url(&base, &[]);
    assert!(url.contains("/browser-page"), "should rewrite to /browser-page");
    assert!(!url.contains("assets="), "should not add empty query");
}

#[test]
fn build_page_url_preserves_scheme_and_host() {
    let base = base("https://myhost.example.com:9443/some/path");
    let url = build_page_url(&base, &[1024]);
    assert!(url.starts_with("https://myhost.example.com:9443/browser-page"), "url={url}");
}

#[test]
fn build_page_url_http_scheme_preserved() {
    let base = base("http://127.0.0.1:8080/health");
    let url = build_page_url(&base, &[512, 512]);
    assert!(url.starts_with("http://127.0.0.1:8080/browser-page"), "url={url}");
    assert!(url.contains("assets=2"));
    assert!(url.contains("bytes=512"));
}

#[test]
fn build_browser_http3_url_rewrites_host_to_localhost() {
    let base = base("https://172.16.32.106:8443/health");
    let url = build_browser_http3_url(&base, &[]);
    assert!(url.starts_with("https://localhost:8443/browser-page"), "url={url}");
}

#[test]
fn build_browser_http3_url_keeps_https_and_port() {
    let base = base("https://192.168.1.1:9443/some/path");
    let url = build_browser_http3_url(&base, &[]);
    assert!(url.starts_with("https://localhost:9443/browser-page"), "url={url}");
}

#[test]
fn build_browser_http3_url_includes_asset_params() {
    let base = base("https://10.0.0.1:8443/health");
    let url = build_browser_http3_url(&base, &[8192, 8192]);
    assert!(url.contains("assets=2"), "url={url}");
    assert!(url.contains("bytes=8192"), "url={url}");
}

#[test]
fn build_browser_http3_url_no_query_when_no_assets() {
    let base = base("https://10.0.0.1:8443/health");
    let url = build_browser_http3_url(&base, &[]);
    assert!(!url.contains("assets="), "url={url}");
    assert!(!url.contains("bytes="), "url={url}");
}

#[test]
fn build_browser_http1_url_switches_to_http_and_maps_8443() {
    let base = base("https://host:8443/health");
    let url = build_browser_http1_url(&base, &[]);
    assert!(url.starts_with("http://host:8080/browser-page"), "url={url}");
}

#[test]
fn build_browser_http1_url_standard_https_port_omits_port() {
    let base = base("https://example.com/health");
    let url = build_browser_http1_url(&base, &[]);
    assert!(url.starts_with("http://example.com/browser-page"), "url={url}");
    assert!(!url.contains(":80"), "default port should not appear: {url}");
}

#[test]
fn build_browser_http1_url_nginx_8444_maps_to_8081() {
    let base = base("https://host:8444/health");
    let url = build_browser_http1_url(&base, &[]);
    assert!(url.starts_with("http://host:8081/browser-page"), "url={url}");
}

#[test]
fn build_browser_http1_url_iis_8445_maps_to_8082() {
    let base = base("https://host:8445/health");
    let url = build_browser_http1_url(&base, &[]);
    assert!(url.starts_with("http://host:8082/browser-page"), "url={url}");
}

#[test]
fn build_browser_http1_url_non_standard_port_preserved() {
    let base = base("https://host:9443/health");
    let url = build_browser_http1_url(&base, &[]);
    assert!(url.starts_with("http://host:9443/browser-page"), "url={url}");
}

#[test]
fn build_browser_http1_url_includes_asset_params() {
    let base = base("https://host:8443/health");
    let url = build_browser_http1_url(&base, &[4096, 4096, 4096]);
    assert!(url.contains("assets=3"), "url={url}");
    assert!(url.contains("bytes=4096"), "url={url}");
}

#[test]
fn browser_asset_bytes_uniform() {
    assert_eq!(browser_asset_bytes(&[10_240, 10_240, 10_240]), 10_240);
}

#[test]
fn browser_asset_bytes_varied_uses_average() {
    let sizes = vec![1_024, 5_120, 51_200, 153_600];
    let avg = browser_asset_bytes(&sizes);
    let total_original: usize = sizes.iter().sum();
    let total_avg = avg * sizes.len();
    assert!(
        (total_original as i64 - total_avg as i64).unsigned_abs() < sizes.len() as u64,
        "avg={avg}, total_original={total_original}, total_avg={total_avg}"
    );
}

#[test]
fn browser_asset_bytes_empty() {
    assert_eq!(browser_asset_bytes(&[]), 0);
}

#[test]
fn truncate_url_short_unchanged() {
    assert_eq!(truncate_url("https://a/b"), "https://a/b");
}

#[test]
fn truncate_url_long_gets_ellipsis_on_char_boundary() {
    let long: String = "https://example.com/".chars().chain("é".chars().cycle().take(400)).collect();
    let t = truncate_url(&long);
    assert_eq!(t.chars().count(), 160);
    assert!(t.ends_with('…'));
}

#[test]
fn build_page_url_varied_sizes_uses_average() {
    let base = base("https://host:8443/health");
    let sizes = vec![1_024, 5_120, 51_200, 153_600];
    let url = build_page_url(&base, &sizes);
    assert!(url.contains("assets=4"), "url={url}");
    let avg = (1_024 + 5_120 + 51_200 + 153_600) / 4;
    assert!(url.contains(&format!("bytes={avg}")), "expected bytes={avg}, url={url}");
}

#[test]
fn asset_bytes_rounds_down_and_keeps_weight_within_one_asset() {
    let sizes = [1usize, 2, 2];
    let avg = browser_asset_bytes(&sizes);
    assert_eq!(avg, 1);
    let total: usize = sizes.iter().sum();
    assert!(avg * sizes.len() <= total && total < avg * sizes.len() + sizes.len());
}

#[test]
fn page_query_exact_text() {
    assert_eq!(browser_page_query(&[100, 200, 301]), Some("assets=3&bytes=200".to_string()));
    assert_eq!(browser_page_query(&[]), None);
}

#[test]
fn page_url_exact_text() {
    assert_eq!(
        build_page_url("https://host:8443/health?x=1", &[10, 20]),
        "https://host:8443/browser-page?assets=2&bytes=15"
    );
    assert_eq!(build_page_url("http://h/", &[]), "http://h/browser-page");
}

#[test]
fn plain_http_port_pairs() {
    assert_eq!(plain_http_port(Some(8443)), Some(8080));
    assert_eq!(plain_http_port(Some(8444)), Some(8081));
    assert_eq!(plain_http_port(Some(8445)), Some(8082));
    assert_eq!(plain_http_port(Some(443)), None);
    assert_eq!(plain_http_port(None), None);
    assert_eq!(plain_http_port(Some(9443)), Some(9443));
}

#[test]
fn browser_urls_exact_text() {
    assert_eq!(
        build_browser_http1_url("https://host:8443/health", &[4096]),
        "http://host:8080/browser-page?assets=1&bytes=4096"
    );
    assert_eq!(
        build_browser_http3_url("https://10.0.0.1:8443/health", &[]),
        "https://localhost:8443/browser-page"
    );
}

#[test]
fn truncate_url_boundary_lengths() {
    let exact: String = "a".repeat(160);
    assert_eq!(truncate_url(&exact), exact);
    let over: String = "b".repeat(161);
    let t = truncate_url(&over);
    assert_eq!(t.chars().count(), 160);
    assert_eq!(t, format!("{}…", "b".repeat(159)));
}
