use networker_tester::pageload::{multiplexed_target, MultiplexedLoad};
use networker_tester::pageload::{build_asset_urls, resolve_preset, rewrite_to_http};

fn total(sizes: &[usize]) -> usize {
    sizes.iter().sum()
}

#[test]
fn resolve_preset_default() {
    let sizes = resolve_preset("default").unwrap();
    assert_eq!(sizes.len(), 50);
    let total = total(&sizes);
    assert!(total > 5_000_000 && total < 7_000_000, "default total={total}");
}

#[test]
fn resolve_preset_tiny() {
    let sizes = resolve_preset("tiny").unwrap();
    assert_eq!(sizes.len(), 10);
    let total = total(&sizes);
    assert!(total > 80_000 && total < 120_000, "tiny total={total}");
}

#[test]
fn resolve_preset_small() {
    let sizes = resolve_preset("small").unwrap();
    assert_eq!(sizes.len(), 25);
    let total = total(&sizes);
    assert!(total > 800_000 && total < 1_000_000, "small total={total}");
}

#[test]
fn resolve_preset_medium() {
    let sizes = resolve_preset("medium").unwrap();
    assert_eq!(sizes.len(), 100);
    let total = total(&sizes);
    assert!(total > 9_000_000 && total < 12_000_000, "medium total={total}");
}

#[test]
fn resolve_preset_large() {
    let sizes = resolve_preset("large").unwrap();
    assert_eq!(sizes.len(), 200);
    let total = total(&sizes);
    assert!(total > 28_000_000 && total < 35_000_000, "large total={total}");
}

#[test]
fn resolve_preset_mixed_has_50_assets() {
    let sizes = resolve_preset("mixed").unwrap();
    assert_eq!(sizes.len(), 50);
}

#[test]
fn resolve_preset_mixed_total_size() {
    let sizes = resolve_preset("mixed").unwrap();
    let total = total(&sizes);
    assert!(total > 5_500_000 && total < 8_000_000, "mixed total={total}");
}

#[test]
fn resolve_preset_case_insensitive() {
    assert!(resolve_preset("TINY").is_ok());
    assert!(resolve_preset("Default").is_ok());
    assert!(resolve_preset("MIXED").is_ok());
}

#[test]
fn resolve_preset_unknown_returns_err() {
    let err = resolve_preset("bogus").unwrap_err();
    assert!(err.to_string().contains("bogus"), "error should name the bad preset");
}

#[test]
fn resolve_preset_unknown_lists_valid_names() {
    let err = resolve_preset("oops").unwrap_err();
    let msg = err.to_string();
    for name in &["tiny", "small", "default", "medium", "large", "mixed"] {
        assert!(msg.contains(name), "error should list '{name}' as valid");
    }
}

#[test]
fn resolve_preset_exact_sizes_and_message() {
    assert_eq!(
        resolve_preset("Tiny").unwrap(),
        vec![2_048, 2_048, 2_048, 2_048, 10_240, 10_240, 10_240, 20_480, 20_480, 20_480]
    );
    assert_eq!(
        resolve_preset("HUGE").unwrap_err().to_string(),
        "Unknown preset 'huge'. Valid: tiny, small, default, medium, large, mixed"
    );
}

fn parsed(text: &str) -> url::Url {
    url::Url::parse(text).unwrap()
}

#[test]
fn rewrite_to_http_8443_becomes_8080() {
    let url = parsed("https://10.0.0.1:8443/health");
    let r = parsed(&rewrite_to_http(url.as_str()));
    assert_eq!(r.scheme(), "http");
    assert_eq!(r.port(), Some(8080));
    assert_eq!(r.path(), "/health");
}

#[test]
fn rewrite_to_http_8444_becomes_8081() {
    let url = parsed("https://10.0.0.1:8444/health");
    let r = parsed(&rewrite_to_http(url.as_str()));
    assert_eq!(r.scheme(), "http");
    assert_eq!(r.port(), Some(8081));
}

#[test]
fn rewrite_to_http_8445_becomes_8082() {
    let url = parsed("https://10.0.0.1:8445/health");
    let r = parsed(&rewrite_to_http(url.as_str()));
    assert_eq!(r.scheme(), "http");
    assert_eq!(r.port(), Some(8082));
}

#[test]
fn rewrite_to_http_443_becomes_default_80() {
    let url = parsed("https://example.com/health");
    let r = parsed(&rewrite_to_http(url.as_str()));
    assert_eq!(r.scheme(), "http");
    assert_eq!(r.port(), None);
}

#[test]
fn rewrite_to_http_noop_for_http_url() {
    let url = parsed("http://10.0.0.1:8080/health");
    let r = rewrite_to_http(url.as_str());
    assert_eq!(r.as_str(), url.as_str());
}

#[test]
fn rewrite_to_http_custom_port_kept() {
    let url = parsed("https://10.0.0.1:9999/health");
    let r = parsed(&rewrite_to_http(url.as_str()));
    assert_eq!(r.scheme(), "http");
    assert_eq!(r.port(), Some(9999));
}

#[test]
fn build_asset_urls_per_size() {
    let base = parsed("http://localhost:8080/");
    let sizes = vec![1024usize, 2048, 4096];
    let urls: Vec<url::Url> = build_asset_urls(base.as_str(), &sizes).iter().map(|u| parsed(u)).collect();
    assert_eq!(urls.len(), 3);
    assert!(urls[0].query().unwrap().contains("bytes=1024"));
    assert!(urls[1].query().unwrap().contains("bytes=2048"));
    assert!(urls[2].query().unwrap().contains("bytes=4096"));
}

#[test]
fn build_asset_urls_empty_returns_empty() {
    let base = parsed("http://localhost:8080/health");
    let urls = build_asset_urls(base.as_str(), &[]);
    assert!(urls.is_empty());
}

#[test]
fn build_asset_urls_single_asset() {
    let base = parsed("http://localhost:8080/");
    let urls: Vec<url::Url> = build_asset_urls(base.as_str(), &[512]).iter().map(|u| parsed(u)).collect();
    assert_eq!(urls.len(), 1);
    assert_eq!(urls[0].path(), "/asset");
    let q = urls[0].query().unwrap();
    assert!(q.contains("id=0"));
    assert!(q.contains("bytes=512"));
}

#[test]
fn build_asset_urls_path_is_always_asset() {
    let base = parsed("http://localhost:8080/health");
    let urls: Vec<url::Url> = build_asset_urls(base.as_str(), &[100, 200]).iter().map(|u| parsed(u)).collect();
    assert!(urls.iter().all(|u| u.path() == "/asset"));
}

#[test]
fn build_asset_urls_ids_are_sequential() {
    let base = parsed("http://localhost:8080/");
    let urls: Vec<url::Url> = build_asset_urls(base.as_str(), &[1, 2, 3]).iter().map(|u| parsed(u)).collect();
    for (i, url) in urls.iter().enumerate() {
        assert!(url.query().unwrap().contains(&format!("id={i}")));
    }
}

#[test]
fn asset_urls_exact_text() {
    assert_eq!(
        build_asset_urls("https://h:8443/health?x=1", &[7, 9]),
        vec!["https://h:8443/asset?id=0&bytes=7".to_string(), "https://h:8443/asset?id=1&bytes=9".to_string()]
    );
}

#[test]
fn rewrite_to_http_exact_text() {
    assert_eq!(rewrite_to_http("https://10.0.0.1:8443/health"), "http://10.0.0.1:8080/health");
    assert_eq!(rewrite_to_http("https://example.com:443/x"), "http://example.com/x");
    assert_eq!(rewrite_to_http("ftp://example.com/x"), "ftp://example.com/x");
    assert_eq!(rewrite_to_http("not a url"), "not a url");
}

use networker_tester::pageload::{
    assign_round_robin, manifest_path, multiplexed_pageload_success, pageload_success, tally_fetches,
    tally_indexed_fetches, AssetFetch,
};

#[test]
fn manifest_path_names_count_and_first_size() {
    assert_eq!(manifest_path(&[512, 1024]), "/page?assets=2&bytes=512");
    assert_eq!(manifest_path(&[]), "/page?assets=0&bytes=10240");
}

#[test]
fn assets_are_dealt_round_robin_to_at_most_six_connections() {
    assert_eq!(assign_round_robin(0), vec![Vec::<usize>::new()]);
    assert_eq!(assign_round_robin(3), vec![vec![0], vec![1], vec![2]]);
    let a = assign_round_robin(14);
    assert_eq!(a.len(), 6);
    assert_eq!(a[0], vec![0, 6, 12]);
    assert_eq!(a[1], vec![1, 7, 13]);
    assert_eq!(a[5], vec![5, 11]);
    let mut all: Vec<usize> = a.concat();
    all.sort();
    assert_eq!(all, (0..14).collect::<Vec<_>>());
}

#[test]
fn multiplexed_tally_counts_responses_below_500() {
    let results = vec![
        Some(AssetFetch { status: 200, bytes: 100, elapsed: 1.5 }),
        None,
        Some(AssetFetch { status: 503, bytes: 10, elapsed: 2.0 }),
        Some(AssetFetch { status: 404, bytes: 7, elapsed: 3.0 }),
    ];
    let t = tally_fetches(&results);
    assert_eq!(t.fetched, 2);
    assert_eq!(t.total_bytes, 107);
    assert_eq!(t.timings, vec![1.5, 3.0]);
    assert!(!multiplexed_pageload_success(4, t.fetched));
    assert!(multiplexed_pageload_success(0, 0));
}

#[test]
fn keepalive_tally_places_times_by_asset() {
    let results = vec![
        (2usize, Some(AssetFetch { status: 200, bytes: 5, elapsed: 9u64 })),
        (0, Some(AssetFetch { status: 500, bytes: 5, elapsed: 8 })),
        (1, None),
        (0, Some(AssetFetch { status: 200, bytes: 1, elapsed: 7 })),
        (9, Some(AssetFetch { status: 200, bytes: 1, elapsed: 6 })),
    ];
    let t = tally_indexed_fetches(3, &results, 0u64);
    assert_eq!(t.fetched, 3);
    assert_eq!(t.total_bytes, 7);
    assert_eq!(t.timings, vec![7, 0, 9]);
    assert!(!pageload_success(3, 2));
    assert!(pageload_success(3, 3));
    assert!(!pageload_success(0, 0));
}

#[test]
fn preset_name_and_its_lowercase_resolve_alike() {
    for name in ["TiNy", "LARGE", "Mixed", "nope"] {
        let a = resolve_preset(name);
        let b = resolve_preset(&name.to_lowercase());
        match (a, b) {
            (Ok(x), Ok(y)) => assert_eq!(x, y),
            (Err(x), Err(y)) => assert_eq!(x.message, y.message),
            _ => panic!("{name} and its lowercase resolve differently"),
        }
    }
}

#[test]
fn multiplexed_target_needs_host_and_https() {
    assert_eq!(
        multiplexed_target("https://example.com/", MultiplexedLoad::H2, false),
        Ok(("example.com".to_string(), 443))
    );
    assert_eq!(
        multiplexed_target("https://example.com:8443/x", MultiplexedLoad::H3, false),
        Ok(("example.com".to_string(), 8443))
    );
    assert_eq!(
        multiplexed_target("http://example.com/", MultiplexedLoad::H2, false),
        Err("pageload2 requires an HTTPS target (HTTP/2 needs TLS+ALPN)".to_string())
    );
    assert_eq!(
        multiplexed_target("http://example.com/", MultiplexedLoad::H3, true),
        Err("pageload3 requires HTTPS".to_string())
    );
    assert_eq!(
        multiplexed_target("mailto:someone@example.com", MultiplexedLoad::H2, true),
        Err("Target URL has no host".to_string())
    );
}
