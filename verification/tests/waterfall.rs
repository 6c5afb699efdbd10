use networker_tester::waterfall::{rank_protocols, NetworkDrain, ResponseEvent};

fn response(url: &str, status: i64, protocol: Option<&str>, mime: &str, cl: Option<&str>) -> ResponseEvent<u8> {
    ResponseEvent {
        url: url.to_string(),
        status,
        protocol: protocol.map(String::from),
        mime_type: mime.to_string(),
        content_length: cl.map(String::from),
        from_disk_cache: false,
        from_service_worker: false,
        timing: Some(7),
    }
}

#[test]
fn events_in_any_order_land_on_one_row_per_request() {
    let mut d: NetworkDrain<f64, u8> = NetworkDrain::new();
    // Response before its request (streams interleave arbitrarily).
    assert!(d.room_for_response(Some("100")));
    d.on_response("1", response("https://h/resp", 200, Some("H2"), "text/html; charset=utf-8", Some("100")));
    d.on_request("1", "https://h/", "GET", 10.0);
    d.on_request("2", "https://h/a.png", "", 10.5);
    d.on_response("2", response("https://h/a.png", 404, None, "", Some("x")));
    assert!(d.room_for_data("2", 500));
    d.on_data("2", 500);
    d.on_data("2", -3);
    d.on_finished("2", 200, 11.0);
    d.on_finished("3", 0, 12.0);
    assert!(d.wire_total_fits());
    let r = d.finish(10);
    assert_eq!(r.rows.len(), 3);
    assert!(!r.truncated);
    assert_eq!(r.rows[0].url, "https://h/");
    assert_eq!(r.rows[0].mime_type.as_deref(), Some("text/html"));
    assert_eq!(r.rows[0].protocol.as_deref(), Some("h2"));
    assert_eq!(r.rows[0].status, Some(200));
    assert_eq!(r.rows[0].start_ts, Some(10.0));
    assert_eq!(r.rows[1].method, "GET");
    assert_eq!(r.rows[1].wire_bytes(), Some(500));
    assert_eq!(r.rows[1].protocol.as_deref(), Some("unknown"));
    assert_eq!(r.rows[2].wire_bytes(), Some(0));
    assert_eq!(r.rows[0].wire_bytes(), None);
    assert_eq!(r.resource_count, 2);
    assert_eq!(r.transferred_bytes, 100);
    assert_eq!(r.protocol, "h2");
    assert_eq!(r.wire_bytes_total, Some(500));
    assert_eq!(r.nav_origin_ts, Some(10.0));
}

#[test]
fn waterfall_is_capped_and_flags_truncation() {
    let mut d: NetworkDrain<u64, u8> = NetworkDrain::new();
    for i in 0..5u64 {
        d.on_request(&i.to_string(), "https://h/x", "GET", i);
    }
    let r = d.finish(3);
    assert_eq!(r.rows.len(), 3);
    assert!(r.truncated);
    assert_eq!(r.rows[2].id, "2");
    assert_eq!(r.wire_bytes_total, None);
    assert_eq!(r.protocol, "unknown");
}

#[test]
fn protocols_rank_by_count_then_name() {
    let counts = vec![("h2".to_string(), 2), ("http/1.1".to_string(), 5), ("h3".to_string(), 2), ("data".to_string(), 1)];
    let ranked = rank_protocols(counts);
    let names: Vec<&str> = ranked.iter().map(|(n, _)| n.as_str()).collect();
    assert_eq!(names, vec!["http/1.1", "h2", "h3", "data"]);
}

#[test]
fn long_urls_are_truncated_in_rows() {
    let mut d: NetworkDrain<u8, u8> = NetworkDrain::new();
    let long = format!("https://h/{}", "a".repeat(300));
    d.on_request("1", &long, "POST", 0);
    let r = d.finish(1);
    assert_eq!(r.rows[0].url.chars().count(), 160);
    assert_eq!(r.rows[0].method, "POST");
}
