use networker_tester::load_gen::{
    connect_port, host_header, load_target, LoadDirection, UploadChunks, UPLOAD_CHUNK_BYTES,
};

#[test]
fn host_header_includes_port_when_present() {
    let with_port = url::Url::parse("http://example.com:8080/").unwrap();
    assert_eq!(host_header(with_port.as_str()), "example.com:8080");
    let no_port = url::Url::parse("https://example.com/").unwrap();
    assert_eq!(host_header(no_port.as_str()), "example.com");
}

#[test]
fn counted_upload_body_reports_exact_size_hint() {
    let body = UploadChunks::new(1_000_000);
    assert_eq!(body.size_hint(), 1_000_000);
}

#[test]
fn host_header_falls_back_to_localhost() {
    assert_eq!(host_header("unix:/run/foo.socket"), "localhost");
    assert_eq!(host_header("https://example.com:443/"), "example.com");
}

#[test]
fn upload_chunks_add_up_to_total() {
    let mut body = UploadChunks::new(2 * UPLOAD_CHUNK_BYTES + 10);
    let mut seen = Vec::new();
    while let Some(n) = body.next_chunk() {
        seen.push(n);
    }
    assert_eq!(seen, vec![UPLOAD_CHUNK_BYTES, UPLOAD_CHUNK_BYTES, 10]);
    assert_eq!(body.size_hint(), 0);
    assert_eq!(body.next_chunk(), None);
    let mut empty = UploadChunks::new(0);
    assert_eq!(empty.next_chunk(), None);
}

#[test]
fn load_targets() {
    assert_eq!(load_target(LoadDirection::Download, 33_554_432), "/download?bytes=33554432");
    assert_eq!(load_target(LoadDirection::Upload, 5), "/upload");
}

#[test]
fn connect_port_defaults_by_scheme() {
    assert_eq!(connect_port("https://h/"), 443);
    assert_eq!(connect_port("http://h/"), 80);
    assert_eq!(connect_port("https://h:8443/"), 8443);
}
