use networker_tester::cert::{compute_spki_sha256_base64, parse_cert_entry, parse_cert_fields, spki_pin};

#[test]
fn compute_spki_sha256_base64_rejects_invalid_der() {
    let result = compute_spki_sha256_base64(&[0u8; 32]);
    assert!(result.is_none(), "invalid DER should return None");
}

#[test]
fn spki_pin_is_base64_of_sha256() {
    assert_eq!(spki_pin(b""), "47DEQpj8HBSa+/TImW+5JCeuQeRkm5NMpJWZG3hSuFU=");
    assert_eq!(spki_pin(b"abc"), "ungWv48Bz+pBQUDeXa4iI7ADYaOWF3qctBD/YfIAFa0=");
}

#[test]
fn non_certificates_have_no_fields() {
    assert!(parse_cert_fields(b"hello").is_none());
    assert!(parse_cert_entry(&[]).is_none());
}
