use networker_tester::native::{native_backend_name, split_pem_certificates, TargetOs};

#[test]
fn backend_names() {
    assert_eq!(native_backend_name(TargetOs::Windows), "native/schannel");
    assert_eq!(native_backend_name(TargetOs::MacOs), "native/secure-transport");
    assert_eq!(native_backend_name(TargetOs::Other), "native/openssl");
}

#[test]
fn pem_bundle_splits_into_closed_blocks() {
    let bundle = "-----BEGIN CERTIFICATE-----\nAAA\n-----END CERTIFICATE-----\r\n\
                  -----BEGIN CERTIFICATE-----\nBBB\n-----END CERTIFICATE-----\n\
                  -----BEGIN CERTIFICATE-----\nCCC";
    let blocks = split_pem_certificates(bundle);
    assert_eq!(
        blocks,
        vec![
            "-----BEGIN CERTIFICATE-----\nAAA\n-----END CERTIFICATE-----\n".to_string(),
            "-----BEGIN CERTIFICATE-----\nBBB\n-----END CERTIFICATE-----\n".to_string(),
        ]
    );
    assert!(split_pem_certificates("no certificates here\n").is_empty());
}
