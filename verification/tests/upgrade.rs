use gateway_proxy::upgrade::{accept_key, upgrade_decision, UpgradeResponse};

#[test]
fn accept_key_of_rfc_example() {
    // RFC 6455, section 1.3.
    assert_eq!(accept_key(b"dGhlIHNhbXBsZSBub25jZQ=="), "s3pPLMBiTxaQ9kYGzzhZRbK+xOo=");
}

#[test]
fn upgrade_is_accepted_with_key() {
    let d = upgrade_decision(Some("v=10&compress=zlib-stream"), Some("websocket"), Some(b"dGhlIHNhbXBsZSBub25jZQ=="));
    assert!(d.use_zlib);
    match d.response {
        UpgradeResponse::SwitchingProtocols { accept_key } => assert_eq!(accept_key, "s3pPLMBiTxaQ9kYGzzhZRbK+xOo="),
        UpgradeResponse::BadRequest => panic!("refused"),
    }
}

#[test]
fn upgrade_is_refused() {
    let d = upgrade_decision(None, Some("h2c"), Some(b"key"));
    assert!(!d.use_zlib);
    assert!(matches!(d.response, UpgradeResponse::BadRequest));
    let d = upgrade_decision(Some("v=10"), Some("websocket"), None);
    assert!(!d.use_zlib);
    assert!(matches!(d.response, UpgradeResponse::BadRequest));
    let d = upgrade_decision(Some("compress=zlib"), None, None);
    assert!(!d.use_zlib);
    assert!(matches!(d.response, UpgradeResponse::BadRequest));
}
