use wsocket::handshake::{
    accept_upgrade, encode_key, eq_ignore_ascii_case, generate_key, header_contains_value,
    is_upgrade_request, sec_websocket_protocol, trim, trim_end, trim_start, value_has_token, verify,
    UpgradeHeaders,
};
use wsocket::WSocketError;

fn headers(connection: &[&str], upgrade: &[&str], key: &[&str], version: &[&str]) -> UpgradeHeaders {
    let v = |xs: &[&str]| xs.iter().map(|x| x.as_bytes().to_vec()).collect::<Vec<_>>();
    UpgradeHeaders {
        connection: v(connection),
        upgrade: v(upgrade),
        sec_websocket_key: v(key),
        sec_websocket_version: v(version),
    }
}

#[test]
fn accept_key_of_the_rfc_example() {
    let accept = sec_websocket_protocol(b"dGhlIHNhbXBsZSBub25jZQ==");
    assert_eq!(accept, "s3pPLMBiTxaQ9kYGzzhZRbK+xOo=");
    assert_eq!(accept.len(), 28);
}

#[test]
fn accept_upgrade_answers_the_key() {
    let h = headers(&["Upgrade"], &["websocket"], &["dGhlIHNhbXBsZSBub25jZQ=="], &["13"]);
    assert_eq!(accept_upgrade(&h).unwrap(), "s3pPLMBiTxaQ9kYGzzhZRbK+xOo=");
}

#[test]
fn accept_upgrade_needs_a_key() {
    let h = headers(&["upgrade"], &["websocket"], &[], &["13"]);
    assert!(matches!(accept_upgrade(&h), Err(WSocketError::MissingSecWebSocketKey)));
}

#[test]
fn accept_upgrade_needs_version_13() {
    let h = headers(&["upgrade"], &["websocket"], &["abc"], &["12"]);
    assert!(matches!(accept_upgrade(&h), Err(WSocketError::InvalidSecWebsocketVersion)));
    let h = headers(&["upgrade"], &["websocket"], &["abc"], &[]);
    assert!(matches!(accept_upgrade(&h), Err(WSocketError::InvalidSecWebsocketVersion)));
}

#[test]
fn upgrade_request_detection() {
    assert!(is_upgrade_request(&headers(&["keep-alive, Upgrade"], &[" WebSocket "], &[], &[])));
    assert!(is_upgrade_request(&headers(&["close", "upgrade"], &["websocket"], &[], &[])));
    assert!(!is_upgrade_request(&headers(&["keep-alive"], &["websocket"], &[], &[])));
    assert!(!is_upgrade_request(&headers(&["upgrade"], &["h2c"], &[], &[])));
    assert!(!is_upgrade_request(&headers(&[], &[], &[], &[])));
}

#[test]
fn response_checks() {
    let good = headers(&["Upgrade"], &["websocket"], &[], &[]);
    assert!(verify(101, &good).is_ok());
    assert!(matches!(
        verify(200, &good),
        Err(WSocketError::InvalidStatusCode { actual: 200, expected: 101 })
    ));
    let no_upgrade = headers(&["upgrade"], &["http/2"], &[], &[]);
    assert!(matches!(verify(101, &no_upgrade), Err(WSocketError::InvalidUpgradeHeader)));
    let no_connection = headers(&["close"], &["websocket"], &[], &[]);
    assert!(matches!(verify(101, &no_connection), Err(WSocketError::InvalidConnectionHeader)));
}

#[test]
fn trimming() {
    assert_eq!(trim(b"  a b \t\r\n"), b"a b");
    assert_eq!(trim_start(b" \tab "), b"ab ");
    assert_eq!(trim_end(b" ab \n"), b" ab");
    assert_eq!(trim(b" \t "), b"");
    assert_eq!(trim_start(b""), b"");
}

#[test]
fn tokens_and_case() {
    assert!(eq_ignore_ascii_case(b"WebSocket", b"websocket"));
    assert!(!eq_ignore_ascii_case(b"websocke", b"websocket"));
    assert!(value_has_token(b"a, b ,Upgrade", b"upgrade"));
    assert!(!value_has_token(b"a, bupgrade", b"upgrade"));
    assert!(value_has_token(b",,upgrade,", b"UPGRADE"));
    assert!(header_contains_value(&vec![b"x".to_vec(), b"y, z".to_vec()], b"Z"));
    assert!(!header_contains_value(&vec![], b"z"));
}

#[test]
fn client_keys() {
    assert_eq!(encode_key([0; 16]), "AAAAAAAAAAAAAAAAAAAAAA==");
    assert_eq!(generate_key().len(), 24);
}
