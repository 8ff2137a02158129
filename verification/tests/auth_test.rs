//! Server authentication tests: client ids and the IP allowlist.

use zorv::protocol::handshake::HandshakeReq;
use zorv::server::auth::{authenticate, ip_allowed, parse_ipv4, validate_client_id, PeerIp};

fn v4(a: u8, b: u8, c: u8, d: u8) -> PeerIp {
    PeerIp {
        text: format!("{a}.{b}.{c}.{d}"),
        v4: Some(u32::from_be_bytes([a, b, c, d])),
    }
}

#[test]
fn ip_whitelist_matching() {
    let list = vec!["1.2.3.4".to_string(), "10.0.0.0/8".to_string()];
    assert!(ip_allowed(&v4(1, 2, 3, 4), &list));
    assert!(ip_allowed(&v4(10, 99, 0, 1), &list));
    assert!(!ip_allowed(&v4(8, 8, 8, 8), &list));
    assert!(!ip_allowed(&v4(10, 0, 0, 1), &["10.0.0.0/99".to_string()]));
}

#[test]
fn client_id_validation() {
    assert!(validate_client_id("web-1"));
    assert!(validate_client_id("web_1"));
    assert!(validate_client_id("Client123"));
    assert!(validate_client_id("a-b_c"));
    assert!(!validate_client_id(""));
    assert!(!validate_client_id(&"x".repeat(65)));
    assert!(!validate_client_id("a<script>"));
    assert!(!validate_client_id("a\"b"));
    assert!(!validate_client_id("a'b"));
    assert!(!validate_client_id("a b"));
    assert!(!validate_client_id("a\nb"));
    assert!(!validate_client_id("客户A"));
    assert!(!validate_client_id("a@b"));
    assert!(!validate_client_id("a.b"));
    assert!(!validate_client_id("a/b"));
    assert!(!validate_client_id("a:b"));
}

#[test]
fn ipv4_parsing_follows_dotted_quad_rules() {
    assert_eq!(parse_ipv4("10.0.0.1"), Some(0x0A000001));
    assert_eq!(parse_ipv4("255.255.255.255"), Some(u32::MAX));
    assert_eq!(parse_ipv4("0.0.0.0"), Some(0));
    assert_eq!(parse_ipv4("256.0.0.1"), None);
    assert_eq!(parse_ipv4("01.2.3.4"), None);
    assert_eq!(parse_ipv4("1.2.3"), None);
    assert_eq!(parse_ipv4("1.2.3.4.5"), None);
    assert_eq!(parse_ipv4("1..3.4"), None);
    assert_eq!(parse_ipv4("+1.2.3.4"), None);
    assert_eq!(parse_ipv4("1.2.3.0004"), None);
}

#[test]
fn cidr_edges() {
    let any = vec!["0.0.0.0/0".to_string()];
    assert!(ip_allowed(&v4(8, 8, 8, 8), &any));
    let host = vec!["192.168.1.7/32".to_string()];
    assert!(ip_allowed(&v4(192, 168, 1, 7), &host));
    assert!(!ip_allowed(&v4(192, 168, 1, 8), &host));
    let v6 = PeerIp { text: "::1".to_string(), v4: None };
    assert!(!ip_allowed(&v6, &any));
    assert!(ip_allowed(&v6, &["::1".to_string()]));
    assert!(!ip_allowed(&v4(1, 2, 3, 4), &[]));
    assert!(!ip_allowed(&v4(1, 2, 3, 4), &["1.2.3.x/8".to_string()]));
    assert!(ip_allowed(&v4(1, 2, 3, 4), &["1.0.0.0/+8".to_string()]));
}

#[test]
fn authenticate_checks_token() {
    let req = HandshakeReq::build("client-1", "secret-token", "tcp");
    assert!(authenticate(&req, "secret-token").is_ok());
    let e = authenticate(&req, "other-token").unwrap_err();
    assert!(e.to_message().starts_with("auth error: "));
}
