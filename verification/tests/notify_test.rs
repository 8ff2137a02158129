//! Webhook target and request tests.

use zorv::server::notify::{offline_event, parse_webhook_url, post_request_head};

#[test]
fn post_json_uses_root_path_when_absent() {
    let t = parse_webhook_url("http://127.0.0.1:9000").unwrap();
    assert_eq!(t.path, "/");
    assert_eq!(t.host, "127.0.0.1");
    assert_eq!(t.port, 9000);
    assert!(!t.tls);
}

#[test]
fn post_json_rejects_invalid_url() {
    assert!(parse_webhook_url("not-a-url").is_err());
    assert!(parse_webhook_url("http://").is_err());
    assert_eq!(
        parse_webhook_url("not-a-url").unwrap_err().to_message(),
        "other error: invalid webhook url: not-a-url"
    );
}

#[test]
fn webhook_url_defaults_and_https() {
    let t = parse_webhook_url("HTTPS://hooks.example.com/a/b?c=1").unwrap();
    assert!(t.tls);
    assert_eq!(t.host, "hooks.example.com");
    assert_eq!(t.port, 443);
    assert_eq!(t.path, "/a/b?c=1");
    let t = parse_webhook_url("http://h:notaport/x").unwrap();
    assert_eq!(t.host, "h");
    assert_eq!(t.port, 80);
    let t = parse_webhook_url("http://h:70000").unwrap();
    assert_eq!(t.port, 80);
}

#[test]
fn post_json_sends_http_post() {
    let body = offline_event("c1");
    let text = String::from_utf8(body.clone()).unwrap();
    assert_eq!(text, r#"{"client_id":"c1","event":"offline"}"#);
    let head = post_request_head("/hook", "127.0.0.1", body.len());
    assert!(head.starts_with("POST /hook HTTP/1.1"));
    assert!(head.contains("Content-Type: application/json"));
    assert!(head.contains(&format!("Content-Length: {}\r\n", body.len())));
    assert!(head.ends_with("\r\n\r\n"));
}
