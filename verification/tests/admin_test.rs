//! Admin console tests: escaping, decoding, passwords, responses, routing,
//! request heads and the login guard.

use zorv::server::admin::guard::{BLOCK_DURATION_MS, LOGIN_FAIL_LIMIT, SESSION_TTL_MS};
use zorv::server::admin::{
    constant_time_eq, find_head_end, from_hex, hash_password, html_response, json_err_response,
    json_error, json_ok, parse_head_text, parse_request_head, prom_escape, query_of,
    record_checkable, redirect_response, route, to_hex, url_decodable, url_decode,
    verify_password, AdminAuth, LoginOutcome, Page, Route,
};

#[test]
fn password_verification() {
    assert!(verify_password("secret", "secret"));
    assert!(!verify_password("wrong", "secret"));
    let hash = hash_password("secret");
    assert!(hash.starts_with("$pbkdf2-sha256$"));
    assert!(verify_password("secret", &hash));
    assert!(!verify_password("wrong", &hash));
    let broken = format!("{}0", &hash[..hash.len() - 1]);
    assert!(!verify_password("secret", &broken));
}

#[test]
fn url_decode_works() {
    assert_eq!(url_decode("home%20nas"), "home nas");
    assert_eq!(url_decode("a%2Fb"), "a/b");
    assert_eq!(url_decode("plain"), "plain");
}

#[test]
fn constant_time_eq_works() {
    assert!(constant_time_eq("abc", "abc"));
    assert!(!constant_time_eq("abc", "abd"));
    assert!(!constant_time_eq("abc", "ab"));
}

#[test]
fn prom_escape_works() {
    assert_eq!(prom_escape("plain"), "plain");
    assert_eq!(prom_escape(r#"a"b\c"#), r#"a\"b\\c"#);
    assert_eq!(prom_escape("x\ny"), "x\\ny");
}

#[test]
fn url_decode_edge_cases() {
    assert_eq!(url_decode("%"), "%");
    assert_eq!(url_decode("%4"), "%4");
    assert_eq!(url_decode("50%"), "50%");
    assert_eq!(url_decode("%zz"), "%zz");
    assert_eq!(url_decode("%41%42"), "AB");
    assert_eq!(url_decode("%+5"), "\u{5}");
    assert_eq!(url_decode("%e4%b8%ad"), "中");
    assert_eq!(url_decode("%ff"), "\u{fffd}");
    assert!(url_decodable("a%20b"));
    assert!(!url_decodable("%中x"));
}

#[test]
fn hex_roundtrip_and_errors() {
    let bytes = vec![0x00, 0x7f, 0xab, 0xff];
    let h = to_hex(&bytes);
    assert_eq!(h, "007fabff");
    assert_eq!(from_hex(&h), Some(bytes));
    assert_eq!(from_hex("ABcd"), Some(vec![0xab, 0xcd]));
    assert_eq!(from_hex("abc"), None);
    assert_eq!(from_hex("zz"), None);
    assert_eq!(from_hex(""), Some(vec![]));
}

#[test]
fn malformed_records_are_rejected() {
    assert!(!verify_password("x", "$pbkdf2-sha256$"));
    assert!(!verify_password("x", "$pbkdf2-sha256$100$abcd"));
    assert!(!verify_password("x", "$pbkdf2-sha256$notanumber$00$00"));
    assert!(!verify_password("x", "$pbkdf2-sha256$1$0g$00"));
    assert!(record_checkable("$pbkdf2-sha256$1$00$00"));
    assert!(!record_checkable("$pbkdf2-sha256$1$a中$00"));
    assert!(record_checkable("plain secret"));
}

#[test]
fn pbkdf2_record_with_one_iteration() {
    // RFC 6070-style vector for PBKDF2-HMAC-SHA256, c = 1, first block.
    let dk = zorv::server::admin::pbkdf2_sha256(b"password", b"salt", 1);
    assert_eq!(
        to_hex(&dk),
        "120fb6cffcf8b32c43e7225256c4f837a86548c92ccc35480805987cb70be17b"
    );
    let record = format!("$pbkdf2-sha256$1${}${}", to_hex(b"salt"), to_hex(&dk));
    assert!(verify_password("password", &record));
    assert!(!verify_password("Password", &record));
    let dk2 = zorv::server::admin::pbkdf2_sha256(b"password", b"salt", 2);
    assert_eq!(
        to_hex(&dk2),
        "ae4d0c95af6b46d32d0adff928f06dd02a303f8ef3c251dfd6e2d85a95474c43"
    );
}

#[test]
fn responses_have_their_headers() {
    let r = html_response("<p>x</p>");
    assert_eq!(r.status, "200 OK");
    let bytes = r.into_bytes();
    let text = String::from_utf8(bytes).unwrap();
    assert_eq!(
        text,
        "HTTP/1.1 200 OK\r\nContent-Type: text/html; charset=utf-8\r\nContent-Length: 8\r\nConnection: close\r\n\r\n<p>x</p>"
    );
    let r = redirect_response("/login.html");
    assert_eq!(r.status, "302 Found");
    assert_eq!(r.extra_headers, "Location: /login.html\r\n");
    assert!(r.body.is_empty());
    assert_eq!(json_ok(), br#"{"ok":true}"#.to_vec());
    assert_eq!(json_error("bad \"x\""), br#"{"ok":false,"error":"bad \"x\""}"#.to_vec());
    let r = json_err_response("404 Not Found", "not found");
    assert_eq!(r.status, "404 Not Found");
    assert_eq!(r.content_type, "application/json");
    assert_eq!(r.body, br#"{"ok":false,"error":"not found"}"#.to_vec());
}

#[test]
fn routes_without_password() {
    assert_eq!(route("GET", "/", true), Route::Page(Page::Index));
    assert_eq!(route("GET", "/clients.html", true), Route::Page(Page::Clients));
    assert_eq!(route("GET", "/nope", true), Route::NotFound);
    assert_eq!(route("GET", "/api/status", true), Route::Status);
    assert_eq!(route("DELETE", "/api/proxies?name=web", true), Route::DeleteProxy);
    assert_eq!(query_of("/api/proxies?name=web"), "name=web");
    assert_eq!(query_of("/api/proxies"), "");
    assert_eq!(route("POST", "/api/kick", true), Route::Kick);
}

#[test]
fn routes_without_session() {
    assert_eq!(route("GET", "/api/status", false), Route::Unauthorized);
    assert_eq!(route("GET", "/", false), Route::RedirectToLogin);
    assert_eq!(route("GET", "/login.html", false), Route::LoginPage);
    assert_eq!(route("GET", "/api/captcha?t=123456", false), Route::Captcha);
    assert_eq!(route("GET", "/metrics", false), Route::Metrics);
    assert_eq!(route("POST", "/api/login", false), Route::Login);
    assert_eq!(route("POST", "/api/logout", false), Route::Unauthorized);
}

#[test]
fn request_head_is_parsed() {
    let head = b"POST /api/login?x=1 HTTP/1.1\r\nHost: a\r\nContent-Length: 12\r\nCookie: a=b; session= tok ;captcha=cid\r\n\r\n";
    let h = parse_request_head(head).unwrap();
    assert_eq!(h.method, "POST");
    assert_eq!(h.path, "/api/login?x=1");
    assert_eq!(h.content_length, 12);
    assert_eq!(h.session.as_deref(), Some("tok"));
    assert_eq!(h.captcha.as_deref(), Some("cid"));
    let h = parse_head_text("GET /\r\ncontent-length: nope\r\n\r\n").unwrap();
    assert_eq!(h.content_length, 0);
    assert!(h.session.is_none());
    assert!(parse_head_text("GET\r\n\r\n").is_none());
    assert!(parse_head_text("   \r\n").is_none());
}

#[test]
fn head_end_is_found() {
    assert_eq!(find_head_end(b"GET / HTTP/1.1\r\n\r\nbody"), Some(18));
    assert_eq!(find_head_end(b"GET / HTTP/1.1\r\n"), None);
    assert_eq!(find_head_end(b""), None);
}

fn guard(password: &str) -> AdminAuth {
    AdminAuth::new("admin".to_string(), password.to_string())
}

fn add_captcha(a: &mut AdminAuth, now: u64) -> String {
    let (id, code) = a.new_captcha_at(now);
    a.captchas.insert(id.clone(), ("ABCD".to_string(), now + 60_000));
    assert_eq!(code.len(), 4);
    id
}

#[test]
fn login_failures_block_ip() {
    let mut a = guard("secret");
    let now = 1_000_000u64;
    for i in 0..LOGIN_FAIL_LIMIT as u64 {
        let cid = add_captcha(&mut a, now + i);
        let r = a.login_at("admin", "wrong", Some(&cid), "ABCD", "127.0.0.1", now + i);
        assert!(matches!(r, LoginOutcome::WrongCredentials));
    }
    assert!(a.blocked_ips.contains_key("127.0.0.1"));
    assert!(a.is_ip_blocked_at("127.0.0.1", now + 5));
    assert!(!a.is_ip_blocked_at("127.0.0.2", now + 5));
    assert_eq!(*a.blocked_ips.get("127.0.0.1").unwrap(), now + 4 + BLOCK_DURATION_MS);
}

#[test]
fn login_success_resets_failures() {
    let mut a = guard("secret");
    let now = 2_000_000u64;
    for _ in 0..2 {
        let cid = add_captcha(&mut a, now);
        let r = a.login_at("admin", "wrong", Some(&cid), "ABCD", "127.0.0.1", now);
        assert!(matches!(r, LoginOutcome::WrongCredentials));
    }
    let cid = add_captcha(&mut a, now);
    let r = a.login_at("admin", "secret", Some(&cid), "abcd", "127.0.0.1", now);
    let token = match r {
        LoginOutcome::Success(t) => t,
        _ => panic!("login should succeed"),
    };
    assert_eq!(token.len(), 64);
    assert!(a.login_failures.get("127.0.0.1").is_none());
    assert!(a.blocked_ips.is_empty());
    assert!(a.is_authenticated_at(Some(&token), now + 1));
    assert!(!a.is_authenticated_at(Some(&token), now + SESSION_TTL_MS));
    a.logout(Some(&token));
    assert!(!a.is_authenticated_at(Some(&token), now + 1));
}

#[test]
fn block_expires_and_clears() {
    let mut a = guard("");
    a.blocked_ips.insert("1.2.3.4".to_string(), 999);
    assert!(!a.is_ip_blocked_at("1.2.3.4", 1000));
    assert!(a.blocked_ips.get("1.2.3.4").is_none());
}

#[test]
fn captcha_required_and_consumed() {
    let mut a = guard("secret");
    let now = 3_000_000u64;
    let r = a.login_at("admin", "secret", None, "", "127.0.0.1", now);
    assert!(matches!(r, LoginOutcome::BadCaptcha));
    let cid = add_captcha(&mut a, now);
    let r = a.login_at("admin", "secret", Some(&cid), "ZZZZ", "127.0.0.1", now);
    assert!(matches!(r, LoginOutcome::BadCaptcha));
    assert!(a.captchas.get(&cid).is_none(), "captcha must be single use");
    let cid = add_captcha(&mut a, now);
    let r = a.login_at("admin", "secret", Some(&cid), " abcd ", "127.0.0.1", now);
    assert!(matches!(r, LoginOutcome::Success(_)));
    let cid = add_captcha(&mut a, now);
    let r = a.login_at("admin", "secret", Some(&cid), "ABCD", "127.0.0.1", now + 60_000);
    assert!(matches!(r, LoginOutcome::BadCaptcha), "expired captcha");
}

#[test]
fn login_disabled_and_auth_open_without_password() {
    let mut a = guard("");
    assert!(a.is_authenticated_at(None, 5));
    let r = a.login_at("admin", "", None, "", "1.1.1.1", 5);
    assert!(matches!(r, LoginOutcome::Disabled));
    let b = guard("secret");
    assert!(!b.is_authenticated_at(None, 5));
    assert!(!b.is_authenticated_at(Some("unknown"), 5));
}

#[test]
fn failures_outside_window_start_over() {
    let mut a = guard("secret");
    let t = 10_000_000u64;
    for i in 0..4u64 {
        a.record_login_failure_at("9.9.9.9", t + i);
    }
    a.record_login_failure_at("9.9.9.9", t + 30 * 60 * 1000 + 1);
    assert!(!a.blocked_ips.contains_key("9.9.9.9"));
    assert_eq!(*a.login_failures.get("9.9.9.9").unwrap(), (1, t + 30 * 60 * 1000 + 1));
}

#[test]
fn new_captcha_drops_expired_ones() {
    let mut a = guard("secret");
    let (old_id, _) = a.new_captcha_at(1_000);
    let (new_id, code) = a.new_captcha_at(1_000 + 300_000);
    assert!(a.captchas.get(&old_id).is_none());
    assert_eq!(a.captchas.get(&new_id).unwrap().0, code);
    assert!(code.chars().all(|c| "ABCDEFGHJKMNPQRSTUVWXYZ23456789".contains(c)));
}

#[test]
fn bearer_token_is_the_session() {
    let h = parse_request_head(b"GET /api/status HTTP/1.1\r\nAuthorization: Bearer T\r\n\r\n").unwrap();
    assert_eq!(h.method, "GET");
    assert_eq!(h.path, "/api/status");
    assert_eq!(h.session.as_deref(), Some("T"));
    assert_eq!(h.content_length, 0);
    let h = parse_head_text("GET / HTTP/1.1\r\nCookie: session=c\r\nauthorization:  Bearer  tok \r\n\r\n").unwrap();
    assert_eq!(h.session.as_deref(), Some("tok"));
    let h = parse_head_text("GET / HTTP/1.1\r\nAuthorization: Bearer tok\r\nCookie: session=c\r\n\r\n").unwrap();
    assert_eq!(h.session.as_deref(), Some("c"));
    let h = parse_head_text("GET / HTTP/1.1\r\nAuthorization: Basic abc\r\n\r\n").unwrap();
    assert!(h.session.is_none());
}

#[test]
fn audit_route_reads_paging() {
    assert_eq!(
        route("GET", "/api/audit?page=1&page_size=50", true),
        Route::Audit { page: 1, page_size: 50 }
    );
    assert_eq!(route("GET", "/api/audit?page_size=10&page=3", true), Route::Audit { page: 3, page_size: 10 });
    assert_eq!(route("GET", "/api/audit", true), Route::Audit { page: 1, page_size: 50 });
    assert_eq!(route("GET", "/api/audit?page=0&page_size=x", true), Route::Audit { page: 1, page_size: 50 });
    assert_eq!(route("GET", "/api/audit?page=2", false), Route::Unauthorized);
    assert_eq!(route("POST", "/api/audit", true), Route::NotFound);
}

#[test]
fn json_error_escapes_like_serde_json() {
    let msg = "a\"b\\c\n\t\r\u{8}\u{c}\u{1}\u{1f}\u{7f}é已";
    let expected = "{\"ok\":false,\"error\":\"a\\\"b\\\\c\\n\\t\\r\\b\\f\\u0001\\u001f\u{7f}é已\"}";
    assert_eq!(json_error(msg), expected.as_bytes().to_vec());
}
