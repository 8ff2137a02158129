//! Audit log tests.

use zorv::server::audit::{AuditLog, AUDIT_LOG_CAP};

#[test]
fn record_and_snapshot_newest_first() {
    let mut log = AuditLog::new();
    log.record("1.1.1.1", "login", "ok");
    log.record("2.2.2.2", "proxy_connect", "proxy=web target=127.0.0.1:80");
    let snap = log.snapshot();
    assert_eq!(snap.len(), 2);
    assert_eq!(snap[0].action, "proxy_connect");
    assert_eq!(snap[0].ip, "2.2.2.2");
    assert_eq!(snap[1].action, "login");
}

#[test]
fn ring_keeps_the_newest_entries() {
    let mut log = AuditLog::new();
    for i in 0..(AUDIT_LOG_CAP + 3) {
        log.record("ip", &format!("a{i}"), "");
    }
    let snap = log.snapshot();
    assert_eq!(snap.len(), AUDIT_LOG_CAP);
    assert_eq!(snap[0].action, format!("a{}", AUDIT_LOG_CAP + 2));
    assert_eq!(snap[AUDIT_LOG_CAP - 1].action, "a3");
}

#[test]
fn audit_pages_newest_first() {
    let mut log = AuditLog::new();
    for i in 0..7 {
        log.record("1.2.3.4", "login", &format!("n={i}"));
    }
    let p = log.page(1, 3);
    assert_eq!((p.total, p.page, p.page_size), (7, 1, 3));
    let details: Vec<&str> = p.items.iter().map(|e| e.detail.as_str()).collect();
    assert_eq!(details, vec!["n=6", "n=5", "n=4"]);
    let p = log.page(3, 3);
    let details: Vec<&str> = p.items.iter().map(|e| e.detail.as_str()).collect();
    assert_eq!(details, vec!["n=0"]);
    assert!(log.page(4, 3).items.is_empty());
    assert_eq!(log.page(0, 50).items.len(), 7);
    assert!(log.page(usize::MAX, usize::MAX).items.is_empty());
}
