//! Session bookkeeping tests.

use zorv::server::manager::TunnelManager;

#[test]
fn register_get_unregister() {
    let mut mgr = TunnelManager::new();
    assert!(mgr.get("c1").is_none());
    mgr.register("c1".to_string(), "sid-test".to_string());
    assert!(mgr.get("c1").is_some());
    assert!(mgr.get("c2").is_none());
    let removed = mgr.unregister("c1");
    assert!(removed.is_some());
    assert!(mgr.get("c1").is_none());
}

#[test]
fn kick_blacklist_blocks_reconnect_within_window() {
    let mut mgr = TunnelManager::new();
    assert!(!mgr.is_kicked("c1", 60));
    mgr.mark_kicked("c1");
    assert!(mgr.is_kicked("c1", 60));
    assert!(!mgr.is_kicked("c2", 60));
}

#[test]
fn register_replaces_existing() {
    let mut mgr = TunnelManager::new();
    mgr.register("c1".to_string(), "sid-test".to_string());
    let replaced = mgr.register("c1".to_string(), "sid-test".to_string());
    assert_eq!(replaced.as_deref(), Some("sid-test"));
    assert!(mgr.get("c1").is_some());
    mgr.unregister("c1");
    assert!(mgr.get("c1").is_none());
}

#[test]
fn unregister_if_current_only_removes_matching_session() {
    let mut mgr = TunnelManager::new();
    mgr.register("c1".to_string(), "sid-old".to_string());
    mgr.register("c1".to_string(), "sid-new".to_string());
    assert!(mgr.get("c1").is_some());
    assert!(mgr.unregister_if_current("c1", "sid-old").is_none());
    assert!(mgr.get("c1").is_some(), "old session must not remove the new session");
    let removed = mgr.unregister_if_current("c1", "sid-new");
    assert!(removed.is_some());
    assert!(mgr.get("c1").is_none());
}

#[test]
fn kick_window_expires() {
    let mut mgr = TunnelManager::new();
    mgr.mark_kicked_at("c1", 1_000);
    assert!(mgr.is_kicked_at("c1", 60, 1_000 + 60_000));
    assert!(!mgr.is_kicked_at("c1", 60, 1_000 + 60_001));
    assert!(mgr.is_kicked_at("c1", 60, 500));
    assert!(mgr.is_kicked_at("c1", u64::MAX, u64::MAX));
}

#[test]
fn list_and_len_follow_the_table() {
    let mut mgr = TunnelManager::new();
    mgr.register("a".to_string(), "s1".to_string());
    mgr.register("b".to_string(), "s2".to_string());
    assert_eq!(mgr.len(), 2);
    let mut l = mgr.list();
    l.sort();
    assert_eq!(l, vec![("a".to_string(), "s1".to_string()), ("b".to_string(), "s2".to_string())]);
    assert_eq!(mgr.get("b").as_deref(), Some("s2"));
}
