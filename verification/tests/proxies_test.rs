//! Proxy rule tests: start checks, upsert/remove and reload steps.

use zorv::server::proxies::{
    check_new_rule, reload_actions, remove_rule, start_check, upsert_rule, ListenKind, ProxyAction, ProxyRule,
};

fn rule(name: &str, kind: &str, listen: Option<&str>, target: &str) -> ProxyRule {
    ProxyRule {
        name: name.to_string(),
        proxy_type: kind.to_string(),
        listen: listen.map(|s| s.to_string()),
        client_id: None,
        target: target.to_string(),
    }
}

fn names(rules: &[ProxyRule]) -> Vec<&str> {
    rules.iter().map(|r| r.name.as_str()).collect()
}

fn describe(actions: &[ProxyAction]) -> Vec<String> {
    actions
        .iter()
        .map(|a| match a {
            ProxyAction::Stop(n) => format!("stop {n}"),
            ProxyAction::Start(i) => format!("start {i}"),
        })
        .collect()
}

#[test]
fn start_check_picks_listener_kind() {
    assert_eq!(start_check(&rule("a", "tcp", Some(":80"), "t"), false).unwrap(), ListenKind::Tcp);
    assert_eq!(start_check(&rule("a", "udp", Some(":53"), "t"), false).unwrap(), ListenKind::Udp);
}

#[test]
fn start_check_refusals() {
    let e = start_check(&rule("web", "tcp", Some(":80"), "t"), true).unwrap_err();
    assert_eq!(e.to_message(), "other error: proxy web already running");
    let e = start_check(&rule("web", "sctp", None, "t"), false).unwrap_err();
    assert_eq!(e.to_message(), "other error: unsupported proxy type: sctp");
    let e = start_check(&rule("web", "udp", None, "t"), false).unwrap_err();
    assert_eq!(e.to_message(), "other error: proxy web missing listen address");
}

#[test]
fn new_rules_need_name_and_listen() {
    assert_eq!(check_new_rule(&rule("", "tcp", Some(":80"), "t")), Some("name is required"));
    assert_eq!(check_new_rule(&rule("a", "tcp", None, "t")), Some("listen is required"));
    assert_eq!(check_new_rule(&rule("", "tcp", None, "t")), Some("name is required"));
    assert_eq!(check_new_rule(&rule("a", "tcp", Some(":80"), "t")), None);
}

#[test]
fn upsert_replaces_by_name_at_the_end() {
    let rules = vec![rule("a", "tcp", Some(":1"), "x"), rule("b", "tcp", Some(":2"), "y")];
    let updated = upsert_rule(&rules, rule("a", "udp", Some(":3"), "z"));
    assert_eq!(names(&updated), vec!["b", "a"]);
    assert_eq!(updated[1].proxy_type, "udp");
    assert_eq!(updated[1].listen.as_deref(), Some(":3"));
    let added = upsert_rule(&updated, rule("c", "tcp", Some(":4"), "w"));
    assert_eq!(names(&added), vec!["b", "a", "c"]);
}

#[test]
fn remove_drops_every_rule_of_the_name() {
    let rules = vec![rule("a", "tcp", Some(":1"), "x"), rule("b", "tcp", Some(":2"), "y"), rule("a", "udp", None, "z")];
    assert_eq!(names(&remove_rule(&rules, "a")), vec!["b"]);
    assert_eq!(names(&remove_rule(&rules, "zzz")), vec!["a", "b", "a"]);
}

#[test]
fn reload_of_unchanged_rules_does_nothing() {
    let rules = vec![rule("a", "tcp", Some(":1"), "x"), rule("b", "udp", Some(":2"), "y")];
    let same = vec![rule("a", "tcp", Some(":1"), "x"), rule("b", "udp", Some(":2"), "y")];
    assert!(reload_actions(&rules, &same).is_empty());
}

#[test]
fn reload_stops_removed_restarts_changed_and_starts_new() {
    let current = vec![
        rule("gone", "tcp", Some(":1"), "x"),
        rule("kept", "tcp", Some(":2"), "y"),
        rule("edited", "tcp", Some(":3"), "z"),
    ];
    let desired = vec![
        rule("edited", "tcp", Some(":30"), "z"),
        rule("kept", "tcp", Some(":2"), "y"),
        rule("fresh", "udp", Some(":4"), "w"),
    ];
    let actions = reload_actions(&current, &desired);
    assert_eq!(describe(&actions), vec!["stop gone", "stop edited", "start 0", "start 2"]);
}
