//! Traffic accounting tests.

use zorv::server::traffic::{TrafficCounter, TrafficTable, TrafficTracker, HISTORY_POINTS};

#[test]
fn merge_accumulates_and_ignores_zero() {
    let mut tracker = TrafficTracker::new();
    tracker.merge("c1", &TrafficCounter { tcp_up: 100, tcp_down: 50, udp_up: 10, udp_down: 20 });
    tracker.merge("c1", &TrafficCounter { tcp_up: 1, tcp_down: 1, udp_up: 0, udp_down: 0 });
    tracker.merge("c2", &TrafficCounter::default());
    let snap = tracker.snapshot();
    let c1 = snap.get("c1").unwrap();
    assert_eq!(c1.tcp_up, 101);
    assert_eq!(c1.tcp_down, 51);
    assert_eq!(c1.udp_up, 10);
    assert_eq!(c1.udp_down, 20);
    assert!(!snap.contains_key("c2"), "zero delta must not be recorded");
}

#[test]
fn sample_appends_history_with_online_and_bounds() {
    let mut tracker = TrafficTracker::new();
    tracker.merge("c1", &TrafficCounter { tcp_up: 100, tcp_down: 0, udp_up: 0, udp_down: 0 });
    let mut online = TrafficTable::new();
    online.add("c1", &TrafficCounter { tcp_up: 5, tcp_down: 1, udp_up: 0, udp_down: 0 });
    tracker.sample(&online);
    let hist = tracker.history();
    assert_eq!(hist.len(), 1);
    let s = &hist[0];
    assert_eq!(s.totals.get("c1").unwrap().tcp_up, 105);
    assert_eq!(s.totals.get("c1").unwrap().tcp_down, 1);
    let mut online = TrafficTable::new();
    online.add("c1", &TrafficCounter { tcp_up: 20, tcp_down: 0, udp_up: 0, udp_down: 0 });
    tracker.sample(&online);
    assert_eq!(tracker.history().len(), 2);
    assert_eq!(tracker.history()[1].totals.get("c1").unwrap().tcp_up, 120);
    for _ in 0..HISTORY_POINTS {
        tracker.sample(&TrafficTable::new());
    }
    assert_eq!(tracker.history().len(), HISTORY_POINTS);
}

#[test]
fn counter_helpers() {
    let z = TrafficCounter::default();
    assert!(z.is_zero());
    let a = TrafficCounter { tcp_up: 1, tcp_down: 2, udp_up: 3, udp_down: 4 };
    assert!(!a.is_zero());
    let b = a.plus(&a);
    assert_eq!(b, TrafficCounter { tcp_up: 2, tcp_down: 4, udp_up: 6, udp_down: 8 });
}

#[test]
fn samples_do_not_change_totals() {
    let mut tracker = TrafficTracker::new();
    tracker.merge("c9", &TrafficCounter { tcp_up: 7, tcp_down: 0, udp_up: 0, udp_down: 0 });
    let mut online = TrafficTable::new();
    online.add("c9", &TrafficCounter { tcp_up: 3, tcp_down: 0, udp_up: 0, udp_down: 0 });
    tracker.sample(&online);
    assert_eq!(tracker.snapshot().get("c9").unwrap().tcp_up, 7);
}

#[test]
fn overlay_with_adds_live_traffic() {
    let mut totals = TrafficTable::new();
    totals.add("c1", &TrafficCounter { tcp_up: 100, tcp_down: 200, udp_up: 10, udp_down: 20 });
    let mut online = TrafficTable::new();
    online.add("c1", &TrafficCounter { tcp_up: 1, tcp_down: 2, udp_up: 3, udp_down: 4 });
    online.add("c2", &TrafficCounter { tcp_up: 7, tcp_down: 8, udp_up: 9, udp_down: 10 });
    let t = totals.overlay_with(&online).unwrap();
    let c1 = t.get("c1").unwrap();
    assert_eq!((c1.tcp_up, c1.tcp_down, c1.udp_up, c1.udp_down), (101, 202, 13, 24));
    let c2 = t.get("c2").unwrap();
    assert_eq!((c2.tcp_up, c2.tcp_down, c2.udp_up, c2.udp_down), (7, 8, 9, 10));
}

#[test]
fn overlay_with_refuses_overflow() {
    let mut totals = TrafficTable::new();
    totals.add("c1", &TrafficCounter { tcp_up: u64::MAX, tcp_down: 0, udp_up: 0, udp_down: 0 });
    let mut online = TrafficTable::new();
    online.add("c1", &TrafficCounter { tcp_up: 1, tcp_down: 0, udp_up: 0, udp_down: 0 });
    assert!(totals.overlay_with(&online).is_none());
    let mut tracker = TrafficTracker::from_totals(totals);
    assert!(!tracker.sample_fits(&online));
    assert!(tracker.sample_fits(&TrafficTable::new()));
    let one = TrafficCounter { tcp_up: 1, tcp_down: 0, udp_up: 0, udp_down: 0 };
    assert!(!tracker.merge_fits("c1", &one));
    assert!(tracker.merge_fits("c1", &TrafficCounter::default()));
    assert!(tracker.merge_fits("c2", &one));
    tracker.merge("c2", &one);
    assert_eq!(tracker.snapshot().get("c2").unwrap().tcp_up, 1);
}

#[test]
fn fits_with_checks_each_field() {
    let a = TrafficCounter { tcp_up: 0, tcp_down: 0, udp_up: 0, udp_down: u64::MAX - 1 };
    assert!(a.fits_with(&TrafficCounter { tcp_up: u64::MAX, tcp_down: 5, udp_up: 6, udp_down: 1 }));
    assert!(!a.fits_with(&TrafficCounter { tcp_up: 0, tcp_down: 0, udp_up: 0, udp_down: 2 }));
}

#[test]
fn put_replaces_a_counter() {
    let mut t = TrafficTable::new();
    t.put("c1", TrafficCounter { tcp_up: 5, tcp_down: 0, udp_up: 0, udp_down: 0 });
    t.put("c1", TrafficCounter { tcp_up: u64::MAX, tcp_down: 1, udp_up: 0, udp_down: 0 });
    let c = t.get("c1").unwrap();
    assert_eq!((c.tcp_up, c.tcp_down), (u64::MAX, 1));
    t.add("c2", &TrafficCounter { tcp_up: 1, tcp_down: 0, udp_up: 0, udp_down: 0 });
    t.add("c2", &TrafficCounter { tcp_up: 2, tcp_down: 0, udp_up: 0, udp_down: 0 });
    assert_eq!(t.get("c2").unwrap().tcp_up, 3);
}
