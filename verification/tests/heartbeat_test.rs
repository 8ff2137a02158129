//! Heartbeat frame and state tests.

use zorv::common::crypto::now_millis;
use zorv::protocol::frame::FrameType;
use zorv::protocol::heartbeat::{
    heartbeat_ack_frame, heartbeat_frame, parse_timestamp, random_heartbeat_interval, HeartbeatState,
    HEARTBEAT_MISS_MAX,
};

#[test]
fn random_interval_within_range() {
    for _ in 0..200 {
        let secs = random_heartbeat_interval(5, 10);
        assert!(secs >= 5 && secs <= 10, "got {}s", secs);
    }
    assert_eq!(random_heartbeat_interval(7, 7), 7);
}

#[test]
fn heartbeat_frame_roundtrip() {
    let frame = heartbeat_frame();
    assert_eq!(frame.frame_type, FrameType::Heartbeat);
    let ts = parse_timestamp(&frame.payload).unwrap();
    let now = now_millis();
    let diff = if now > ts { now - ts } else { ts - now };
    assert!(diff < 5_000, "ts diff too large: {}ms", diff);
}

#[test]
fn heartbeat_ack_echoes_timestamp() {
    let ts = now_millis().saturating_sub(1_000);
    let frame = heartbeat_ack_frame(ts);
    assert_eq!(frame.frame_type, FrameType::HeartbeatAck);
    assert_eq!(parse_timestamp(&frame.payload).unwrap(), ts);
}

#[test]
fn parse_timestamp_too_short() {
    assert!(parse_timestamp(&[0u8, 1, 2]).is_err());
    assert!(parse_timestamp(&[]).is_err());
}

#[test]
fn heartbeat_state_miss_and_dead() {
    let mut s = HeartbeatState::new(5, 10);
    assert!(!s.is_dead());
    s.on_heartbeat_sent();
    s.on_heartbeat_sent();
    assert!(!s.is_dead());
    s.on_heartbeat_sent();
    assert!(s.is_dead());
}

#[test]
fn heartbeat_state_ack_resets() {
    let mut s = HeartbeatState::new(5, 10);
    s.on_heartbeat_sent();
    s.on_heartbeat_sent();
    assert_eq!(s.miss_count, 2);
    s.on_heartbeat_ack();
    assert_eq!(s.miss_count, 0);
    assert!(!s.is_dead());
}

#[test]
fn heartbeat_state_next_interval_in_range() {
    let s = HeartbeatState::new(3, 4);
    for _ in 0..50 {
        let i = s.next_interval();
        assert!(i >= 3 && i <= 4);
    }
    assert_eq!(s.max_miss, HEARTBEAT_MISS_MAX);
}

#[test]
fn parse_timestamp_reads_first_eight_bytes() {
    let mut p = 0x0102030405060708u64.to_le_bytes().to_vec();
    p.push(0xFF);
    assert_eq!(parse_timestamp(&p).unwrap(), 0x0102030405060708);
}
