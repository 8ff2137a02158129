//! Multiplexing frame tests.

use zorv::protocol::frame::FrameType;
use zorv::protocol::multiplex::{
    build_error_frame, build_stream_close, build_stream_data, build_stream_open,
    build_stream_open_ack, build_udp_datagram, parse_error_payload, parse_stream_open_ack_payload,
    parse_stream_open_payload, parse_udp_datagram, StreamIdAllocator,
};

#[test]
fn allocator_client_odd() {
    let mut a = StreamIdAllocator::new_client();
    assert_eq!(a.next().unwrap(), 1);
    assert_eq!(a.next().unwrap(), 3);
    assert_eq!(a.next().unwrap(), 5);
}

#[test]
fn allocator_server_even() {
    let mut a = StreamIdAllocator::new_server();
    assert_eq!(a.next().unwrap(), 2);
    assert_eq!(a.next().unwrap(), 4);
    assert_eq!(a.next().unwrap(), 6);
}

#[test]
fn stream_open_roundtrip() {
    let frame = build_stream_open(42, "127.0.0.1:8080", "203.0.113.7:54321");
    assert_eq!(frame.frame_type, FrameType::StreamOpen);
    assert_eq!(frame.stream_id, 42);
    let (target, peer) = parse_stream_open_payload(&frame.payload).unwrap();
    assert_eq!(target, "127.0.0.1:8080");
    assert_eq!(peer, "203.0.113.7:54321");
}

#[test]
fn stream_open_roundtrip_empty_peer() {
    let mut payload = Vec::new();
    payload.extend_from_slice(&("127.0.0.1:8080".len() as u16).to_le_bytes());
    payload.extend_from_slice(b"127.0.0.1:8080");
    let (target, peer) = parse_stream_open_payload(&payload).unwrap();
    assert_eq!(target, "127.0.0.1:8080");
    assert_eq!(peer, "");
}

#[test]
fn stream_open_ack_roundtrip_ok() {
    let frame = build_stream_open_ack(7, true);
    assert_eq!(frame.frame_type, FrameType::StreamOpenAck);
    assert_eq!(frame.stream_id, 7);
    let (ok, sid) = parse_stream_open_ack_payload(&frame.payload).unwrap();
    assert!(ok);
    assert_eq!(sid, 7);
}

#[test]
fn stream_open_ack_roundtrip_rejected() {
    let frame = build_stream_open_ack(11, false);
    let (ok, sid) = parse_stream_open_ack_payload(&frame.payload).unwrap();
    assert!(!ok);
    assert_eq!(sid, 11);
}

#[test]
fn stream_data_and_close_frames() {
    let data = build_stream_data(99, b"hello");
    assert_eq!(data.frame_type, FrameType::StreamData);
    assert_eq!(data.stream_id, 99);
    assert_eq!(data.payload, b"hello");
    let close = build_stream_close(99);
    assert_eq!(close.frame_type, FrameType::StreamClose);
    assert_eq!(close.stream_id, 99);
    assert!(close.payload.is_empty());
}

#[test]
fn parse_stream_open_payload_incomplete() {
    assert!(parse_stream_open_payload(&[0u8]).is_err());
    assert!(parse_stream_open_payload(&[5u8, 0u8, b'a']).is_err());
}

#[test]
fn parse_stream_open_ack_payload_incomplete() {
    assert!(parse_stream_open_ack_payload(&[0u8, 1, 2]).is_err());
    assert!(parse_stream_open_ack_payload(&[]).is_err());
}

#[test]
fn udp_datagram_roundtrip() {
    let frame = build_udp_datagram(42, "8.8.8.8:53", b"query");
    assert_eq!(frame.frame_type, FrameType::UdpDatagram);
    assert_eq!(frame.stream_id, 42);
    let (target, data) = parse_udp_datagram(&frame.payload).unwrap();
    assert_eq!(target, "8.8.8.8:53");
    assert_eq!(data, b"query");
}

#[test]
fn udp_datagram_empty_target() {
    let frame = build_udp_datagram(7, "", b"reply");
    let (target, data) = parse_udp_datagram(&frame.payload).unwrap();
    assert_eq!(target, "");
    assert_eq!(data, b"reply");
}

#[test]
fn parse_udp_datagram_incomplete() {
    assert!(parse_udp_datagram(&[0u8]).is_err());
    assert!(parse_udp_datagram(&[5u8, 0u8, b'a', b'b']).is_err());
}

#[test]
fn error_frame_roundtrip() {
    let frame = build_error_frame("已被管理员踢出");
    assert_eq!(frame.frame_type, FrameType::Error);
    assert_eq!(parse_error_payload(&frame.payload).unwrap(), "已被管理员踢出");
}

#[test]
fn error_payload_truncated_is_reported() {
    let err = parse_error_payload(&[10u8, 0, b'a']).unwrap_err();
    assert_eq!(err.to_message(), "other error: error payload truncated");
}

#[test]
fn allocated_ids_never_collide_between_sides() {
    let mut c = StreamIdAllocator::new_client();
    let mut s = StreamIdAllocator::new_server();
    for _ in 0..100 {
        let a = c.next().unwrap();
        let b = s.next().unwrap();
        assert_eq!(a % 2, 1);
        assert_eq!(b % 2, 0);
        assert_ne!(a, b);
    }
}

#[test]
fn stream_open_keeps_utf8_peer_and_reads_legacy_payload() {
    let f = build_stream_open(4, "svc:80", "客户:1");
    assert_eq!(parse_stream_open_payload(&f.payload).unwrap(), ("svc:80".to_string(), "客户:1".to_string()));
    let mut legacy = vec![14u8, 0];
    legacy.extend_from_slice(b"127.0.0.1:8080");
    assert_eq!(parse_stream_open_payload(&legacy).unwrap(), ("127.0.0.1:8080".to_string(), String::new()));
    assert!(parse_stream_open_payload(&[5u8, 0, b'a']).is_err());
}
