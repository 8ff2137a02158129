//! Server tunnel decision tests.

use zorv::common::crypto::hmac_sha256;
use zorv::protocol::frame::{Frame, FrameType};
use zorv::protocol::handshake::{parse_handshake_ack, HandshakeReq, PKG_VERSION};
use zorv::protocol::heartbeat::parse_timestamp;
use zorv::protocol::multiplex::{build_stream_open_ack, build_udp_datagram};
use zorv::server::tunnel::{
    admission, admission_at, idle_expired, new_session_ack, server_frame_action, ServerAction,
};

fn req(client_id: &str, version: &str, token: &str, ts: u64) -> HandshakeReq {
    let mac = hmac_sha256(token.as_bytes(), &ts.to_le_bytes());
    let mut hmac = [0u8; 32];
    hmac.copy_from_slice(&mac);
    HandshakeReq {
        client_id: client_id.to_string(),
        version: version.to_string(),
        timestamp: ts,
        hmac,
        capabilities: "tcp".to_string(),
    }
}

#[test]
fn admission_order_and_reasons() {
    let now = 50_000_000u64;
    assert_eq!(admission_at(&req("web-1", PKG_VERSION, "t", now), false, "t", now), None);
    assert_eq!(
        admission_at(&req("bad id", PKG_VERSION, "t", now), true, "t", now).as_deref(),
        Some("invalid client_id")
    );
    assert_eq!(
        admission_at(&req("web-1", "0.0.1", "t", now), true, "t", now).as_deref(),
        Some("Kicked by admin")
    );
    assert_eq!(
        admission_at(&req("web-1", "0.0.1", "t", now), false, "t", now).as_deref(),
        Some("auth error: version mismatch: client=0.0.1 server=1.1.0")
    );
    assert_eq!(
        admission_at(&req("web-1", PKG_VERSION, "x", now), false, "t", now).as_deref(),
        Some("auth error: invalid token")
    );
    assert_eq!(
        admission_at(&req("web-1", PKG_VERSION, "t", now - 31_000), false, "t", now).as_deref(),
        Some("auth error: timestamp out of window")
    );
    let fresh = HandshakeReq::build("web-1", "t", "tcp");
    assert_eq!(admission(&fresh, false, "t"), None);
}

#[test]
fn session_ack_announces_the_session() {
    let (sid, ack) = new_session_ack(25, 55);
    assert_eq!(sid.len(), 36);
    let parsed = parse_handshake_ack(&ack).unwrap();
    assert_eq!(parsed.session_id, sid);
    assert_eq!(parsed.heartbeat_min, 25);
    assert_eq!(parsed.heartbeat_max, 55);
}

#[test]
fn server_actions_per_frame_type() {
    let hb = Frame::new_control(FrameType::Heartbeat, 77u64.to_le_bytes().to_vec());
    match server_frame_action(hb) {
        ServerAction::Reply(f) => {
            assert_eq!(f.frame_type, FrameType::HeartbeatAck);
            assert_eq!(parse_timestamp(&f.payload).unwrap(), 77);
        }
        _ => panic!("heartbeat must be answered"),
    }
    let short = Frame::new_control(FrameType::Heartbeat, vec![1, 2]);
    assert!(matches!(server_frame_action(short), ServerAction::Ignore));
    match server_frame_action(build_stream_open_ack(9, false)) {
        ServerAction::ResolveOpen { stream_id, ok } => {
            assert_eq!(stream_id, 9);
            assert!(!ok);
        }
        _ => panic!("open ack expected"),
    }
    match server_frame_action(Frame::new(FrameType::StreamData, 4, b"xy".to_vec())) {
        ServerAction::Data { stream_id, payload } => {
            assert_eq!(stream_id, 4);
            assert_eq!(payload, b"xy".to_vec());
        }
        _ => panic!("data expected"),
    }
    assert!(matches!(
        server_frame_action(Frame::new(FrameType::StreamClose, 4, vec![])),
        ServerAction::Close { stream_id: 4 }
    ));
    match server_frame_action(build_udp_datagram(6, "", b"reply")) {
        ServerAction::Udp { stream_id, data } => {
            assert_eq!(stream_id, 6);
            assert_eq!(data, b"reply".to_vec());
        }
        _ => panic!("udp expected"),
    }
    assert!(matches!(
        server_frame_action(Frame::new_control(FrameType::Probe, vec![])),
        ServerAction::Ignore
    ));
}

#[test]
fn idle_timeout_boundary() {
    let hb_max = 55u32;
    let timeout = (55 * 3 + 10) * 1000;
    assert!(!idle_expired(1_000 + timeout, 1_000, hb_max));
    assert!(idle_expired(1_000 + timeout + 1, 1_000, hb_max));
    assert!(!idle_expired(0, 1_000, hb_max));
}
