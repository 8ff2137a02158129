//! Client decision tests.

use zorv::client::{
    client_frame_action, handshake_response, server_host, udp_session_expired, ClientAction,
    UDP_SESSION_TIMEOUT_MS,
};
use zorv::common::error::ZorvError;
use zorv::protocol::frame::{Frame, FrameType};
use zorv::protocol::handshake::{auth_fail_frame, HandshakeAck};
use zorv::protocol::multiplex::{build_error_frame, build_stream_open, build_udp_datagram};
use zorv::client::{reconnect_step, ReconnectStep};

#[test]
fn server_host_strips_port() {
    assert_eq!(server_host("example.com:8443"), "example.com");
    assert_eq!(server_host("example.com"), "example.com");
    assert_eq!(server_host("[::1]:443"), "[::1]");
}

#[test]
fn handshake_answers() {
    let ack = HandshakeAck::build("sid-1", 10, 20).into_frame();
    let parsed = handshake_response(&ack).unwrap();
    assert_eq!(parsed.session_id, "sid-1");
    match handshake_response(&auth_fail_frame("Kicked by admin")) {
        Err(ZorvError::Auth(m)) => assert_eq!(m, "Kicked by admin"),
        other => panic!("unexpected {:?}", other),
    }
    let truncated = Frame::new_control(FrameType::AuthFail, vec![9, 0, b'x']);
    match handshake_response(&truncated) {
        Err(ZorvError::Auth(m)) => assert_eq!(m, "rejected by server"),
        other => panic!("unexpected {:?}", other),
    }
    let other = Frame::new_control(FrameType::Probe, vec![]);
    match handshake_response(&other) {
        Err(ZorvError::Other(m)) => assert_eq!(m, "unexpected handshake response frame type: Probe"),
        other => panic!("unexpected {:?}", other),
    }
}

#[test]
fn client_actions_per_frame_type() {
    assert!(matches!(
        client_frame_action(Frame::new_control(FrameType::HeartbeatAck, vec![])),
        ClientAction::HeartbeatAcked
    ));
    match client_frame_action(build_stream_open(3, "127.0.0.1:22", "203.0.113.9:1")) {
        ClientAction::OpenStream { stream_id, target, peer } => {
            assert_eq!(stream_id, 3);
            assert_eq!(target, "127.0.0.1:22");
            assert_eq!(peer, "203.0.113.9:1");
        }
        _ => panic!("open expected"),
    }
    match client_frame_action(build_udp_datagram(8, "8.8.8.8:53", b"q")) {
        ClientAction::Udp { stream_id, target, data } => {
            assert_eq!(stream_id, 8);
            assert_eq!(target, "8.8.8.8:53");
            assert_eq!(data, b"q".to_vec());
        }
        _ => panic!("udp expected"),
    }
    match client_frame_action(build_error_frame("bye")) {
        ClientAction::Terminate { reason } => assert_eq!(reason, "bye"),
        _ => panic!("terminate expected"),
    }
    match client_frame_action(Frame::new_control(FrameType::Error, vec![5, 0])) {
        ClientAction::Terminate { reason } => assert_eq!(reason, "unknown"),
        _ => panic!("terminate expected"),
    }
    assert!(matches!(
        client_frame_action(Frame::new(FrameType::StreamOpen, 1, vec![1])),
        ClientAction::Ignore
    ));
}

#[test]
fn udp_session_timeout_boundary() {
    assert!(!udp_session_expired(UDP_SESSION_TIMEOUT_MS, 0));
    assert!(udp_session_expired(UDP_SESSION_TIMEOUT_MS + 1, 0));
    assert!(!udp_session_expired(0, 10));
}

#[test]
fn reconnect_steps_follow_the_retry_limit() {
    assert_eq!(reconnect_step(true, 3, 0), ReconnectStep::Exit);
    assert_eq!(reconnect_step(false, 3, 0), ReconnectStep::Retry(1));
    assert_eq!(reconnect_step(false, 3, 2), ReconnectStep::Retry(3));
    assert_eq!(reconnect_step(false, 3, 3), ReconnectStep::GiveUp);
    assert_eq!(reconnect_step(false, 0, 1000), ReconnectStep::Retry(1001));
}
