//! Handshake request/ack tests.

use zorv::common::crypto::{hmac_sha256, now_millis};
use zorv::common::error::ZorvError;
use zorv::protocol::frame::FrameType;
use zorv::protocol::handshake::{
    auth_fail_frame, parse_handshake_ack, parse_handshake_req, verify_handshake, verify_handshake_at,
    verify_version, HandshakeAck, HandshakeReq, PKG_VERSION,
};

#[test]
fn handshake_req_roundtrip() {
    let req = HandshakeReq::build("client-1", "secret-token", "tcp");
    let payload = req.encode_payload();
    let decoded = HandshakeReq::decode_payload(&payload).unwrap();
    assert_eq!(decoded.client_id, req.client_id);
    assert_eq!(decoded.version, PKG_VERSION);
    assert_eq!(decoded.timestamp, req.timestamp);
    assert_eq!(decoded.hmac, req.hmac);
    assert_eq!(decoded.capabilities, req.capabilities);
}

#[test]
fn handshake_req_into_frame_and_parse() {
    let req = HandshakeReq::build("client-7", "tok", "tcp");
    let frame = req.into_frame();
    assert_eq!(frame.frame_type, FrameType::HandshakeReq);
    let parsed = parse_handshake_req(&frame).unwrap();
    assert_eq!(parsed.client_id, "client-7");
    assert_eq!(parsed.version, PKG_VERSION);
    assert_eq!(parsed.capabilities, "tcp");
}

#[test]
fn handshake_ack_roundtrip() {
    let ack = HandshakeAck::build("session-uuid-1234", 5, 30);
    let payload = ack.encode_payload();
    let decoded = HandshakeAck::decode_payload(&payload).unwrap();
    assert_eq!(decoded.session_id, ack.session_id);
    assert_eq!(decoded.heartbeat_min, 5);
    assert_eq!(decoded.heartbeat_max, 30);
}

#[test]
fn handshake_ack_into_frame_and_parse() {
    let ack = HandshakeAck::build("sid-abc", 10, 60);
    let frame = ack.into_frame();
    assert_eq!(frame.frame_type, FrameType::HandshakeAck);
    let parsed = parse_handshake_ack(&frame).unwrap();
    assert_eq!(parsed.session_id, "sid-abc");
    assert_eq!(parsed.heartbeat_min, 10);
    assert_eq!(parsed.heartbeat_max, 60);
}

#[test]
fn parse_handshake_req_wrong_type() {
    let ack = HandshakeAck::build("s", 1, 2);
    let frame = ack.into_frame();
    assert!(parse_handshake_req(&frame).is_err());
}

#[test]
fn verify_handshake_correct_token() {
    let req = HandshakeReq::build("client-1", "secret-token", "tcp");
    assert!(verify_handshake(&req, "secret-token").is_ok());
}

#[test]
fn verify_handshake_wrong_token() {
    let req = HandshakeReq::build("client-1", "secret-token", "tcp");
    let err = verify_handshake(&req, "wrong-token").unwrap_err();
    assert!(matches!(err, ZorvError::Auth(_)));
}

#[test]
fn verify_handshake_expired_timestamp() {
    let old_ts = now_millis().saturating_sub(60_000);
    let ts_bytes = old_ts.to_le_bytes();
    let hmac_vec = hmac_sha256("secret-token".as_bytes(), &ts_bytes);
    let mut hmac_arr = [0u8; 32];
    hmac_arr.copy_from_slice(&hmac_vec);
    let req = HandshakeReq {
        client_id: "client-1".to_string(),
        version: PKG_VERSION.to_string(),
        timestamp: old_ts,
        hmac: hmac_arr,
        capabilities: "tcp".to_string(),
    };
    let err = verify_handshake(&req, "secret-token").unwrap_err();
    assert!(matches!(err, ZorvError::Auth(_)));
}

#[test]
fn verify_version_matches() {
    let v = PKG_VERSION;
    assert!(verify_version(v, v).is_ok());
}

#[test]
fn verify_version_mismatch() {
    let err = verify_version("9.9.9", PKG_VERSION).unwrap_err();
    assert!(matches!(err, ZorvError::Auth(_)));
    assert!(err.to_message().contains("version mismatch"));
}

#[test]
fn auth_fail_frame_layout() {
    let frame = auth_fail_frame("bad token");
    assert_eq!(frame.frame_type, FrameType::AuthFail);
    let len = u16::from_le_bytes([frame.payload[0], frame.payload[1]]) as usize;
    assert_eq!(len, "bad token".len());
    let buf = frame.payload[2..2 + len].to_vec();
    assert_eq!(String::from_utf8(buf).unwrap(), "bad token");
}

#[test]
fn decode_payload_incomplete() {
    assert!(HandshakeReq::decode_payload(&[0u8]).is_err());
    assert!(HandshakeReq::decode_payload(&[3u8, 0u8]).is_err());
}

#[test]
fn verify_handshake_at_reasons() {
    let ts = 5_000_000u64;
    let mac = hmac_sha256(b"tok", &ts.to_le_bytes());
    let mut hmac = [0u8; 32];
    hmac.copy_from_slice(&mac);
    let req = HandshakeReq {
        client_id: "c".to_string(),
        version: PKG_VERSION.to_string(),
        timestamp: ts,
        hmac,
        capabilities: "tcp".to_string(),
    };
    assert!(verify_handshake_at(&req, "tok", ts + 30_000).is_ok());
    match verify_handshake_at(&req, "tok", ts + 30_001) {
        Err(ZorvError::Auth(m)) => assert_eq!(m, "timestamp out of window"),
        other => panic!("unexpected {:?}", other),
    }
    match verify_handshake_at(&req, "other", ts) {
        Err(ZorvError::Auth(m)) => assert_eq!(m, "invalid token"),
        other => panic!("unexpected {:?}", other),
    }
}

#[test]
fn version_mismatch_message_names_both_versions() {
    match verify_version("0.9.0", "1.1.0") {
        Err(ZorvError::Auth(m)) => assert_eq!(m, "version mismatch: client=0.9.0 server=1.1.0"),
        other => panic!("unexpected {:?}", other),
    }
}

#[test]
fn handshake_payloads_ignore_trailing_bytes() {
    let req = HandshakeReq::build("client-9", "tok", "tcp,udp");
    let mut p = req.encode_payload();
    p.extend_from_slice(&[9, 9, 9, 0, 1]);
    let back = HandshakeReq::decode_payload(&p).unwrap();
    assert_eq!(back.client_id, req.client_id);
    assert_eq!(back.version, req.version);
    assert_eq!(back.timestamp, req.timestamp);
    assert_eq!(back.hmac, req.hmac);
    assert_eq!(back.capabilities, req.capabilities);
    let ack = HandshakeAck::build("sess", 5, 30);
    let mut q = ack.encode_payload();
    q.push(7);
    let a = HandshakeAck::decode_payload(&q).unwrap();
    assert_eq!((a.session_id.as_str(), a.heartbeat_min, a.heartbeat_max), ("sess", 5, 30));
}
