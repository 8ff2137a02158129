//! Frame encode/decode tests.

use zorv::common::error::{ProtocolError, ZorvError};
use zorv::protocol::frame::{Frame, FrameType, CONTROL_STREAM_ID, MAGIC, VERSION};

#[test]
fn test_roundtrip() {
    let frame = Frame::new(FrameType::StreamData, 42, b"hello".to_vec());
    let mut buf = Vec::new();
    frame.encode(&mut buf);
    assert_eq!(buf.len(), 12 + 5 + 2 + 0 + 4);
    let decoded = Frame::decode(&mut buf).expect("decode err").expect("incomplete");
    assert_eq!(decoded, frame);
    assert!(buf.is_empty(), "buffer should be fully consumed");
}

#[test]
fn test_with_padding() {
    let mut frame = Frame::new(FrameType::StreamData, 7, b"hi".to_vec());
    frame.padding = vec![0xAB; 8];
    let mut buf = Vec::new();
    frame.encode(&mut buf);
    let decoded = Frame::decode(&mut buf).expect("decode err").expect("incomplete");
    assert_eq!(decoded, frame);
    assert!(buf.is_empty());
}

#[test]
fn test_control_frame() {
    let frame = Frame::new_control(FrameType::Heartbeat, b"ts".to_vec());
    assert_eq!(frame.stream_id, CONTROL_STREAM_ID);
    assert_eq!(frame.frame_type, FrameType::Heartbeat);
    let mut buf = Vec::new();
    frame.encode(&mut buf);
    let decoded = Frame::decode(&mut buf).expect("decode err").expect("incomplete");
    assert_eq!(decoded.stream_id, CONTROL_STREAM_ID);
    assert_eq!(decoded.frame_type, FrameType::Heartbeat);
}

#[test]
fn test_invalid_magic() {
    let frame = Frame::new(FrameType::StreamData, 1, b"x".to_vec());
    let mut buf = Vec::new();
    frame.encode(&mut buf);
    buf[0] = 0x00;
    let err = Frame::decode(&mut buf).unwrap_err();
    assert!(matches!(err, ZorvError::Protocol(ProtocolError::InvalidMagic)));
}

#[test]
fn test_crc_mismatch() {
    let frame = Frame::new(FrameType::StreamData, 9, b"payload".to_vec());
    let mut buf = Vec::new();
    frame.encode(&mut buf);
    buf[14] ^= 0xFF;
    let err = Frame::decode(&mut buf).unwrap_err();
    assert!(matches!(err, ZorvError::Protocol(ProtocolError::InvalidCrc)));
}

#[test]
fn test_incomplete_frame() {
    let frame = Frame::new(FrameType::StreamData, 1, b"hello".to_vec());
    let mut buf = Vec::new();
    frame.encode(&mut buf);
    buf.truncate(5);
    assert!(buf.len() < 12);
    let res = Frame::decode(&mut buf).expect("decode should not error on incomplete");
    assert!(res.is_none());
}

#[test]
fn test_invalid_frame_type() {
    let payload = b"data".to_vec();
    let mut buf: Vec<u8> = Vec::new();
    buf.extend_from_slice(&MAGIC.to_le_bytes());
    buf.push(VERSION);
    buf.push(0x99);
    buf.extend_from_slice(&123u32.to_le_bytes());
    buf.extend_from_slice(&(payload.len() as u32).to_le_bytes());
    buf.extend_from_slice(&payload);
    buf.extend_from_slice(&0u16.to_le_bytes());
    let crc = crc32fast::hash(&buf[..]);
    buf.extend_from_slice(&crc.to_le_bytes());
    let err = Frame::decode(&mut buf).unwrap_err();
    assert!(matches!(err, ZorvError::Protocol(ProtocolError::InvalidFrameType(0x99))));
}

#[test]
fn test_multiple_frames_in_buffer() {
    let f1 = Frame::new(FrameType::StreamData, 1, b"aaa".to_vec());
    let f2 = Frame::new_control(FrameType::Heartbeat, b"bb".to_vec());
    let mut buf = Vec::new();
    f1.encode(&mut buf);
    f2.encode(&mut buf);
    let d1 = Frame::decode(&mut buf).expect("decode err 1").expect("frame 1 missing");
    assert_eq!(d1, f1);
    let d2 = Frame::decode(&mut buf).expect("decode err 2").expect("frame 2 missing");
    assert_eq!(d2, f2);
    assert!(buf.is_empty(), "buffer should be empty after both frames");
}

#[test]
fn apply_random_padding_within_range() {
    for _ in 0..100 {
        let mut frame = Frame::new(FrameType::StreamData, 1, vec![1, 2, 3]);
        frame.apply_random_padding(255);
        assert!(frame.padding.len() <= 255, "len={}", frame.padding.len());
    }
}

#[test]
fn apply_random_padding_zero_max() {
    let mut frame = Frame::new(FrameType::StreamData, 1, vec![1, 2, 3]);
    frame.apply_random_padding(0);
    assert!(frame.padding.is_empty());
}

#[test]
fn apply_random_padding_preserves_payload() {
    let mut frame = Frame::new(FrameType::StreamData, 7, vec![9, 9, 9]);
    frame.apply_random_padding(64);
    assert_eq!(frame.payload, vec![9, 9, 9]);
    assert!(frame.padding.len() <= 64);
}

#[test]
fn decode_of_encoding_with_trailing_bytes_keeps_the_rest() {
    let frame = Frame::new(FrameType::UdpDatagram, 5, vec![1, 2, 3, 4]);
    let mut buf = frame.encode_to_vec();
    buf.extend_from_slice(&[7, 7, 7]);
    let decoded = Frame::decode(&mut buf).unwrap().unwrap();
    assert_eq!(decoded, frame);
    assert_eq!(buf, vec![7, 7, 7]);
}

#[test]
fn frame_type_codes_roundtrip() {
    for b in 0u8..=255 {
        if let Ok(t) = FrameType::try_from_u8(b) {
            assert_eq!(t.to_u8(), b);
        }
    }
    assert_eq!(FrameType::Heartbeat.to_u8(), 0x20);
    assert!(FrameType::try_from_u8(0x99).is_err());
}

#[test]
fn every_strict_prefix_waits_for_more() {
    let mut f = Frame::new(FrameType::StreamData, 7, b"payload bytes".to_vec());
    f.padding = vec![1, 2, 3];
    let enc = f.encode_to_vec();
    for k in 0..enc.len() {
        let mut buf = enc[..k].to_vec();
        assert!(matches!(Frame::decode(&mut buf), Ok(None)), "prefix {k}");
        assert_eq!(buf.len(), k);
    }
}

fn bitwise_crc32(data: &[u8]) -> u32 {
    let mut c: u32 = 0xFFFF_FFFF;
    for &b in data {
        c ^= b as u32;
        for _ in 0..8 {
            c = if c & 1 == 1 { (c >> 1) ^ 0xEDB8_8320 } else { c >> 1 };
        }
    }
    c ^ 0xFFFF_FFFF
}

#[test]
fn checksum_is_bitwise_crc32_and_catches_byte_changes() {
    assert_eq!(bitwise_crc32(b"123456789"), 0xCBF4_3926);
    let mut f = Frame::new(FrameType::StreamData, 0x0102_0304, b"hello tunnel".to_vec());
    f.padding = vec![9, 8, 7];
    let enc = f.encode_to_vec();
    let n = enc.len();
    let crc = u32::from_le_bytes([enc[n - 4], enc[n - 3], enc[n - 2], enc[n - 1]]);
    assert_eq!(crc, bitwise_crc32(&enc[..n - 4]));
    let payload_len = f.payload.len();
    let positions: Vec<usize> = (4..8)
        .chain(12..12 + payload_len)
        .chain(14 + payload_len..14 + payload_len + 3)
        .collect();
    for j in positions {
        for delta in [1u8, 0x80, 0xFF] {
            let mut bad = enc.clone();
            bad[j] ^= delta;
            assert!(
                matches!(Frame::decode(&mut bad), Err(ZorvError::Protocol(ProtocolError::InvalidCrc))),
                "byte {j}"
            );
        }
    }
}
