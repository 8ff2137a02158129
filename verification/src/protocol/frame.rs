//! Zorv's proprietary protocol frame codec.
//!
//! Frame format (all little-endian):
//! ```text
//! | Magic(2B,0x5A3C) | Version(1B,0x01) | Type(1B) | StreamID(4B) |
//!   PayloadLen(4B) | Payload(variable) | PaddingLen(2B) | Padding(variable) | Checksum(4B,CRC32) |
//! ```
//! - CRC32 covers all bytes from Magic through Padding (excluding the Checksum itself).
//! - Control frames use StreamID = 0xFFFF_FFFF.

use vstd::prelude::*;
use crate::common::error::{ProtocolError, ZorvError};
use crate::protocol::crc::crc32_of;
use crate::common::wire::{
    copy_range, get16, get32, get_u16_le, get_u32_le, le16, le32, lemma_get16_le16, lemma_get32_le32,
    put_slice, put_u16_le, put_u32_le,
};

verus! {

/// Protocol magic number.
pub const MAGIC: u16 = 0x5A3C;

/// Protocol version.
pub const VERSION: u8 = 0x01;

/// Stream ID used by control frames.
pub const CONTROL_STREAM_ID: u32 = 0xFFFF_FFFF;

/// Fixed header length: magic(2) + version(1) + type(1) + stream_id(4) + payload_len(4).
pub const HEADER_LEN: usize = 12;

/// Trailing CRC32 checksum length.
pub const CRC_LEN: usize = 4;

/// Calls `crc32fast::hash(data)`, which the crate documents as the CRC32 (IEEE)
/// checksum: the result is `crc32_of` of the bytes (reflected polynomial
/// `0xEDB88320`, initial value and final XOR `0xFFFFFFFF`, as its baseline
/// table loop computes).
#[verifier::external_body]
fn crc32(data: &[u8]) -> (c: u32)
    ensures
        c == crc32_of(data@),
{
    crc32fast::hash(data)
}

/// Frame type.
#[derive(Debug, Clone, Copy, PartialEq, Eq, Structural)]
pub enum FrameType {
    HandshakeReq,
    HandshakeAck,
    AuthFail,
    StreamOpen,
    StreamOpenAck,
    StreamData,
    StreamClose,
    Heartbeat,
    HeartbeatAck,
    UdpDatagram,
    Probe,
    Error,
}

/// The wire byte of a frame type.
pub open spec fn type_code(t: FrameType) -> u8 {
    match t {
        FrameType::HandshakeReq => 0x01,
        FrameType::HandshakeAck => 0x02,
        FrameType::AuthFail => 0x03,
        FrameType::StreamOpen => 0x10,
        FrameType::StreamOpenAck => 0x11,
        FrameType::StreamData => 0x12,
        FrameType::StreamClose => 0x13,
        FrameType::Heartbeat => 0x20,
        FrameType::HeartbeatAck => 0x21,
        FrameType::UdpDatagram => 0x30,
        FrameType::Probe => 0xFE,
        FrameType::Error => 0xFF,
    }
}

/// The frame type of a wire byte, if it names one.
pub open spec fn type_of_code(b: u8) -> Option<FrameType> {
    if b == 0x01 {
        Some(FrameType::HandshakeReq)
    } else if b == 0x02 {
        Some(FrameType::HandshakeAck)
    } else if b == 0x03 {
        Some(FrameType::AuthFail)
    } else if b == 0x10 {
        Some(FrameType::StreamOpen)
    } else if b == 0x11 {
        Some(FrameType::StreamOpenAck)
    } else if b == 0x12 {
        Some(FrameType::StreamData)
    } else if b == 0x13 {
        Some(FrameType::StreamClose)
    } else if b == 0x20 {
        Some(FrameType::Heartbeat)
    } else if b == 0x21 {
        Some(FrameType::HeartbeatAck)
    } else if b == 0x30 {
        Some(FrameType::UdpDatagram)
    } else if b == 0xFE {
        Some(FrameType::Probe)
    } else if b == 0xFF {
        Some(FrameType::Error)
    } else {
        None
    }
}

/// Every frame type's byte maps back to it.
pub proof fn lemma_type_code_roundtrip(t: FrameType)
    ensures
        type_of_code(type_code(t)) == Some(t),
{
}

/// A byte that names a frame type is that type's code.
pub proof fn lemma_code_type_roundtrip(b: u8)
    ensures
        type_of_code(b) matches Some(t) ==> type_code(t) == b,
{
}

impl FrameType {
    /// The wire byte of this frame type.
    pub fn to_u8(self) -> (b: u8)
        ensures
            b == type_code(self),
    {
        match self {
            FrameType::HandshakeReq => 0x01,
            FrameType::HandshakeAck => 0x02,
            FrameType::AuthFail => 0x03,
            FrameType::StreamOpen => 0x10,
            FrameType::StreamOpenAck => 0x11,
            FrameType::StreamData => 0x12,
            FrameType::StreamClose => 0x13,
            FrameType::Heartbeat => 0x20,
            FrameType::HeartbeatAck => 0x21,
            FrameType::UdpDatagram => 0x30,
            FrameType::Probe => 0xFE,
            FrameType::Error => 0xFF,
        }
    }

    /// Converts a wire byte into a frame type; unknown bytes give
    /// `Protocol(InvalidFrameType(value))`.
    pub fn try_from_u8(value: u8) -> (r: Result<FrameType, ZorvError>)
        ensures
            match type_of_code(value) {
                Some(t) => r == Ok::<FrameType, ZorvError>(t),
                None => r matches Err(ZorvError::Protocol(ProtocolError::InvalidFrameType(v)))
                    && v == value,
            },
    {
        match value {
            0x01 => Ok(FrameType::HandshakeReq),
            0x02 => Ok(FrameType::HandshakeAck),
            0x03 => Ok(FrameType::AuthFail),
            0x10 => Ok(FrameType::StreamOpen),
            0x11 => Ok(FrameType::StreamOpenAck),
            0x12 => Ok(FrameType::StreamData),
            0x13 => Ok(FrameType::StreamClose),
            0x20 => Ok(FrameType::Heartbeat),
            0x21 => Ok(FrameType::HeartbeatAck),
            0x30 => Ok(FrameType::UdpDatagram),
            0xFE => Ok(FrameType::Probe),
            0xFF => Ok(FrameType::Error),
            other => Err(ZorvError::Protocol(ProtocolError::InvalidFrameType(other))),
        }
    }
}

/// A protocol frame.
#[derive(Debug, Clone, PartialEq, Eq)]
pub struct Frame {
    pub version: u8,
    pub frame_type: FrameType,
    pub stream_id: u32,
    pub payload: Vec<u8>,
    pub padding: Vec<u8>,
}

/// The bytes of a frame that the checksum covers: magic through padding.
/// Lengths are written truncated to their field widths, as the encoder writes them.
#[verifier::opaque]
pub open spec fn frame_body(
    version: u8,
    t: FrameType,
    stream_id: u32,
    payload: Seq<u8>,
    padding: Seq<u8>,
) -> Seq<u8> {
    le16(MAGIC) + seq![version, type_code(t)] + le32(stream_id) + le32(payload.len() as u32)
        + payload + le16(padding.len() as u16) + padding
}

/// The complete wire encoding of a frame: its body followed by the body's CRC32.
#[verifier::opaque]
pub open spec fn frame_encoding(f: Frame) -> Seq<u8> {
    let body = frame_body(f.version, f.frame_type, f.stream_id, f.payload@, f.padding@);
    body + le32(crc32_of(body))
}

/// What decoding the start of a buffer yields.
pub enum DecodeStep {
    /// Not enough bytes yet.
    NeedMore,
    /// The bytes are malformed.
    Fail(ProtocolError),
    /// A complete frame, occupying the first `total` bytes.
    Done { version: u8, frame_type: FrameType, stream_id: u32, payload: Seq<u8>, padding: Seq<u8>, total: nat },
}

/// Decoding of the start of `s`, step by step as the wire format prescribes:
/// header length, magic, version, type, payload length, padding length, whole
/// length, checksum.
#[verifier::opaque]
pub open spec fn decode_step(s: Seq<u8>) -> DecodeStep {
    if s.len() < 12 {
        DecodeStep::NeedMore
    } else if get16(s, 0) != MAGIC {
        DecodeStep::Fail(ProtocolError::InvalidMagic)
    } else if s[2] != VERSION {
        DecodeStep::Fail(ProtocolError::InvalidVersion(s[2]))
    } else if type_of_code(s[3]) is None {
        DecodeStep::Fail(ProtocolError::InvalidFrameType(s[3]))
    } else {
        let plen = get32(s, 8) as int;
        if s.len() < 12 + plen + 2 {
            DecodeStep::NeedMore
        } else {
            let padlen = get16(s, 12 + plen) as int;
            let total = 12 + plen + 2 + padlen + 4;
            if s.len() < total {
                DecodeStep::NeedMore
            } else if crc32_of(s.subrange(0, total - 4)) != get32(s, total - 4) {
                DecodeStep::Fail(ProtocolError::InvalidCrc)
            } else {
                DecodeStep::Done {
                    version: s[2],
                    frame_type: type_of_code(s[3]).unwrap(),
                    stream_id: get32(s, 4),
                    payload: s.subrange(12, 12 + plen),
                    padding: s.subrange(12 + plen + 2, 12 + plen + 2 + padlen),
                    total: total as nat,
                }
            }
        }
    }
}

impl Frame {
    /// Creates a normal frame (version = VERSION, empty padding).
    pub fn new(frame_type: FrameType, stream_id: u32, payload: Vec<u8>) -> (f: Frame)
        ensures
            f.version == VERSION,
            f.frame_type == frame_type,
            f.stream_id == stream_id,
            f.payload@ == payload@,
            f.padding@.len() == 0,
    {
        Frame { version: VERSION, frame_type, stream_id, payload, padding: Vec::new() }
    }

    /// Creates a control frame (StreamID = CONTROL_STREAM_ID).
    pub fn new_control(frame_type: FrameType, payload: Vec<u8>) -> (f: Frame)
        ensures
            f.version == VERSION,
            f.frame_type == frame_type,
            f.stream_id == CONTROL_STREAM_ID,
            f.payload@ == payload@,
            f.padding@.len() == 0,
    {
        Frame {
            version: VERSION,
            frame_type,
            stream_id: CONTROL_STREAM_ID,
            payload,
            padding: Vec::new(),
        }
    }

    /// Fills the padding with `0..=max` random bytes to flatten the packet-length
    /// distribution. A `max` of 0 clears the padding.
    pub fn apply_random_padding(&mut self, max: usize)
        ensures
            final(self).padding@.len() <= max,
            final(self).version == old(self).version,
            final(self).frame_type == old(self).frame_type,
            final(self).stream_id == old(self).stream_id,
            final(self).payload@ == old(self).payload@,
    {
        let len = crate::common::random::random_usize_up_to(max);
        self.padding = crate::common::random::random_bytes(len);
    }

    /// Encodes the frame and appends it to the end of `buf`.
    ///
    /// Order: magic, version, type, stream_id, payload_len, payload, padding_len,
    /// padding, crc32.
    pub fn encode(&self, buf: &mut Vec<u8>)
        ensures
            final(buf)@ == old(buf)@ + frame_encoding(*self),
    {
        let mut body: Vec<u8> = Vec::new();
        put_u16_le(&mut body, MAGIC);
        body.push(self.version);
        body.push(self.frame_type.to_u8());
        put_u32_le(&mut body, self.stream_id);
        put_u32_le(&mut body, self.payload.len() as u32);
        put_slice(&mut body, self.payload.as_slice());
        put_u16_le(&mut body, self.padding.len() as u16);
        put_slice(&mut body, self.padding.as_slice());
        let crc = crc32(body.as_slice());
        proof {
            reveal(frame_body);
            reveal(frame_encoding);
            assert(body@ =~= frame_body(
                self.version,
                self.frame_type,
                self.stream_id,
                self.payload@,
                self.padding@,
            ));
        }
        put_slice(buf, body.as_slice());
        put_u32_le(buf, crc);
        proof {
            assert(final(buf)@ =~= old(buf)@ + frame_encoding(*self));
        }
    }

    /// Encodes the frame into a new buffer.
    pub fn encode_to_vec(&self) -> (v: Vec<u8>)
        ensures
            v@ == frame_encoding(*self),
    {
        let mut v: Vec<u8> = Vec::new();
        self.encode(&mut v);
        proof {
            assert(v@ =~= frame_encoding(*self));
        }
        v
    }

    /// Tries to decode one frame from the start of `buf`.
    ///
    /// - `Ok(None)` if not enough bytes are available yet (`buf` untouched);
    /// - the matching `Err` when the magic/version/type/CRC check fails (`buf` untouched);
    /// - `Ok(Some(frame))` on success, with the consumed bytes removed from `buf`.
    pub fn decode(buf: &mut Vec<u8>) -> (r: Result<Option<Frame>, ZorvError>)
        ensures
            match decode_step(old(buf)@) {
                DecodeStep::NeedMore => r matches Ok(None) && final(buf)@ == old(buf)@,
                DecodeStep::Fail(e) => r matches Err(ZorvError::Protocol(pe)) && pe == e
                    && final(buf)@ == old(buf)@,
                DecodeStep::Done { version, frame_type, stream_id, payload, padding, total } => {
                    &&& r matches Ok(Some(f))
                    &&& f.version == version
                    &&& f.frame_type == frame_type
                    &&& f.stream_id == stream_id
                    &&& f.payload@ == payload
                    &&& f.padding@ == padding
                    &&& final(buf)@ == old(buf)@.subrange(total as int, old(buf)@.len() as int)
                },
            },
    {
        proof {
            reveal(decode_step);
        }
        let ghost s = buf@;
        let n = buf.len();
        if n < HEADER_LEN {
            return Ok(None);
        }
        let magic = get_u16_le(buf.as_slice(), 0);
        if magic != MAGIC {
            return Err(ZorvError::Protocol(ProtocolError::InvalidMagic));
        }
        let version = buf[2];
        if version != VERSION {
            return Err(ZorvError::Protocol(ProtocolError::InvalidVersion(version)));
        }
        let frame_type = match FrameType::try_from_u8(buf[3]) {
            Ok(t) => t,
            Err(e) => return Err(e),
        };
        let stream_id = get_u32_le(buf.as_slice(), 4);
        let payload_len = get_u32_le(buf.as_slice(), 8);

        let padding_len_off: u64 = 12u64 + payload_len as u64;
        if (n as u64) < padding_len_off + 2 {
            return Ok(None);
        }
        let pl = payload_len as usize;
        let padding_len = get_u16_le(buf.as_slice(), 12 + pl);

        let total: u64 = padding_len_off + 2 + padding_len as u64 + 4;
        if (n as u64) < total {
            return Ok(None);
        }
        let total = total as usize;
        let padl = padding_len as usize;

        let expected_crc = crc32(vstd::slice::slice_subrange(buf.as_slice(), 0, total - 4));
        let actual_crc = get_u32_le(buf.as_slice(), total - 4);
        if expected_crc != actual_crc {
            return Err(ZorvError::Protocol(ProtocolError::InvalidCrc));
        }

        let payload = copy_range(buf.as_slice(), 12, 12 + pl);
        let padding = copy_range(buf.as_slice(), 12 + pl + 2, 12 + pl + 2 + padl);
        let rest = buf.split_off(total);
        *buf = rest;
        Ok(Some(Frame { version, frame_type, stream_id, payload, padding }))
    }
}

/// Decoding the encoding of a well-formed frame, followed by any bytes, gives
/// that frame back and consumes exactly its encoding.
pub proof fn lemma_decode_encode(f: Frame, rest: Seq<u8>)
    requires
        f.version == VERSION,
        f.payload@.len() <= u32::MAX,
        f.padding@.len() <= u16::MAX,
    ensures
        decode_step(frame_encoding(f) + rest) == (DecodeStep::Done {
            version: f.version,
            frame_type: f.frame_type,
            stream_id: f.stream_id,
            payload: f.payload@,
            padding: f.padding@,
            total: frame_encoding(f).len(),
        }),
{
    reveal(frame_body);
    reveal(frame_encoding);
    reveal(decode_step);
    let body = frame_body(f.version, f.frame_type, f.stream_id, f.payload@, f.padding@);
    let enc = frame_encoding(f);
    let s = enc + rest;
    let plen = f.payload@.len() as int;
    let padlen = f.padding@.len() as int;
    assert(body.len() == 12 + plen + 2 + padlen);
    assert(s.subrange(0, 2) =~= le16(MAGIC));
    lemma_get16_le16(s, 0, MAGIC);
    assert(s[2] == f.version);
    assert(s[3] == type_code(f.frame_type));
    lemma_type_code_roundtrip(f.frame_type);
    assert(s.subrange(4, 8) =~= le32(f.stream_id));
    lemma_get32_le32(s, 4, f.stream_id);
    assert(s.subrange(8, 12) =~= le32(plen as u32));
    lemma_get32_le32(s, 8, plen as u32);
    assert(s.subrange(12 + plen, 12 + plen + 2) =~= le16(padlen as u16));
    lemma_get16_le16(s, 12 + plen, padlen as u16);
    let total = 12 + plen + 2 + padlen + 4;
    assert(s.subrange(0, total - 4) =~= body);
    assert(s.subrange(total - 4, total) =~= le32(crc32_of(body)));
    lemma_get32_le32(s, total - 4, crc32_of(body));
    assert(s.subrange(12, 12 + plen) =~= f.payload@);
    assert(s.subrange(12 + plen + 2, 12 + plen + 2 + padlen) =~= f.padding@);
}

/// A buffer that starts with the encoding of a well-formed frame decodes to that
/// frame, consuming exactly its encoding.
pub proof fn lemma_decode_prefix(f: Frame, s: Seq<u8>)
    requires
        f.version == VERSION,
        f.payload@.len() <= u32::MAX,
        f.padding@.len() <= u16::MAX,
        frame_encoding(f).len() <= s.len(),
        s.subrange(0, frame_encoding(f).len() as int) == frame_encoding(f),
    ensures
        decode_step(s) == (DecodeStep::Done {
            version: f.version,
            frame_type: f.frame_type,
            stream_id: f.stream_id,
            payload: f.payload@,
            padding: f.padding@,
            total: frame_encoding(f).len(),
        }),
{
    let enc = frame_encoding(f);
    let rest = s.subrange(enc.len() as int, s.len() as int);
    assert(s =~= enc + rest);
    lemma_decode_encode(f, rest);
}

/// Decoding exactly the encoding of a well-formed frame gives that frame.
pub proof fn lemma_decode_whole(f: Frame)
    requires
        f.version == VERSION,
        f.payload@.len() <= u32::MAX,
        f.padding@.len() <= u16::MAX,
    ensures
        decode_step(frame_encoding(f)) == (DecodeStep::Done {
            version: f.version,
            frame_type: f.frame_type,
            stream_id: f.stream_id,
            payload: f.payload@,
            padding: f.padding@,
            total: frame_encoding(f).len(),
        }),
{
    let enc = frame_encoding(f);
    assert(enc.subrange(0, enc.len() as int) =~= enc);
    lemma_decode_prefix(f, enc);
}

/// A decoded frame always occupies at least the 18 bytes of an empty frame, so a
/// loop that decodes until `NeedMore` or `Fail` terminates.
pub proof fn lemma_decode_consumes(s: Seq<u8>)
    ensures
        decode_step(s) matches DecodeStep::Done { total, .. } ==> 18 <= total <= s.len(),
{
    reveal(decode_step);
}

/// Every strict prefix of a well-formed frame's encoding (a frame cut short
/// anywhere: in the header, the payload, the padding or the checksum) decodes to
/// `NeedMore`, so `Frame::decode` waits for more bytes and consumes nothing.
pub proof fn lemma_decode_strict_prefix(f: Frame, k: int)
    requires
        f.version == VERSION,
        f.payload@.len() <= u32::MAX,
        f.padding@.len() <= u16::MAX,
        0 <= k < frame_encoding(f).len(),
    ensures
        decode_step(frame_encoding(f).subrange(0, k)) == DecodeStep::NeedMore,
{
    reveal(frame_body);
    reveal(frame_encoding);
    reveal(decode_step);
    let body = frame_body(f.version, f.frame_type, f.stream_id, f.payload@, f.padding@);
    let enc = frame_encoding(f);
    let s = enc.subrange(0, k);
    let plen = f.payload@.len() as int;
    let padlen = f.padding@.len() as int;
    assert(body.len() == 12 + plen + 2 + padlen);
    assert(enc.len() == 12 + plen + 2 + padlen + 4);
    if k >= 12 {
        assert(s.subrange(0, 2) =~= le16(MAGIC));
        lemma_get16_le16(s, 0, MAGIC);
        assert(s[2] == f.version);
        assert(s[3] == type_code(f.frame_type));
        lemma_type_code_roundtrip(f.frame_type);
        assert(s.subrange(8, 12) =~= le32(plen as u32));
        lemma_get32_le32(s, 8, plen as u32);
        if k >= 12 + plen + 2 {
            assert(s.subrange(12 + plen, 12 + plen + 2) =~= le16(padlen as u16));
            lemma_get16_le16(s, 12 + plen, padlen as u16);
        }
    }
}

/// A frame with one byte of its stream id, payload or padding changed in
/// transit (the checksum left as sent) is refused with `InvalidCrc`.
pub proof fn lemma_decode_detects_corruption(f: Frame, j: int, x: u8)
    requires
        f.version == VERSION,
        f.payload@.len() <= u32::MAX,
        f.padding@.len() <= u16::MAX,
        4 <= j < 8 || 12 <= j < 12 + f.payload@.len() || 14 + f.payload@.len() <= j < 14
            + f.payload@.len() + f.padding@.len(),
        x != frame_encoding(f)[j],
    ensures
        decode_step(frame_encoding(f).update(j, x)) == DecodeStep::Fail(ProtocolError::InvalidCrc),
{
    reveal(frame_body);
    reveal(frame_encoding);
    reveal(decode_step);
    let body = frame_body(f.version, f.frame_type, f.stream_id, f.payload@, f.padding@);
    let enc = frame_encoding(f);
    let s = enc.update(j, x);
    let plen = f.payload@.len() as int;
    let padlen = f.padding@.len() as int;
    let total = 12 + plen + 2 + padlen + 4;
    assert(body.len() == 12 + plen + 2 + padlen);
    assert(enc.len() == total);
    assert(s.subrange(0, 2) =~= le16(MAGIC));
    lemma_get16_le16(s, 0, MAGIC);
    assert(s[2] == f.version);
    assert(s[3] == type_code(f.frame_type));
    lemma_type_code_roundtrip(f.frame_type);
    assert(s.subrange(8, 12) =~= le32(plen as u32));
    lemma_get32_le32(s, 8, plen as u32);
    assert(s.subrange(12 + plen, 12 + plen + 2) =~= le16(padlen as u16));
    lemma_get16_le16(s, 12 + plen, padlen as u16);
    assert(s.subrange(0, total - 4) =~= body.update(j, x));
    assert(s.subrange(total - 4, total) =~= le32(crc32_of(body)));
    lemma_get32_le32(s, total - 4, crc32_of(body));
    assert(enc[j] == body[j]);
    crate::protocol::crc::lemma_crc32_detects_byte_change(body, j, x);
}

} // verus!
