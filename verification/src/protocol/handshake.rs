//! Zorv protocol handshake.
//!
//! Payload layouts (inside `Frame.payload`, all little-endian):
//! ```text
//! HANDSHAKE_REQ:
//!   client_id_len: u16, client_id: bytes
//!   version_len: u16, version: bytes    (the client's package version)
//!   timestamp: u64 (milliseconds)
//!   hmac: 32 bytes (HMAC-SHA256(token, timestamp_le_bytes))
//!   capabilities_len: u16, capabilities: bytes
//!
//! HANDSHAKE_ACK:
//!   session_id_len: u16, session_id: bytes (uuid string)
//!   heartbeat_min: u32 (seconds), heartbeat_max: u32 (seconds)
//!
//! AUTH_FAIL:
//!   reason_len: u16, reason: bytes
//! ```
//!
//! The server rejects clients whose `version` differs from its own (`verify_version`).

use vstd::prelude::*;
use vstd::utf8::{decode_utf8, encode_utf8, valid_utf8};
use crate::common::crypto::{
    hmac_sha256, hmac_sha256_of, now_millis, within_window, TIMESTAMP_WINDOW_SECS,
};
use crate::common::error::{push_str, ProtocolError, ZorvError};
use crate::common::text::{str_bytes, utf8_to_string};
use crate::common::wire::{
    copy_range, get16, get32, get64, get_u16_le, get_u32_le, get_u64_le, le16, le32, le64,
    lemma_get16_le16, lemma_get32_le32, lemma_get64_le64, put_slice, put_u16_le, put_u32_le,
    put_u64_le,
};
use crate::protocol::frame::{Frame, FrameType, CONTROL_STREAM_ID, VERSION};

verus! {

broadcast use {vstd::utf8::encode_utf8_decode_utf8, vstd::utf8::encode_utf8_valid_utf8};

/// HMAC byte length (SHA256 outputs 32 bytes).
pub const HMAC_LEN: usize = 32;

/// The package version this library reports and accepts.
pub const PKG_VERSION: &'static str = "1.1.0";

/// Handshake request.
#[derive(Debug, Clone, PartialEq, Eq)]
pub struct HandshakeReq {
    pub client_id: String,
    pub version: String,
    pub timestamp: u64,
    pub hmac: [u8; 32],
    pub capabilities: String,
}

/// Handshake acknowledgement.
#[derive(Debug, Clone, PartialEq, Eq)]
pub struct HandshakeAck {
    pub session_id: String,
    pub heartbeat_min: u32,
    pub heartbeat_max: u32,
}

/// A length-prefixed UTF-8 string: `len: u16` then the bytes (length truncated to 16 bits).
pub open spec fn str16(s: Seq<char>) -> Seq<u8> {
    le16(encode_utf8(s).len() as u16) + encode_utf8(s)
}

/// The HANDSHAKE_REQ payload of the given fields.
pub open spec fn req_payload(
    client_id: Seq<char>,
    version: Seq<char>,
    timestamp: u64,
    hmac: Seq<u8>,
    capabilities: Seq<char>,
) -> Seq<u8> {
    str16(client_id) + str16(version) + le64(timestamp) + hmac + str16(capabilities)
}

/// The HANDSHAKE_ACK payload of the given fields.
pub open spec fn ack_payload(session_id: Seq<char>, heartbeat_min: u32, heartbeat_max: u32) -> Seq<
    u8,
> {
    str16(session_id) + le32(heartbeat_min) + le32(heartbeat_max)
}

/// The HMAC that a handshake request carries: `HMAC-SHA256(token, timestamp_le_bytes)`.
pub open spec fn handshake_mac(token: Seq<char>, timestamp: u64) -> Seq<u8> {
    hmac_sha256_of(encode_utf8(token), le64(timestamp))
}

/// The fields of a handshake request as values.
pub struct ReqFields {
    pub client_id: Seq<char>,
    pub version: Seq<char>,
    pub timestamp: u64,
    pub hmac: Seq<u8>,
    pub capabilities: Seq<char>,
}

impl HandshakeReq {
    /// The fields of this request as values.
    pub open spec fn fields(self) -> ReqFields {
        ReqFields {
            client_id: self.client_id@,
            version: self.version@,
            timestamp: self.timestamp,
            hmac: self.hmac@,
            capabilities: self.capabilities@,
        }
    }
}

/// What decoding a handshake payload yields.
pub enum PayloadDecode<T> {
    /// The payload ends before a field does.
    Incomplete,
    /// A string field is not valid UTF-8.
    BadUtf8,
    /// The decoded value.
    Decoded(T),
}

/// Reads a length-prefixed byte string at `at`: its bytes and the offset after it.
pub open spec fn read16(p: Seq<u8>, at: int) -> Option<(Seq<u8>, int)> {
    if p.len() < at + 2 {
        None
    } else {
        let l = get16(p, at) as int;
        if p.len() < at + 2 + l {
            None
        } else {
            Some((p.subrange(at + 2, at + 2 + l), at + 2 + l))
        }
    }
}

/// Decoding of a HANDSHAKE_REQ payload, field by field; each string is checked
/// for UTF-8 right after it is read.
pub open spec fn decode_req(p: Seq<u8>) -> PayloadDecode<ReqFields> {
    match read16(p, 0) {
        None => PayloadDecode::Incomplete,
        Some((c, o1)) => if !valid_utf8(c) {
            PayloadDecode::BadUtf8
        } else {
            match read16(p, o1) {
                None => PayloadDecode::Incomplete,
                Some((v, o2)) => if !valid_utf8(v) {
                    PayloadDecode::BadUtf8
                } else if p.len() < o2 + 8 + 32 {
                    PayloadDecode::Incomplete
                } else {
                    match read16(p, o2 + 40) {
                        None => PayloadDecode::Incomplete,
                        Some((k, _o3)) => if !valid_utf8(k) {
                            PayloadDecode::BadUtf8
                        } else {
                            PayloadDecode::Decoded(
                                ReqFields {
                                    client_id: decode_utf8(c),
                                    version: decode_utf8(v),
                                    timestamp: get64(p, o2),
                                    hmac: p.subrange(o2 + 8, o2 + 40),
                                    capabilities: decode_utf8(k),
                                },
                            )
                        },
                    }
                },
            }
        },
    }
}

/// Decoding of a HANDSHAKE_ACK payload.
pub open spec fn decode_ack(p: Seq<u8>) -> PayloadDecode<(Seq<char>, u32, u32)> {
    if p.len() < 2 {
        PayloadDecode::Incomplete
    } else {
        let l = get16(p, 0) as int;
        if p.len() - 2 < l + 8 {
            PayloadDecode::Incomplete
        } else if !valid_utf8(p.subrange(2, 2 + l)) {
            PayloadDecode::BadUtf8
        } else {
            PayloadDecode::Decoded(
                (decode_utf8(p.subrange(2, 2 + l)), get32(p, 2 + l), get32(p, 6 + l)),
            )
        }
    }
}

/// `r` is what decoding the request payload `p` must return.
pub open spec fn req_decoded_as(p: Seq<u8>, r: Result<HandshakeReq, ZorvError>) -> bool {
    match decode_req(p) {
        PayloadDecode::Incomplete => r matches Err(ZorvError::Protocol(ProtocolError::Incomplete)),
        PayloadDecode::BadUtf8 => r matches Err(ZorvError::Other(_)),
        PayloadDecode::Decoded(f) => r matches Ok(req) && req.fields() == f,
    }
}

/// `r` is what decoding the acknowledgement payload `p` must return.
pub open spec fn ack_decoded_as(p: Seq<u8>, r: Result<HandshakeAck, ZorvError>) -> bool {
    match decode_ack(p) {
        PayloadDecode::Incomplete => r matches Err(ZorvError::Protocol(ProtocolError::Incomplete)),
        PayloadDecode::BadUtf8 => r matches Err(ZorvError::Other(_)),
        PayloadDecode::Decoded((sid, hmin, hmax)) => r matches Ok(ack) && ack.session_id@ == sid
            && ack.heartbeat_min == hmin && ack.heartbeat_max == hmax,
    }
}

/// Appends a length-prefixed string.
pub fn put_str16(buf: &mut Vec<u8>, s: &str)
    ensures
        final(buf)@ == old(buf)@ + str16(s@),
{
    let b = s.as_bytes();
    put_u16_le(buf, b.len() as u16);
    put_slice(buf, b);
    proof {
        assert(final(buf)@ =~= old(buf)@ + str16(s@));
    }
}

/// Reads a length-prefixed string at `at` as in `read16`, then checks it for UTF-8.
pub fn take_str16(p: &[u8], at: usize, field: &str) -> (r: Result<(String, usize), ZorvError>)
    requires
        at <= p@.len(),
    ensures
        match read16(p@, at as int) {
            None => r matches Err(ZorvError::Protocol(ProtocolError::Incomplete)),
            Some((bytes, next)) => if valid_utf8(bytes) {
                r matches Ok((s, n)) && s@ == decode_utf8(bytes) && n == next
            } else {
                r matches Err(ZorvError::Other(_))
            },
        },
{
    if p.len() - at < 2 {
        return Err(ZorvError::Protocol(ProtocolError::Incomplete));
    }
    let len = get_u16_le(p, at) as usize;
    if p.len() - at - 2 < len {
        return Err(ZorvError::Protocol(ProtocolError::Incomplete));
    }
    let bytes = copy_range(p, at + 2, at + 2 + len);
    match utf8_to_string(bytes) {
        Ok(s) => Ok((s, at + 2 + len)),
        Err(e) => {
            let mut m = String::new();
            push_str(&mut m, "invalid utf8 in ");
            push_str(&mut m, field);
            push_str(&mut m, ": ");
            push_str(&mut m, e.as_str());
            Err(ZorvError::Other(m))
        },
    }
}

/// Copies a 32-byte slice region into an array.
fn take_mac(p: &[u8], at: usize) -> (a: [u8; 32])
    requires
        at + 32 <= p@.len(),
    ensures
        a@ == p@.subrange(at as int, at + 32),
{
    let mut a = [0u8; 32];
    let n = p.len();
    let mut i: usize = 0;
    while i < 32
        invariant
            n == p@.len(),
            at + 32 <= p@.len(),
            i <= 32,
            forall|j: int| 0 <= j < i ==> a@[j] == p@[at + j],
        decreases 32 - i,
    {
        a[i] = p[at + i];
        i = i + 1;
    }
    proof {
        assert(a@ =~= p@.subrange(at as int, at + 32));
    }
    a
}

impl HandshakeReq {
    /// Builds a handshake request on the client: takes the current timestamp and
    /// computes the HMAC with `token`. The version is `PKG_VERSION`.
    pub fn build(client_id: &str, token: &str, capabilities: &str) -> (req: HandshakeReq)
        ensures
            req.client_id@ == client_id@,
            req.version@ == PKG_VERSION@,
            req.capabilities@ == capabilities@,
            req.hmac@ == handshake_mac(token@, req.timestamp),
    {
        let ts = now_millis();
        let mut ts_bytes: Vec<u8> = Vec::new();
        put_u64_le(&mut ts_bytes, ts);
        let token_bytes = str_bytes(token);
        let mac = hmac_sha256(token_bytes.as_slice(), ts_bytes.as_slice());
        let arr = take_mac(mac.as_slice(), 0);
        proof {
            assert(ts_bytes@ =~= le64(ts));
            assert(arr@ =~= mac@);
        }
        HandshakeReq {
            client_id: client_id.to_owned(),
            version: PKG_VERSION.to_owned(),
            timestamp: ts,
            hmac: arr,
            capabilities: capabilities.to_owned(),
        }
    }

    /// Encodes into payload bytes per the layout.
    pub fn encode_payload(&self) -> (p: Vec<u8>)
        ensures
            p@ == req_payload(
                self.client_id@,
                self.version@,
                self.timestamp,
                self.hmac@,
                self.capabilities@,
            ),
    {
        let mut buf: Vec<u8> = Vec::new();
        put_str16(&mut buf, self.client_id.as_str());
        put_str16(&mut buf, self.version.as_str());
        put_u64_le(&mut buf, self.timestamp);
        put_slice(&mut buf, self.hmac.as_slice());
        put_str16(&mut buf, self.capabilities.as_str());
        proof {
            assert(buf@ =~= req_payload(
                self.client_id@,
                self.version@,
                self.timestamp,
                self.hmac@,
                self.capabilities@,
            ));
        }
        buf
    }

    /// Decodes from the payload. Returns `Protocol(Incomplete)` if the data is too
    /// short and `Other` if a string field is not valid UTF-8.
    pub fn decode_payload(payload: &[u8]) -> (r: Result<HandshakeReq, ZorvError>)
        ensures
            req_decoded_as(payload@, r),
    {
        let (client_id, o1) = take_str16(payload, 0, "client_id")?;
        let (version, o2) = take_str16(payload, o1, "version")?;
        if payload.len() - o2 < 8 + HMAC_LEN {
            return Err(ZorvError::Protocol(ProtocolError::Incomplete));
        }
        let timestamp = get_u64_le(payload, o2);
        let hmac = take_mac(payload, o2 + 8);
        let (capabilities, _o3) = take_str16(payload, o2 + 40, "capabilities")?;
        Ok(HandshakeReq { client_id, version, timestamp, hmac, capabilities })
    }

    /// Converts into a `HandshakeReq` control frame.
    pub fn into_frame(&self) -> (f: Frame)
        ensures
            f.version == VERSION,
            f.frame_type == FrameType::HandshakeReq,
            f.stream_id == CONTROL_STREAM_ID,
            f.payload@ == req_payload(
                self.client_id@,
                self.version@,
                self.timestamp,
                self.hmac@,
                self.capabilities@,
            ),
            f.padding@.len() == 0,
    {
        Frame::new_control(FrameType::HandshakeReq, self.encode_payload())
    }
}

impl HandshakeAck {
    /// Builds a handshake acknowledgement.
    pub fn build(session_id: &str, heartbeat_min: u32, heartbeat_max: u32) -> (ack: HandshakeAck)
        ensures
            ack.session_id@ == session_id@,
            ack.heartbeat_min == heartbeat_min,
            ack.heartbeat_max == heartbeat_max,
    {
        HandshakeAck { session_id: session_id.to_owned(), heartbeat_min, heartbeat_max }
    }

    /// Encodes into payload bytes per the layout.
    pub fn encode_payload(&self) -> (p: Vec<u8>)
        ensures
            p@ == ack_payload(self.session_id@, self.heartbeat_min, self.heartbeat_max),
    {
        let mut buf: Vec<u8> = Vec::new();
        put_str16(&mut buf, self.session_id.as_str());
        put_u32_le(&mut buf, self.heartbeat_min);
        put_u32_le(&mut buf, self.heartbeat_max);
        proof {
            assert(buf@ =~= ack_payload(self.session_id@, self.heartbeat_min, self.heartbeat_max));
        }
        buf
    }

    /// Decodes from the payload. Returns `Protocol(Incomplete)` if the data is too
    /// short and `Other` if the session id is not valid UTF-8.
    pub fn decode_payload(payload: &[u8]) -> (r: Result<HandshakeAck, ZorvError>)
        ensures
            ack_decoded_as(payload@, r),
    {
        if payload.len() < 2 {
            return Err(ZorvError::Protocol(ProtocolError::Incomplete));
        }
        let len = get_u16_le(payload, 0) as usize;
        if payload.len() - 2 < len + 8 {
            return Err(ZorvError::Protocol(ProtocolError::Incomplete));
        }
        let bytes = copy_range(payload, 2, 2 + len);
        let session_id = match utf8_to_string(bytes) {
            Ok(s) => s,
            Err(e) => {
                let mut m = String::new();
                push_str(&mut m, "invalid utf8 in session_id: ");
                push_str(&mut m, e.as_str());
                return Err(ZorvError::Other(m));
            },
        };
        let heartbeat_min = get_u32_le(payload, 2 + len);
        let heartbeat_max = get_u32_le(payload, 6 + len);
        Ok(HandshakeAck { session_id, heartbeat_min, heartbeat_max })
    }

    /// Converts into a `HandshakeAck` control frame.
    pub fn into_frame(&self) -> (f: Frame)
        ensures
            f.version == VERSION,
            f.frame_type == FrameType::HandshakeAck,
            f.stream_id == CONTROL_STREAM_ID,
            f.payload@ == ack_payload(self.session_id@, self.heartbeat_min, self.heartbeat_max),
            f.padding@.len() == 0,
    {
        Frame::new_control(FrameType::HandshakeAck, self.encode_payload())
    }
}

/// The server's judgement of a handshake: `None` to accept, or the reason of
/// the refusal. The timestamp window is checked before the HMAC.
pub open spec fn handshake_verdict(timestamp: u64, hmac: Seq<u8>, token: Seq<char>, now: u64) -> Option<
    Seq<char>,
> {
    if !within_window(timestamp, TIMESTAMP_WINDOW_SECS, now) {
        Some("timestamp out of window"@)
    } else if handshake_mac(token, timestamp) != hmac {
        Some("invalid token"@)
    } else {
        None
    }
}

/// `r` carries the verdict `v`: `Ok` for acceptance, `Auth(reason)` for a refusal.
pub open spec fn auth_result(r: Result<(), ZorvError>, v: Option<Seq<char>>) -> bool {
    match v {
        None => r is Ok,
        Some(m) => r matches Err(ZorvError::Auth(s)) && s@ == m,
    }
}

/// Byte equality of a vector and an array.
fn bytes_eq(a: &[u8], b: &[u8]) -> (r: bool)
    ensures
        r == (a@ == b@),
{
    if a.len() != b.len() {
        return false;
    }
    let mut i: usize = 0;
    while i < a.len()
        invariant
            a@.len() == b@.len(),
            i <= a@.len(),
            forall|j: int| 0 <= j < i ==> a@[j] == b@[j],
        decreases a@.len() - i,
    {
        if a[i] != b[i] {
            return false;
        }
        i = i + 1;
    }
    proof {
        assert(a@ =~= b@);
    }
    true
}

/// Server-side handshake verification at time `now`: checks the timestamp window
/// and the HMAC.
///
/// - Timestamp outside the window: `Auth("timestamp out of window")`
/// - HMAC mismatch: `Auth("invalid token")`
pub fn verify_handshake_at(req: &HandshakeReq, expected_token: &str, now: u64) -> (r: Result<
    (),
    ZorvError,
>)
    ensures
        auth_result(r, handshake_verdict(req.timestamp, req.hmac@, expected_token@, now)),
{
    if !crate::common::crypto::verify_timestamp_at(req.timestamp, TIMESTAMP_WINDOW_SECS, now) {
        return Err(ZorvError::Auth("timestamp out of window".to_owned()));
    }
    let mut ts_bytes: Vec<u8> = Vec::new();
    put_u64_le(&mut ts_bytes, req.timestamp);
    let token_bytes = str_bytes(expected_token);
    let expected = hmac_sha256(token_bytes.as_slice(), ts_bytes.as_slice());
    proof {
        assert(ts_bytes@ =~= le64(req.timestamp));
    }
    if !bytes_eq(expected.as_slice(), req.hmac.as_slice()) {
        return Err(ZorvError::Auth("invalid token".to_owned()));
    }
    Ok(())
}

/// Server-side handshake verification at the current time: checks the timestamp
/// window and the HMAC (see `verify_handshake_at`).
pub fn verify_handshake(req: &HandshakeReq, expected_token: &str) -> (r: Result<(), ZorvError>)
    ensures
        exists|now: u64|
            auth_result(r, handshake_verdict(req.timestamp, req.hmac@, expected_token@, now)),
{
    let now = now_millis();
    verify_handshake_at(req, expected_token, now)
}

/// Server-side version gate: the client must run the exact same version as the server.
///
/// A mismatch gives `Auth("version mismatch: client=... server=...")`.
pub fn verify_version(client_version: &str, server_version: &str) -> (r: Result<(), ZorvError>)
    ensures
        client_version@ == server_version@ ==> r is Ok,
        client_version@ != server_version@ ==> (r matches Err(ZorvError::Auth(m)) && m@
            == "version mismatch: client="@ + client_version@ + " server="@ + server_version@),
{
    if crate::common::text::str_eq(client_version, server_version) {
        Ok(())
    } else {
        let mut m = String::new();
        push_str(&mut m, "version mismatch: client=");
        push_str(&mut m, client_version);
        push_str(&mut m, " server=");
        push_str(&mut m, server_version);
        Err(ZorvError::Auth(m))
    }
}

/// Builds an `AUTH_FAIL` control frame whose payload is the length-prefixed reason.
pub fn auth_fail_frame(reason: &str) -> (f: Frame)
    ensures
        f.version == VERSION,
        f.frame_type == FrameType::AuthFail,
        f.stream_id == CONTROL_STREAM_ID,
        f.payload@ == str16(reason@),
        f.padding@.len() == 0,
{
    let mut payload: Vec<u8> = Vec::new();
    put_str16(&mut payload, reason);
    Frame::new_control(FrameType::AuthFail, payload)
}

/// Checks that the frame is a `HandshakeReq` and parses it.
pub fn parse_handshake_req(frame: &Frame) -> (r: Result<HandshakeReq, ZorvError>)
    ensures
        frame.frame_type != FrameType::HandshakeReq ==> (r matches Err(
            ZorvError::Protocol(ProtocolError::InvalidFrameType(b)),
        ) && b == crate::protocol::frame::type_code(frame.frame_type)),
        frame.frame_type == FrameType::HandshakeReq ==> req_decoded_as(frame.payload@, r),
{
    if frame.frame_type != FrameType::HandshakeReq {
        return Err(
            ZorvError::Protocol(ProtocolError::InvalidFrameType(frame.frame_type.to_u8())),
        );
    }
    HandshakeReq::decode_payload(frame.payload.as_slice())
}

/// Checks that the frame is a `HandshakeAck` and parses it.
pub fn parse_handshake_ack(frame: &Frame) -> (r: Result<HandshakeAck, ZorvError>)
    ensures
        frame.frame_type != FrameType::HandshakeAck ==> (r matches Err(
            ZorvError::Protocol(ProtocolError::InvalidFrameType(b)),
        ) && b == crate::protocol::frame::type_code(frame.frame_type)),
        frame.frame_type == FrameType::HandshakeAck ==> ack_decoded_as(frame.payload@, r),
{
    if frame.frame_type != FrameType::HandshakeAck {
        return Err(
            ZorvError::Protocol(ProtocolError::InvalidFrameType(frame.frame_type.to_u8())),
        );
    }
    HandshakeAck::decode_payload(frame.payload.as_slice())
}

/// A request whose HMAC was computed with the server's token, at a timestamp
/// within the window of the server's clock, is accepted; a request whose HMAC is
/// not that of the server's token is refused as `invalid token` (or for its
/// timestamp).
pub proof fn lemma_handshake_auth(
    timestamp: u64,
    hmac: Seq<u8>,
    client_token: Seq<char>,
    server_token: Seq<char>,
    now: u64,
)
    requires
        hmac == handshake_mac(client_token, timestamp),
    ensures
        within_window(timestamp, TIMESTAMP_WINDOW_SECS, now) && client_token == server_token
            ==> handshake_verdict(timestamp, hmac, server_token, now) is None,
        handshake_mac(server_token, timestamp) != hmac ==> handshake_verdict(
            timestamp,
            hmac,
            server_token,
            now,
        ) is Some,
        !within_window(timestamp, TIMESTAMP_WINDOW_SECS, now) ==> handshake_verdict(
            timestamp,
            hmac,
            server_token,
            now,
        ) == Some("timestamp out of window"@),
{
}

/// Decoding an encoded request gives its fields back, when each string fits its
/// 16-bit length field.
pub proof fn lemma_req_roundtrip(
    client_id: Seq<char>,
    version: Seq<char>,
    timestamp: u64,
    hmac: Seq<u8>,
    capabilities: Seq<char>,
)
    requires
        encode_utf8(client_id).len() <= u16::MAX,
        encode_utf8(version).len() <= u16::MAX,
        encode_utf8(capabilities).len() <= u16::MAX,
        hmac.len() == 32,
    ensures
        decode_req(req_payload(client_id, version, timestamp, hmac, capabilities))
            == PayloadDecode::Decoded(
            ReqFields { client_id, version, timestamp, hmac, capabilities },
        ),
{
    let p = req_payload(client_id, version, timestamp, hmac, capabilities);
    assert(p + Seq::<u8>::empty() =~= p);
    lemma_req_roundtrip_trailing(client_id, version, timestamp, hmac, capabilities, Seq::empty());
}

/// Bytes after an encoded request are ignored: decoding the encoding followed by
/// any bytes gives the request's fields back.
pub proof fn lemma_req_roundtrip_trailing(
    client_id: Seq<char>,
    version: Seq<char>,
    timestamp: u64,
    hmac: Seq<u8>,
    capabilities: Seq<char>,
    extra: Seq<u8>,
)
    requires
        encode_utf8(client_id).len() <= u16::MAX,
        encode_utf8(version).len() <= u16::MAX,
        encode_utf8(capabilities).len() <= u16::MAX,
        hmac.len() == 32,
    ensures
        decode_req(req_payload(client_id, version, timestamp, hmac, capabilities) + extra)
            == PayloadDecode::Decoded(
            ReqFields { client_id, version, timestamp, hmac, capabilities },
        ),
{
    let c = encode_utf8(client_id);
    let v = encode_utf8(version);
    let k = encode_utf8(capabilities);
    crate::common::text::lemma_utf8_roundtrip(client_id);
    crate::common::text::lemma_utf8_roundtrip(version);
    crate::common::text::lemma_utf8_roundtrip(capabilities);
    let p = req_payload(client_id, version, timestamp, hmac, capabilities) + extra;
    let o1: int = 2 + c.len() as int;
    let o2: int = o1 + 2 + v.len() as int;
    assert(p.subrange(0, 2) =~= le16(c.len() as u16));
    lemma_get16_le16(p, 0, c.len() as u16);
    assert(p.subrange(2, o1 as int) =~= c);
    assert(p.subrange(o1 as int, o1 + 2) =~= le16(v.len() as u16));
    lemma_get16_le16(p, o1 as int, v.len() as u16);
    assert(p.subrange(o1 + 2, o2 as int) =~= v);
    assert(p.subrange(o2 as int, o2 + 8) =~= le64(timestamp));
    lemma_get64_le64(p, o2 as int, timestamp);
    assert(p.subrange(o2 + 8, o2 + 40) =~= hmac);
    assert(p.subrange(o2 + 40, o2 + 42) =~= le16(k.len() as u16));
    lemma_get16_le16(p, o2 + 40, k.len() as u16);
    assert(p.subrange(o2 + 42, o2 + 42 + k.len() as int) =~= k);
}

/// Decoding an encoded acknowledgement gives its fields back, when the session id
/// fits its 16-bit length field.
pub proof fn lemma_ack_roundtrip(session_id: Seq<char>, heartbeat_min: u32, heartbeat_max: u32)
    requires
        encode_utf8(session_id).len() <= u16::MAX,
    ensures
        decode_ack(ack_payload(session_id, heartbeat_min, heartbeat_max)) == PayloadDecode::Decoded(
            (session_id, heartbeat_min, heartbeat_max),
        ),
{
    let p = ack_payload(session_id, heartbeat_min, heartbeat_max);
    assert(p + Seq::<u8>::empty() =~= p);
    lemma_ack_roundtrip_trailing(session_id, heartbeat_min, heartbeat_max, Seq::empty());
}

/// Bytes after an encoded acknowledgement are ignored: decoding the encoding
/// followed by any bytes gives its fields back.
pub proof fn lemma_ack_roundtrip_trailing(
    session_id: Seq<char>,
    heartbeat_min: u32,
    heartbeat_max: u32,
    extra: Seq<u8>,
)
    requires
        encode_utf8(session_id).len() <= u16::MAX,
    ensures
        decode_ack(ack_payload(session_id, heartbeat_min, heartbeat_max) + extra)
            == PayloadDecode::Decoded((session_id, heartbeat_min, heartbeat_max)),
{
    let b = encode_utf8(session_id);
    crate::common::text::lemma_utf8_roundtrip(session_id);
    let p = ack_payload(session_id, heartbeat_min, heartbeat_max) + extra;
    let l = b.len() as int;
    assert(p.subrange(0, 2) =~= le16(l as u16));
    lemma_get16_le16(p, 0, l as u16);
    assert(p.subrange(2, 2 + l) =~= b);
    assert(p.subrange(2 + l, 6 + l) =~= le32(heartbeat_min));
    lemma_get32_le32(p, 2 + l, heartbeat_min);
    assert(p.subrange(6 + l, 10 + l) =~= le32(heartbeat_max));
    lemma_get32_le32(p, 6 + l, heartbeat_max);
}

} // verus!
