//! Zorv protocol multiplexing: the Stream ID allocator and the STREAM_OPEN /
//! STREAM_OPEN_ACK / STREAM_DATA / STREAM_CLOSE / ERROR / UDP_DATAGRAM frame
//! builders and parsers.
//!
//! Stream ID conventions:
//! - Clients allocate odd IDs (1, 3, 5, ...)
//! - Servers allocate even IDs (2, 4, 6, ...)
//!
//! Payload layouts (little-endian):
//! - `STREAM_OPEN`: `[target_len:u16][target][peer_len:u16][peer]`
//! - `STREAM_OPEN_ACK`: `[status:u8][stream_id:u32]` (status 0 = accepted)
//! - `ERROR`: `[reason_len:u16][reason]`
//! - `UDP_DATAGRAM`: `[target_len:u16][target][data]`

use vstd::prelude::*;
use vstd::utf8::{decode_utf8, encode_utf8, valid_utf8};
use crate::common::error::{ProtocolError, ZorvError};
use crate::common::text::{bytes_to_text, text_of_bytes};
use crate::common::wire::{
    copy_range, get16, get32, get_u16_le, get_u32_le, le16, le32, lemma_get16_le16,
    lemma_get32_le32, put_slice, put_u32_le,
};
use crate::protocol::frame::{Frame, FrameType, CONTROL_STREAM_ID, VERSION};
use crate::protocol::handshake::{put_str16, read16, str16, take_str16, PayloadDecode};

verus! {

/// Maximum number of streams per tunnel.
pub const MAX_STREAMS: u32 = 65535;

/// Default flow-control window (256KB).
pub const DEFAULT_WINDOW: usize = 256 * 1024;

/// Stream ID allocator: clients use odd IDs (1,3,5,...), servers even IDs (2,4,6,...).
/// Each call returns the current value and advances it by 2.
pub struct StreamIdAllocator {
    next: u32,
    odd: bool,
}

impl StreamIdAllocator {
    /// The ID that the next allocation returns.
    pub closed spec fn upcoming(&self) -> u32 {
        self.next
    }

    /// Whether this is the client-side (odd) allocator.
    pub closed spec fn is_odd_side(&self) -> bool {
        self.odd
    }

    /// The IDs of this allocator keep the parity of its side and start at 1 or 2.
    pub open spec fn wf(&self) -> bool {
        &&& self.upcoming() % 2 == (if self.is_odd_side() { 1int } else { 0int })
        &&& self.upcoming() >= (if self.is_odd_side() { 1int } else { 2int })
    }

    /// Client side: odd sequence starting from 1.
    pub fn new_client() -> (a: StreamIdAllocator)
        ensures
            a.upcoming() == 1,
            a.is_odd_side(),
            a.wf(),
    {
        StreamIdAllocator { next: 1, odd: true }
    }

    /// Server side: even sequence starting from 2.
    pub fn new_server() -> (a: StreamIdAllocator)
        ensures
            a.upcoming() == 2,
            !a.is_odd_side(),
            a.wf(),
    {
        StreamIdAllocator { next: 2, odd: false }
    }

    /// Allocates the next Stream ID.
    ///
    /// Returns `Other("stream id exhausted")` once past `MAX_STREAMS`; the
    /// allocator is then unchanged.
    pub fn next(&mut self) -> (r: Result<u32, ZorvError>)
        ensures
            final(self).is_odd_side() == old(self).is_odd_side(),
            old(self).upcoming() <= MAX_STREAMS ==> r == Ok::<u32, ZorvError>(old(self).upcoming())
                && final(self).upcoming() == old(self).upcoming() + 2,
            old(self).upcoming() > MAX_STREAMS ==> (r matches Err(ZorvError::Other(m)) && m@
                == "stream id exhausted"@) && final(self).upcoming() == old(self).upcoming(),
            old(self).wf() ==> final(self).wf(),
    {
        let cur = self.next;
        if cur > MAX_STREAMS {
            return Err(ZorvError::Other("stream id exhausted".to_owned()));
        }
        let nxt = match cur.checked_add(2) {
            Some(v) => v,
            None => return Err(ZorvError::Other("stream id overflow".to_owned())),
        };
        self.next = nxt;
        Ok(cur)
    }
}

/// IDs handed out by one allocator never repeat: every allocation returns the
/// upcoming ID and moves past it, and a later allocation returns a larger ID;
/// all IDs of the odd side are odd and all IDs of the even side even.
pub proof fn lemma_ids_unique_and_parity(a: StreamIdAllocator, b: StreamIdAllocator, id: u32)
    requires
        a.wf(),
        id == a.upcoming(),
        b.upcoming() == a.upcoming() + 2,
        b.is_odd_side() == a.is_odd_side(),
    ensures
        b.wf(),
        b.upcoming() > id,
        id % 2 == (if a.is_odd_side() { 1int } else { 0int }),
{
}

/// The STREAM_OPEN payload: target and public peer address.
pub open spec fn stream_open_payload(target: Seq<char>, peer: Seq<char>) -> Seq<u8> {
    str16(target) + str16(peer)
}

/// Builds a `STREAM_OPEN` frame. `peer` is the address of the public-side caller
/// (may be empty).
pub fn build_stream_open(stream_id: u32, target: &str, peer: &str) -> (f: Frame)
    ensures
        f.version == VERSION,
        f.frame_type == FrameType::StreamOpen,
        f.stream_id == stream_id,
        f.payload@ == stream_open_payload(target@, peer@),
        f.padding@.len() == 0,
{
    let mut payload: Vec<u8> = Vec::new();
    put_str16(&mut payload, target);
    put_str16(&mut payload, peer);
    Frame::new(FrameType::StreamOpen, stream_id, payload)
}

/// Decoding of a STREAM_OPEN payload: the target must be present and UTF-8;
/// the peer is optional (absent or truncated gives an empty peer) and is the
/// text of its bytes (lossy only where they are not UTF-8).
pub open spec fn decode_stream_open(p: Seq<u8>) -> PayloadDecode<(Seq<char>, Seq<char>)> {
    match read16(p, 0) {
        None => PayloadDecode::Incomplete,
        Some((t, o)) => if !valid_utf8(t) {
            PayloadDecode::BadUtf8
        } else {
            match read16(p, o) {
                None => PayloadDecode::Decoded((decode_utf8(t), Seq::<char>::empty())),
                Some((q, _)) => PayloadDecode::Decoded((decode_utf8(t), text_of_bytes(q))),
            }
        },
    }
}

/// Parses a `STREAM_OPEN` payload and returns `(target, peer)`.
pub fn parse_stream_open_payload(payload: &[u8]) -> (r: Result<(String, String), ZorvError>)
    ensures
        match decode_stream_open(payload@) {
            PayloadDecode::Incomplete => r matches Err(
                ZorvError::Protocol(ProtocolError::Incomplete),
            ),
            PayloadDecode::BadUtf8 => r matches Err(ZorvError::Other(_)),
            PayloadDecode::Decoded((t, q)) => r matches Ok((target, peer)) && target@ == t
                && peer@ == q,
        },
{
    let (target, o) = take_str16(payload, 0, "target")?;
    let mut peer = String::new();
    if payload.len() - o >= 2 {
        let peer_len = get_u16_le(payload, o) as usize;
        if payload.len() - o - 2 >= peer_len {
            let bytes = copy_range(payload, o + 2, o + 2 + peer_len);
            peer = bytes_to_text(bytes.as_slice());
        }
    }
    Ok((target, peer))
}

/// The STREAM_OPEN_ACK payload: status 0 when accepted, 1 when rejected, then the id.
pub open spec fn stream_open_ack_payload(stream_id: u32, ok: bool) -> Seq<u8> {
    seq![if ok { 0u8 } else { 1u8 }] + le32(stream_id)
}

/// Builds a `STREAM_OPEN_ACK` frame.
pub fn build_stream_open_ack(stream_id: u32, ok: bool) -> (f: Frame)
    ensures
        f.version == VERSION,
        f.frame_type == FrameType::StreamOpenAck,
        f.stream_id == stream_id,
        f.payload@ == stream_open_ack_payload(stream_id, ok),
        f.padding@.len() == 0,
{
    let mut payload: Vec<u8> = Vec::new();
    payload.push(if ok { 0u8 } else { 1u8 });
    put_u32_le(&mut payload, stream_id);
    proof {
        assert(payload@ =~= stream_open_ack_payload(stream_id, ok));
    }
    Frame::new(FrameType::StreamOpenAck, stream_id, payload)
}

/// Parses a `STREAM_OPEN_ACK` payload and returns `(ok, stream_id)`.
pub fn parse_stream_open_ack_payload(payload: &[u8]) -> (r: Result<(bool, u32), ZorvError>)
    ensures
        payload@.len() < 5 ==> r matches Err(ZorvError::Protocol(ProtocolError::Incomplete)),
        payload@.len() >= 5 ==> (r matches Ok((ok, id)) && ok == (payload@[0] == 0) && id
            == get32(payload@, 1)),
{
    if payload.len() < 5 {
        return Err(ZorvError::Protocol(ProtocolError::Incomplete));
    }
    let status = payload[0];
    let stream_id = get_u32_le(payload, 1);
    Ok((status == 0, stream_id))
}

/// Builds a `STREAM_DATA` frame carrying `data`.
pub fn build_stream_data(stream_id: u32, data: &[u8]) -> (f: Frame)
    ensures
        f.version == VERSION,
        f.frame_type == FrameType::StreamData,
        f.stream_id == stream_id,
        f.payload@ == data@,
        f.padding@.len() == 0,
{
    Frame::new(FrameType::StreamData, stream_id, copy_range(data, 0, data.len()))
}

/// Builds a `STREAM_CLOSE` frame (empty payload).
pub fn build_stream_close(stream_id: u32) -> (f: Frame)
    ensures
        f.version == VERSION,
        f.frame_type == FrameType::StreamClose,
        f.stream_id == stream_id,
        f.payload@.len() == 0,
        f.padding@.len() == 0,
{
    Frame::new(FrameType::StreamClose, stream_id, Vec::new())
}

/// Builds an `ERROR` control frame (payload: u16 length + UTF-8 reason text),
/// used by the server to kick a client.
pub fn build_error_frame(reason: &str) -> (f: Frame)
    ensures
        f.version == VERSION,
        f.frame_type == FrameType::Error,
        f.stream_id == CONTROL_STREAM_ID,
        f.payload@ == str16(reason@),
        f.padding@.len() == 0,
{
    let mut payload: Vec<u8> = Vec::new();
    put_str16(&mut payload, reason);
    Frame::new_control(FrameType::Error, payload)
}

/// Parses an `ERROR` frame payload and returns the reason text (the text of its
/// bytes, lossy only where they are not UTF-8).
///
/// The payload must hold at least the 2-byte length; a length beyond the payload
/// gives `Other("error payload truncated")`.
pub fn parse_error_payload(payload: &[u8]) -> (r: Result<String, ZorvError>)
    requires
        payload@.len() >= 2,
    ensures
        payload@.len() - 2 < get16(payload@, 0) ==> (r matches Err(ZorvError::Other(m)) && m@
            == "error payload truncated"@),
        payload@.len() - 2 >= get16(payload@, 0) ==> (r matches Ok(s) && s@ == text_of_bytes(
            payload@.subrange(2, 2 + get16(payload@, 0)),
        )),
{
    let len = get_u16_le(payload, 0) as usize;
    if payload.len() - 2 < len {
        return Err(ZorvError::Other("error payload truncated".to_owned()));
    }
    let bytes = copy_range(payload, 2, 2 + len);
    Ok(bytes_to_text(bytes.as_slice()))
}

/// The UDP_DATAGRAM payload: length-prefixed target, then the datagram bytes.
pub open spec fn udp_datagram_payload(target: Seq<char>, data: Seq<u8>) -> Seq<u8> {
    str16(target) + data
}

/// Builds a `UDP_DATAGRAM` frame.
pub fn build_udp_datagram(stream_id: u32, target: &str, data: &[u8]) -> (f: Frame)
    ensures
        f.version == VERSION,
        f.frame_type == FrameType::UdpDatagram,
        f.stream_id == stream_id,
        f.payload@ == udp_datagram_payload(target@, data@),
        f.padding@.len() == 0,
{
    let mut payload: Vec<u8> = Vec::new();
    put_str16(&mut payload, target);
    put_slice(&mut payload, data);
    Frame::new(FrameType::UdpDatagram, stream_id, payload)
}

/// Decoding of a UDP_DATAGRAM payload: the target must be present and UTF-8;
/// the rest of the payload is the datagram.
pub open spec fn decode_udp_datagram(p: Seq<u8>) -> PayloadDecode<(Seq<char>, Seq<u8>)> {
    match read16(p, 0) {
        None => PayloadDecode::Incomplete,
        Some((t, o)) => if valid_utf8(t) {
            PayloadDecode::Decoded((decode_utf8(t), p.subrange(o, p.len() as int)))
        } else {
            PayloadDecode::BadUtf8
        },
    }
}

/// Parses a `UDP_DATAGRAM` payload and returns `(target, data)`.
pub fn parse_udp_datagram(payload: &[u8]) -> (r: Result<(String, Vec<u8>), ZorvError>)
    ensures
        match decode_udp_datagram(payload@) {
            PayloadDecode::Incomplete => r matches Err(
                ZorvError::Protocol(ProtocolError::Incomplete),
            ),
            PayloadDecode::BadUtf8 => r matches Err(ZorvError::Other(_)),
            PayloadDecode::Decoded((t, d)) => r matches Ok((target, data)) && target@ == t
                && data@ == d,
        },
{
    let (target, o) = take_str16(payload, 0, "udp target")?;
    let data = copy_range(payload, o, payload.len());
    Ok((target, data))
}

/// Reading a length-prefixed string at an offset where `str16` wrote it gives its
/// bytes back and the offset after it, when it fits the 16-bit length.
pub proof fn lemma_read16_str16(p: Seq<u8>, at: int, s: Seq<char>)
    requires
        encode_utf8(s).len() <= u16::MAX,
        0 <= at,
        at + 2 + encode_utf8(s).len() <= p.len(),
        p.subrange(at, at + 2 + encode_utf8(s).len() as int) == str16(s),
    ensures
        read16(p, at) == Some((encode_utf8(s), at + 2 + encode_utf8(s).len() as int)),
{
    let b = encode_utf8(s);
    let w = p.subrange(at, at + 2 + b.len() as int);
    assert(w.subrange(0, 2) =~= le16(b.len() as u16));
    assert(p.subrange(at, at + 2) =~= w.subrange(0, 2));
    lemma_get16_le16(p, at, b.len() as u16);
    assert(w.subrange(2, 2 + b.len() as int) =~= b);
    assert(p.subrange(at + 2, at + 2 + b.len() as int) =~= w.subrange(2, 2 + b.len() as int));
}

proof fn lemma_stream_open_fields(target: Seq<char>, peer: Seq<char>)
    requires
        encode_utf8(target).len() <= u16::MAX,
        encode_utf8(peer).len() <= u16::MAX,
    ensures
        read16(stream_open_payload(target, peer), 0) == Some(
            (encode_utf8(target), 2 + encode_utf8(target).len() as int),
        ),
        read16(stream_open_payload(target, peer), 2 + encode_utf8(target).len() as int) == Some(
            (encode_utf8(peer), 4 + encode_utf8(target).len() + encode_utf8(peer).len() as int),
        ),
{
    let p = stream_open_payload(target, peer);
    let a = str16(target);
    let b = str16(peer);
    assert(p.subrange(0, a.len() as int) =~= a);
    lemma_read16_str16(p, 0, target);
    assert(p.subrange(a.len() as int, a.len() + b.len() as int) =~= b);
    lemma_read16_str16(p, a.len() as int, peer);
}

/// A STREAM_OPEN payload decodes to the target and the peer it was built from.
pub proof fn lemma_stream_open_roundtrip(target: Seq<char>, peer: Seq<char>)
    requires
        encode_utf8(target).len() <= u16::MAX,
        encode_utf8(peer).len() <= u16::MAX,
    ensures
        decode_stream_open(stream_open_payload(target, peer)) == PayloadDecode::Decoded((target, peer)),
{
    lemma_stream_open_fields(target, peer);
    crate::common::text::lemma_utf8_roundtrip(target);
    crate::common::text::lemma_utf8_roundtrip(peer);
}

/// A STREAM_OPEN_ACK payload gives back the status and the id.
pub proof fn lemma_stream_open_ack_roundtrip(stream_id: u32, ok: bool)
    ensures
        (stream_open_ack_payload(stream_id, ok)[0] == 0) == ok,
        get32(stream_open_ack_payload(stream_id, ok), 1) == stream_id,
{
    let p = stream_open_ack_payload(stream_id, ok);
    assert(p.subrange(1, 5) =~= le32(stream_id));
    lemma_get32_le32(p, 1, stream_id);
}

proof fn lemma_udp_datagram_fields(target: Seq<char>, data: Seq<u8>)
    requires
        encode_utf8(target).len() <= u16::MAX,
    ensures
        read16(udp_datagram_payload(target, data), 0) == Some(
            (encode_utf8(target), 2 + encode_utf8(target).len() as int),
        ),
        udp_datagram_payload(target, data).subrange(
            2 + encode_utf8(target).len() as int,
            udp_datagram_payload(target, data).len() as int,
        ) == data,
{
    let p = udp_datagram_payload(target, data);
    let b = encode_utf8(target);
    let o: int = 2 + b.len() as int;
    assert(p.subrange(0, 2) =~= le16(b.len() as u16));
    lemma_get16_le16(p, 0, b.len() as u16);
    assert(p.subrange(2, o) =~= b);
    assert(p.subrange(o, p.len() as int) =~= data);
}

/// A UDP datagram payload gives back its target and its data.
pub proof fn lemma_udp_datagram_roundtrip(target: Seq<char>, data: Seq<u8>)
    requires
        encode_utf8(target).len() <= u16::MAX,
    ensures
        decode_udp_datagram(udp_datagram_payload(target, data)) == PayloadDecode::Decoded((target, data)),
        read16(udp_datagram_payload(target, data), 0) == Some(
            (encode_utf8(target), 2 + encode_utf8(target).len() as int),
        ),
        valid_utf8(encode_utf8(target)),
        decode_utf8(encode_utf8(target)) == target,
        udp_datagram_payload(target, data).subrange(
            2 + encode_utf8(target).len() as int,
            udp_datagram_payload(target, data).len() as int,
        ) == data,
{
    lemma_udp_datagram_fields(target, data);
    crate::common::text::lemma_utf8_roundtrip(target);
}

/// An ERROR payload gives back its reason: its length prefix fits the payload
/// and the text of the bytes it covers is the reason.
pub proof fn lemma_error_payload_roundtrip(reason: Seq<char>)
    requires
        encode_utf8(reason).len() <= u16::MAX,
    ensures
        get16(str16(reason), 0) == encode_utf8(reason).len(),
        str16(reason).len() - 2 >= get16(str16(reason), 0),
        str16(reason).subrange(2, 2 + encode_utf8(reason).len() as int) == encode_utf8(reason),
        text_of_bytes(str16(reason).subrange(2, 2 + get16(str16(reason), 0))) == reason,
{
    let p = str16(reason);
    assert(p.subrange(0, p.len() as int) =~= p);
    lemma_read16_str16(p, 0, reason);
    crate::common::text::lemma_utf8_roundtrip(reason);
}

} // verus!
