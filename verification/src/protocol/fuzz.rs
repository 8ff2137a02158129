//! Deterministic protocol fuzz harness.
//!
//! Mutation-based input testing of the protocol decoders with a fixed-seed PRNG:
//! `Frame::decode`, `HandshakeReq::decode_payload` and `HandshakeAck::decode_payload`.
//! Every decoder is total here: it returns on every input, which the contracts of
//! the decoders state and Verus proves.

use vstd::prelude::*;
use vstd::wrapping::u64_specs::{wrapping_add, wrapping_mul};
use crate::common::wire::{copy_range, put_slice, put_u16_le, put_u32_le};
use crate::common::wire::{le16, le32};
use crate::protocol::frame::{decode_step, frame_encoding, type_code, DecodeStep, Frame, FrameType, MAGIC};
use crate::protocol::handshake::{HandshakeAck, HandshakeReq};

verus! {

/// The splitmix64 increment.
pub const GOLDEN_GAMMA: u64 = 0x9E37_79B9_7F4A_7C15;

/// The splitmix64 output function applied to a state.
pub open spec fn splitmix(state: u64) -> u64 {
    let z1 = wrapping_mul(state ^ (state >> 30u64), 0xBF58_476D_1CE4_E5B9u64);
    let z2 = wrapping_mul(z1 ^ (z1 >> 27u64), 0x94D0_49BB_1331_11EBu64);
    z2 ^ (z2 >> 31u64)
}

/// The state after `k` draws from `state`.
pub open spec fn advance(state: u64, k: nat) -> u64
    decreases k,
{
    if k == 0 {
        state
    } else {
        wrapping_add(advance(state, (k - 1) as nat), GOLDEN_GAMMA)
    }
}

/// The `k` bytes drawn from `state`: the top byte of each successive output.
pub open spec fn drawn_bytes(state: u64, k: nat) -> Seq<u8>
    decreases k,
{
    if k == 0 {
        Seq::empty()
    } else {
        drawn_bytes(state, (k - 1) as nat).push((splitmix(advance(state, k)) >> 56u64) as u8)
    }
}

/// The state after one draw from `state`.
pub open spec fn next_state(state: u64) -> u64 {
    wrapping_add(state, GOLDEN_GAMMA)
}

/// The index below `max` (positive) that one draw from `state` yields.
pub open spec fn drawn_index(state: u64, max: nat) -> nat {
    (splitmix(next_state(state)) % (max as u64)) as nat
}

/// The frame type at index `i` of the fuzz table (the twelve types in wire-byte
/// order).
pub open spec fn fuzz_type(i: nat) -> FrameType {
    if i == 0 {
        FrameType::HandshakeReq
    } else if i == 1 {
        FrameType::HandshakeAck
    } else if i == 2 {
        FrameType::AuthFail
    } else if i == 3 {
        FrameType::StreamOpen
    } else if i == 4 {
        FrameType::StreamOpenAck
    } else if i == 5 {
        FrameType::StreamData
    } else if i == 6 {
        FrameType::StreamClose
    } else if i == 7 {
        FrameType::Heartbeat
    } else if i == 8 {
        FrameType::HeartbeatAck
    } else if i == 9 {
        FrameType::UdpDatagram
    } else if i == 10 {
        FrameType::Probe
    } else {
        FrameType::Error
    }
}

/// The fuzz baseline frame drawn from `s0`: its type, stream id, payload and
/// padding, and the generator's state afterwards. Drawn in this order: the
/// type index (below 12), the payload length (below 128) and bytes, the
/// padding length (below 16) and bytes, then the stream id (the low 32 bits of
/// a value).
pub open spec fn base_frame_of(s0: u64) -> (FrameType, u32, Seq<u8>, Seq<u8>, u64) {
    let s1 = next_state(s0);
    let t = fuzz_type(drawn_index(s0, 12));
    let plen = drawn_index(s1, 128);
    let s2 = next_state(s1);
    let payload = drawn_bytes(s2, plen);
    let s3 = advance(s2, plen);
    let padlen = drawn_index(s3, 16);
    let s4 = next_state(s3);
    let padding = drawn_bytes(s4, padlen);
    let s5 = advance(s4, padlen);
    let s6 = next_state(s5);
    (t, splitmix(s6) as u32, payload, padding, s6)
}

/// The wire byte at index `i` of the fuzz table.
pub open spec fn fuzz_type_byte(i: nat) -> u8 {
    type_code(fuzz_type(i))
}

/// What `mutate` appends to `out` (the bit flip may land in `out`'s earlier
/// bytes), and the generator's state afterwards, when drawing from `s0`:
/// - `0`: a random block of under 256 bytes;
/// - `1`: a prefix of `base` (its length drawn below `base.len() + 1`);
/// - `2`: `base`, then one bit of the whole buffer flipped (none when it is empty);
/// - `3`: `base` twice;
/// - `4`: a forged header (magic, version 1, a table type byte, a stream id)
///   claiming a `u32::MAX` payload, then under 64 random bytes.
pub open spec fn mutation_of(out: Seq<u8>, base: Seq<u8>, s0: u64) -> (Seq<u8>, u64) {
    let choice = drawn_index(s0, 5);
    let s1 = next_state(s0);
    if choice == 0 {
        let len = drawn_index(s1, 256);
        let s2 = next_state(s1);
        (out + drawn_bytes(s2, len), advance(s2, len))
    } else if choice == 1 {
        let bound: nat = if base.len() < usize::MAX {
            base.len() + 1
        } else {
            usize::MAX as nat
        };
        let n = drawn_index(s1, bound);
        let cut = if n < base.len() {
            n
        } else {
            base.len()
        };
        (out + base.subrange(0, cut as int), next_state(s1))
    } else if choice == 2 {
        let o = out + base;
        if o.len() > 0 {
            let i = drawn_index(s1, o.len());
            let s2 = next_state(s1);
            let bit = drawn_index(s2, 8);
            (o.update(i as int, o[i as int] ^ (1u8 << (bit as u8))), next_state(s2))
        } else {
            (o, s1)
        }
    } else if choice == 3 {
        (out + base + base, s1)
    } else {
        let t = fuzz_type_byte(drawn_index(s1, 12));
        let s2 = next_state(s1);
        let s3 = next_state(s2);
        let sid = splitmix(s3) as u32;
        let len = drawn_index(s3, 64);
        let s4 = next_state(s3);
        (out + le16(MAGIC) + seq![1u8, t] + le32(sid) + le32(u32::MAX) + drawn_bytes(s4, len), advance(
            s4,
            len,
        ))
    }
}

/// Cross-platform deterministic splitmix64 PRNG.
pub struct Prng(u64);

impl Prng {
    /// The generator's state.
    pub closed spec fn state(&self) -> u64 {
        self.0
    }

    /// A generator seeded with `seed`.
    pub fn new(seed: u64) -> (p: Prng)
        ensures
            p.state() == wrapping_add(seed, GOLDEN_GAMMA),
    {
        Prng(seed.wrapping_add(GOLDEN_GAMMA))
    }

    /// Draws the next 64-bit value.
    pub fn next_u64(&mut self) -> (v: u64)
        ensures
            final(self).state() == wrapping_add(old(self).state(), GOLDEN_GAMMA),
            v == splitmix(final(self).state()),
    {
        self.0 = self.0.wrapping_add(GOLDEN_GAMMA);
        let z = self.0;
        let z = (z ^ (z >> 30u64)).wrapping_mul(0xBF58_476D_1CE4_E5B9u64);
        let z = (z ^ (z >> 27u64)).wrapping_mul(0x94D0_49BB_1331_11EBu64);
        z ^ (z >> 31u64)
    }

    /// Returns an index in `[0, max)`; returns 0 (without drawing) when `max == 0`.
    pub fn next_usize(&mut self, max: usize) -> (i: usize)
        ensures
            max == 0 ==> i == 0 && final(self).state() == old(self).state(),
            max > 0 ==> final(self).state() == wrapping_add(old(self).state(), GOLDEN_GAMMA)
                && i == splitmix(final(self).state()) % (max as u64) && i < max,
    {
        if max == 0 {
            return 0;
        }
        (self.next_u64() % max as u64) as usize
    }

    /// Draws a random boolean: the lowest bit of the next value.
    pub fn next_bool(&mut self) -> (b: bool)
        ensures
            final(self).state() == wrapping_add(old(self).state(), GOLDEN_GAMMA),
            b == (splitmix(final(self).state()) & 1 == 1),
    {
        self.next_u64() & 1 == 1
    }

    /// Draws `len` bytes: the top byte of each of the next `len` values.
    pub fn next_bytes(&mut self, len: usize) -> (v: Vec<u8>)
        ensures
            v@ == drawn_bytes(old(self).state(), len as nat),
            v@.len() == len,
            final(self).state() == advance(old(self).state(), len as nat),
    {
        let ghost s0 = self.state();
        let mut v: Vec<u8> = Vec::with_capacity(len);
        let mut i: usize = 0;
        while i < len
            invariant
                i <= len,
                v@ == drawn_bytes(s0, i as nat),
                v@.len() == i,
                self.state() == advance(s0, i as nat),
            decreases len - i,
        {
            let x = self.next_u64();
            v.push((x >> 56u64) as u8);
            i = i + 1;
            proof {
                assert(v@ =~= drawn_bytes(s0, i as nat));
            }
        }
        v
    }
}

/// The frame type listed at index `i` (of the 12 types, in wire-byte order).
fn frame_type_at(i: usize) -> (t: FrameType)
    requires
        i < 12,
    ensures
        t == fuzz_type(i as nat),
{
    match i {
        0 => FrameType::HandshakeReq,
        1 => FrameType::HandshakeAck,
        2 => FrameType::AuthFail,
        3 => FrameType::StreamOpen,
        4 => FrameType::StreamOpenAck,
        5 => FrameType::StreamData,
        6 => FrameType::StreamClose,
        7 => FrameType::Heartbeat,
        8 => FrameType::HeartbeatAck,
        9 => FrameType::UdpDatagram,
        10 => FrameType::Probe,
        _ => FrameType::Error,
    }
}

/// Byte encoding of a valid frame used as the fuzz baseline: a random type,
/// stream id, payload (under 128 bytes) and padding (under 16 bytes).
pub fn base_frame_bytes(prng: &mut Prng) -> (b: Vec<u8>)
    ensures
        ({
            let (t, sid, payload, padding, s) = base_frame_of(old(prng).state());
            &&& final(prng).state() == s
            &&& exists|f: Frame|
                f.version == 1 && f.frame_type == t && f.stream_id == sid && f.payload@ == payload
                    && f.padding@ == padding && b@ == frame_encoding(f)
        }),
        decode_step(b@) matches DecodeStep::Done { total, .. } && total == b@.len(),
{
    let t = frame_type_at(prng.next_usize(12));
    let payload_len = prng.next_usize(128);
    let payload = prng.next_bytes(payload_len);
    let padding_len = prng.next_usize(16);
    let padding = prng.next_bytes(padding_len);
    let stream_id = prng.next_u64() as u32;
    let frame = Frame { version: 0x01, frame_type: t, stream_id, payload, padding };
    let buf = frame.encode_to_vec();
    proof {
        crate::protocol::frame::lemma_decode_whole(frame);
    }
    buf
}

/// The wire byte listed at index `i` (used when forging oversized length headers).
fn frame_type_byte_at(i: usize) -> (b: u8)
    requires
        i < 12,
    ensures
        b == fuzz_type_byte(i as nat),
{
    match i {
        0 => 0x01,
        1 => 0x02,
        2 => 0x03,
        3 => 0x10,
        4 => 0x11,
        5 => 0x12,
        6 => 0x13,
        7 => 0x20,
        8 => 0x21,
        9 => 0x30,
        10 => 0xFE,
        _ => 0xFF,
    }
}

/// Appends a mutation of `base` to `out`: a random block, a truncation, a single
/// bit flip, a duplication, or a forged header claiming a `u32::MAX` payload.
pub fn mutate(prng: &mut Prng, base: &[u8], out: &mut Vec<u8>)
    ensures
        (final(out)@, final(prng).state()) == mutation_of(old(out)@, base@, old(prng).state()),
        final(out)@.len() >= old(out)@.len(),
{
    let choice = prng.next_usize(5);
    if choice == 0 {
        let len = prng.next_usize(256);
        let block = prng.next_bytes(len);
        put_slice(out, block.as_slice());
    } else if choice == 1 {
        let bound = if base.len() < usize::MAX {
            base.len() + 1
        } else {
            usize::MAX
        };
        let n = prng.next_usize(bound);
        let cut = if n < base.len() {
            n
        } else {
            base.len()
        };
        let prefix = copy_range(base, 0, cut);
        put_slice(out, prefix.as_slice());
    } else if choice == 2 {
        put_slice(out, base);
        if out.len() > 0 {
            let i = prng.next_usize(out.len());
            let bit = prng.next_usize(8);
            let flipped: u8 = out[i] ^ (1u8 << (bit as u8));
            out.set(i, flipped);
        }
    } else if choice == 3 {
        put_slice(out, base);
        put_slice(out, base);
    } else {
        put_u16_le(out, MAGIC);
        out.push(0x01);
        let t = frame_type_byte_at(prng.next_usize(12));
        out.push(t);
        let sid = prng.next_u64() as u32;
        put_u32_le(out, sid);
        put_u32_le(out, u32::MAX);
        let len = prng.next_usize(64);
        let tail = prng.next_bytes(len);
        put_slice(out, tail.as_slice());
    }
}

/// What is left of `b` after decoding frames from its start until it holds
/// no complete frame or holds malformed bytes.
pub open spec fn drained(b: Seq<u8>) -> Seq<u8>
    decreases b.len(),
{
    match decode_step(b) {
        DecodeStep::Done { total, .. } => {
            proof {
                crate::protocol::frame::lemma_decode_consumes(b);
            }
            if 0 < total <= b.len() {
                drained(b.subrange(total as int, b.len() as int))
            } else {
                b
            }
        },
        _ => b,
    }
}

/// Stream-consuming decode: repeatedly decodes frames until the buffer holds no
/// complete frame or holds malformed bytes. Each decoded frame consumes at least
/// 18 bytes, so the loop terminates.
pub fn drain_frame_decode(buf: &mut Vec<u8>)
    ensures
        final(buf)@ == drained(old(buf)@),
        !(decode_step(final(buf)@) is Done),
        final(buf)@.len() <= old(buf)@.len(),
{
    loop
        invariant
            buf@.len() <= old(buf)@.len(),
            drained(buf@) == drained(old(buf)@),
        decreases buf@.len(),
    {
        let ghost before = buf@;
        proof {
            crate::protocol::frame::lemma_decode_consumes(before);
        }
        match Frame::decode(buf) {
            Ok(Some(_)) => {},
            _ => {
                proof {
                    assert(!(decode_step(before) is Done));
                    assert(drained(before) == before);
                }
                return ;
            },
        }
    }
}

/// Handshake payload decode smoke: feeds the bytes to both handshake decoders.
pub fn drain_handshake_decode(payload: &[u8]) {
    let _ = HandshakeReq::decode_payload(payload);
    let _ = HandshakeAck::decode_payload(payload);
}

/// Runs the deterministic fuzz and returns the number of inputs fed to the
/// decoders: six per iteration.
pub fn fuzz_protocol(seed: u64, iters: usize) -> (executed: u64)
    requires
        iters * 6 <= u64::MAX,
    ensures
        executed == iters * 6,
{
    let mut prng = Prng::new(seed);
    let mut executed: u64 = 0;
    let mut k: usize = 0;
    while k < iters
        invariant
            k <= iters,
            iters * 6 <= u64::MAX,
            executed == k * 6,
        decreases iters - k,
    {
        let base = base_frame_bytes(&mut prng);

        // 1) a mutated valid frame
        let mut mutated: Vec<u8> = Vec::new();
        mutate(&mut prng, base.as_slice(), &mut mutated);
        drain_frame_decode(&mut mutated);
        executed = executed + 1;

        // 2) pure random bytes of random length
        let len = prng.next_usize(256);
        let mut random = prng.next_bytes(len);
        drain_frame_decode(&mut random);
        executed = executed + 1;

        // 3) mutated handshake payloads
        let req = HandshakeReq::build("fuzz-client", "fuzz-token", "tcp");
        let ack = HandshakeAck::build("fuzz-session", 5, 30);
        let req_payload = req.encode_payload();
        let ack_payload = ack.encode_payload();
        let mut m1: Vec<u8> = Vec::new();
        let mut m2: Vec<u8> = Vec::new();
        mutate(&mut prng, req_payload.as_slice(), &mut m1);
        mutate(&mut prng, ack_payload.as_slice(), &mut m2);
        drain_handshake_decode(m1.as_slice());
        drain_handshake_decode(m2.as_slice());
        executed = executed + 2;

        // 4) a valid frame followed by random bytes (fragmented/reassembled packets)
        let mut spliced: Vec<u8> = Vec::new();
        put_slice(&mut spliced, base.as_slice());
        let len = prng.next_usize(64);
        let extra = prng.next_bytes(len);
        put_slice(&mut spliced, extra.as_slice());
        drain_frame_decode(&mut spliced);
        executed = executed + 1;

        // 5) a truncated valid frame
        let bound = if base.len() < usize::MAX {
            base.len() + 1
        } else {
            usize::MAX
        };
        let prefix_len = prng.next_usize(bound);
        let cut = if prefix_len < base.len() {
            prefix_len
        } else {
            base.len()
        };
        let mut prefix = copy_range(base.as_slice(), 0, cut);
        drain_frame_decode(&mut prefix);
        executed = executed + 1;
        k = k + 1;
    }
    executed
}

} // verus!
