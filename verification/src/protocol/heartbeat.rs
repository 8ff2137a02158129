//! Zorv protocol heartbeat: HEARTBEAT / HEARTBEAT_ACK frames, timestamp parsing
//! and the missed-heartbeat state.
//!
//! The asynchronous scheduling (periodic sending, timeout detection) lives in the
//! tunnel loops of the programs; this module holds the data and the decisions.

use vstd::prelude::*;
use crate::common::crypto::now_millis;
use crate::common::random::random_u32_between;
use crate::common::wire::{get64, get_u64_le, le64, lemma_get64_le64, put_u64_le};
use crate::protocol::frame::{Frame, FrameType, CONTROL_STREAM_ID, VERSION};

verus! {

/// Threshold of consecutive missed heartbeats before declaring a disconnect.
pub const HEARTBEAT_MISS_MAX: u32 = 3;

/// A random heartbeat interval, in seconds, within `[min_sec, max_sec]`.
///
/// The range must not be empty (`min_sec <= max_sec`).
pub fn random_heartbeat_interval(min_sec: u32, max_sec: u32) -> (secs: u64)
    requires
        min_sec <= max_sec,
    ensures
        min_sec <= secs <= max_sec,
{
    random_u32_between(min_sec, max_sec) as u64
}

/// Builds a `HEARTBEAT` control frame whose payload is the current millisecond
/// timestamp as 8 little-endian bytes.
pub fn heartbeat_frame() -> (f: Frame)
    ensures
        f.version == VERSION,
        f.frame_type == FrameType::Heartbeat,
        f.stream_id == CONTROL_STREAM_ID,
        exists|ts: u64| f.payload@ == le64(ts),
        f.padding@.len() == 0,
{
    let ts = now_millis();
    let mut payload: Vec<u8> = Vec::new();
    put_u64_le(&mut payload, ts);
    proof {
        assert(payload@ =~= le64(ts));
    }
    Frame::new_control(FrameType::Heartbeat, payload)
}

/// Builds a `HEARTBEAT_ACK` control frame echoing the peer's timestamp.
pub fn heartbeat_ack_frame(peer_timestamp: u64) -> (f: Frame)
    ensures
        f.version == VERSION,
        f.frame_type == FrameType::HeartbeatAck,
        f.stream_id == CONTROL_STREAM_ID,
        f.payload@ == le64(peer_timestamp),
        f.padding@.len() == 0,
{
    let mut payload: Vec<u8> = Vec::new();
    put_u64_le(&mut payload, peer_timestamp);
    proof {
        assert(payload@ =~= le64(peer_timestamp));
    }
    Frame::new_control(FrameType::HeartbeatAck, payload)
}

/// Parses the timestamp from a HEARTBEAT / HEARTBEAT_ACK payload: its first 8
/// bytes, little-endian. Returns `Err(())` if the payload is shorter than 8 bytes.
pub fn parse_timestamp(payload: &[u8]) -> (r: Result<u64, ()>)
    ensures
        payload@.len() < 8 ==> r is Err,
        payload@.len() >= 8 ==> r == Ok::<u64, ()>(get64(payload@, 0)),
{
    if payload.len() < 8 {
        return Err(());
    }
    Ok(get_u64_le(payload, 0))
}

/// The timestamp written into a heartbeat payload is the one parsed back from it.
pub proof fn lemma_timestamp_roundtrip(ts: u64, rest: Seq<u8>)
    ensures
        get64(le64(ts) + rest, 0) == ts,
{
    let s = le64(ts) + rest;
    assert(s.subrange(0, 8) =~= le64(ts));
    lemma_get64_le64(s, 0, ts);
}

/// Heartbeat logic state.
///
/// Tracks the heartbeat interval range and the consecutive missed count:
/// `on_heartbeat_sent` after each HEARTBEAT sent (+1 to the miss count),
/// `on_heartbeat_ack` when the HEARTBEAT_ACK arrives (reset to 0). The
/// connection is considered dead once `miss_count >= max_miss`.
#[derive(Debug, Clone)]
pub struct HeartbeatState {
    pub min_sec: u32,
    pub max_sec: u32,
    pub miss_count: u32,
    pub max_miss: u32,
}

/// The miss count after `k` heartbeats sent without an acknowledgement,
/// starting from `m` (saturating at `u32::MAX`).
pub open spec fn misses_after(m: u32, k: nat) -> u32
    decreases k,
{
    if k == 0 {
        m
    } else {
        let n = misses_after(m, (k - 1) as nat);
        if n == u32::MAX {
            n
        } else {
            (n + 1) as u32
        }
    }
}

impl HeartbeatState {
    /// A fresh state: no misses, threshold `HEARTBEAT_MISS_MAX`.
    pub fn new(min_sec: u32, max_sec: u32) -> (s: HeartbeatState)
        ensures
            s.min_sec == min_sec,
            s.max_sec == max_sec,
            s.miss_count == 0,
            s.max_miss == HEARTBEAT_MISS_MAX,
    {
        HeartbeatState { min_sec, max_sec, miss_count: 0, max_miss: HEARTBEAT_MISS_MAX }
    }

    /// The next heartbeat interval in seconds, random within `[min_sec, max_sec]`.
    pub fn next_interval(&self) -> (secs: u64)
        requires
            self.min_sec <= self.max_sec,
        ensures
            self.min_sec <= secs <= self.max_sec,
    {
        random_heartbeat_interval(self.min_sec, self.max_sec)
    }

    /// Call after sending a heartbeat; the miss count is incremented with saturation.
    pub fn on_heartbeat_sent(&mut self)
        ensures
            final(self).miss_count == misses_after(old(self).miss_count, 1),
            final(self).min_sec == old(self).min_sec,
            final(self).max_sec == old(self).max_sec,
            final(self).max_miss == old(self).max_miss,
    {
        proof {
            reveal_with_fuel(misses_after, 2);
        }
        if self.miss_count < u32::MAX {
            self.miss_count = self.miss_count + 1;
        }
    }

    /// Call after receiving a heartbeat ack; resets the miss count to zero.
    pub fn on_heartbeat_ack(&mut self)
        ensures
            final(self).miss_count == 0,
            final(self).min_sec == old(self).min_sec,
            final(self).max_sec == old(self).max_sec,
            final(self).max_miss == old(self).max_miss,
    {
        self.miss_count = 0;
    }

    /// Whether the connection is dead due to consecutive missed responses.
    pub fn is_dead(&self) -> (dead: bool)
        ensures
            dead == (self.miss_count >= self.max_miss),
    {
        self.miss_count >= self.max_miss
    }
}

/// From an acknowledged state, the connection is declared dead exactly once
/// `HEARTBEAT_MISS_MAX` heartbeats in a row went unanswered.
pub proof fn lemma_dead_after_misses(k: nat)
    requires
        k <= u32::MAX,
    ensures
        misses_after(0, k) == k,
        (misses_after(0, k) >= HEARTBEAT_MISS_MAX) == (k >= HEARTBEAT_MISS_MAX),
    decreases k,
{
    if k > 0 {
        lemma_dead_after_misses((k - 1) as nat);
    }
}

} // verus!
