//! Client-side decisions: the TLS server name of the server address, the
//! answer to the handshake, what to do with each frame the server sends, and
//! when a local UDP session has timed out.
//!
//! Dialing, TLS, the reader/writer/heartbeat tasks, the local connections and
//! the reconnect backoff are run by the binary.

use vstd::prelude::*;
use vstd::utf8::*;
use crate::common::error::{push_str, ZorvError};
use crate::common::text::{char_slice, text_of_bytes};
use crate::common::wire::{get16, get64, le64};
use crate::protocol::frame::{Frame, FrameType, CONTROL_STREAM_ID, VERSION};
use crate::protocol::handshake::{ack_decoded_as, parse_handshake_ack, read16, HandshakeAck};
use crate::protocol::heartbeat::{heartbeat_ack_frame, parse_timestamp};
use crate::protocol::multiplex::{
    decode_stream_open, parse_error_payload, parse_stream_open_payload, parse_udp_datagram,
};
use crate::protocol::handshake::PayloadDecode;
use crate::server::notify::last_char_index;
use crate::server::tunnel::elapsed_ms;

verus! {

/// A local UDP session is dropped after this long without traffic (ms).
pub const UDP_SESSION_TIMEOUT_MS: u64 = 120000;

/// The host part of a `host:port` server address: everything before the last
/// `:`, or the whole address without one.
pub open spec fn host_of(addr: Seq<char>) -> Seq<char> {
    let k = last_char_index(addr, ':', addr.len() as int);
    if k >= 0 {
        addr.subrange(0, k)
    } else {
        addr
    }
}

/// The host part of a `host:port` server address (see `host_of`), used as the
/// TLS server name.
pub fn server_host(server_addr: &str) -> (h: String)
    ensures
        h@ == host_of(server_addr@),
{
    let n = server_addr.unicode_len();
    let mut to = n;
    while to > 0
        invariant
            n == server_addr@.len(),
            to <= n,
            last_char_index(server_addr@, ':', n as int) == last_char_index(server_addr@, ':', to as int),
        decreases to,
    {
        if server_addr.get_char(to - 1) == ':' {
            return char_slice(server_addr, 0, to - 1);
        }
        to = to - 1;
    }
    proof {
        assert(server_addr@.subrange(0, n as int) =~= server_addr@);
    }
    char_slice(server_addr, 0, n)
}

/// The name of a frame type, as its `Debug` form writes it.
pub open spec fn frame_kind_name(t: FrameType) -> Seq<char> {
    match t {
        FrameType::HandshakeReq => "HandshakeReq"@,
        FrameType::HandshakeAck => "HandshakeAck"@,
        FrameType::AuthFail => "AuthFail"@,
        FrameType::StreamOpen => "StreamOpen"@,
        FrameType::StreamOpenAck => "StreamOpenAck"@,
        FrameType::StreamData => "StreamData"@,
        FrameType::StreamClose => "StreamClose"@,
        FrameType::Heartbeat => "Heartbeat"@,
        FrameType::HeartbeatAck => "HeartbeatAck"@,
        FrameType::UdpDatagram => "UdpDatagram"@,
        FrameType::Probe => "Probe"@,
        FrameType::Error => "Error"@,
    }
}

fn frame_frame_kind_name(t: FrameType) -> (s: &'static str)
    ensures
        s@ == frame_kind_name(t),
{
    match t {
        FrameType::HandshakeReq => "HandshakeReq",
        FrameType::HandshakeAck => "HandshakeAck",
        FrameType::AuthFail => "AuthFail",
        FrameType::StreamOpen => "StreamOpen",
        FrameType::StreamOpenAck => "StreamOpenAck",
        FrameType::StreamData => "StreamData",
        FrameType::StreamClose => "StreamClose",
        FrameType::Heartbeat => "Heartbeat",
        FrameType::HeartbeatAck => "HeartbeatAck",
        FrameType::UdpDatagram => "UdpDatagram",
        FrameType::Probe => "Probe",
        FrameType::Error => "Error",
    }
}

/// The reason carried by an `ERROR` or `AUTH_FAIL` payload (at least two
/// bytes), or `fallback` when its length prefix overruns the payload.
pub open spec fn reason_or(p: Seq<u8>, fallback: Seq<char>) -> Seq<char> {
    if p.len() - 2 >= get16(p, 0) {
        text_of_bytes(p.subrange(2, 2 + get16(p, 0)))
    } else {
        fallback
    }
}

fn reason_text(payload: &[u8], fallback: &str) -> (s: String)
    requires
        payload@.len() >= 2,
    ensures
        s@ == reason_or(payload@, fallback@),
{
    match parse_error_payload(payload) {
        Ok(s) => s,
        Err(_) => fallback.to_string(),
    }
}

/// How the client reads the server's answer to its handshake: a
/// `HANDSHAKE_ACK` is parsed; an `AUTH_FAIL` gives `Auth(reason)` (`rejected by
/// server` when the reason overruns the payload); any other frame gives
/// `Other("unexpected handshake response frame type: <type>")`. An
/// `AUTH_FAIL` payload holds at least its two-byte length.
pub fn handshake_response(frame: &Frame) -> (r: Result<HandshakeAck, ZorvError>)
    requires
        frame.frame_type == FrameType::AuthFail ==> frame.payload@.len() >= 2,
    ensures
        frame.frame_type == FrameType::HandshakeAck ==> ack_decoded_as(frame.payload@, r),
        frame.frame_type == FrameType::AuthFail ==> (r matches Err(ZorvError::Auth(m)) && m@
            == reason_or(frame.payload@, "rejected by server"@)),
        !(frame.frame_type == FrameType::HandshakeAck || frame.frame_type == FrameType::AuthFail)
            ==> (r matches Err(ZorvError::Other(m)) && m@
            == "unexpected handshake response frame type: "@ + frame_kind_name(frame.frame_type)),
{
    match frame.frame_type {
        FrameType::HandshakeAck => parse_handshake_ack(frame),
        FrameType::AuthFail => Err(
            ZorvError::Auth(reason_text(frame.payload.as_slice(), "rejected by server")),
        ),
        other => {
            let mut m = String::new();
            push_str(&mut m, "unexpected handshake response frame type: ");
            push_str(&mut m, frame_frame_kind_name(other));
            Err(ZorvError::Other(m))
        },
    }
}

/// What the client does with a frame received from the server.
#[derive(Debug)]
pub enum ClientAction {
    /// A heartbeat was acknowledged: reset the miss count.
    HeartbeatAcked,
    /// Send this frame back (an acknowledgement of a server heartbeat).
    Reply(Frame),
    /// Open a local connection to `target` for stream `stream_id` (`peer` is
    /// the public caller, possibly empty).
    OpenStream { stream_id: u32, target: String, peer: String },
    /// Deliver data to a stream.
    Data { stream_id: u32, payload: Vec<u8> },
    /// Forget a stream closed by the server.
    Close { stream_id: u32 },
    /// Hand a UDP datagram to the local UDP session of the stream.
    Udp { stream_id: u32, target: String, data: Vec<u8> },
    /// Kicked by the server: stop, without reconnecting.
    Terminate { reason: String },
    /// Nothing to do.
    Ignore,
}

/// `r` is what the client does with `frame` (see `client_frame_action`).
pub open spec fn client_action_of(frame: Frame, r: ClientAction) -> bool {
    let p = frame.payload@;
    match frame.frame_type {
        FrameType::HeartbeatAck => r is HeartbeatAcked,
        FrameType::Heartbeat => if p.len() >= 8 {
            &&& r matches ClientAction::Reply(f)
            &&& f.frame_type == FrameType::HeartbeatAck
            &&& f.stream_id == CONTROL_STREAM_ID
            &&& f.version == VERSION
            &&& f.payload@ == le64(get64(p, 0))
            &&& f.padding@.len() == 0
        } else {
            r is Ignore
        },
        FrameType::StreamOpen => match decode_stream_open(p) {
            PayloadDecode::Decoded((t, q)) => {
                &&& r matches ClientAction::OpenStream { stream_id, target, peer }
                &&& stream_id == frame.stream_id
                &&& target@ == t
                &&& peer@ == q
            },
            _ => r is Ignore,
        },
        FrameType::StreamData => {
            &&& r matches ClientAction::Data { stream_id, payload }
            &&& stream_id == frame.stream_id
            &&& payload@ == p
        },
        FrameType::StreamClose => r matches ClientAction::Close { stream_id } && stream_id
            == frame.stream_id,
        FrameType::UdpDatagram => match read16(p, 0) {
            Some((t, o)) => if valid_utf8(t) {
                &&& r matches ClientAction::Udp { stream_id, target, data }
                &&& stream_id == frame.stream_id
                &&& target@ == decode_utf8(t)
                &&& data@ == p.subrange(o, p.len() as int)
            } else {
                r is Ignore
            },
            None => r is Ignore,
        },
        FrameType::Error => r matches ClientAction::Terminate { reason } && reason@ == reason_or(
            p,
            "unknown"@,
        ),
        _ => r is Ignore,
    }
}

/// Decides what the client does with a frame from the server: acknowledge or
/// answer heartbeats, open, feed or close streams, pass UDP datagrams on, and
/// stop when kicked (an `ERROR` frame, whose payload holds at least its
/// two-byte length). Payloads that do not parse, and other frames, are
/// ignored.
pub fn client_frame_action(frame: Frame) -> (r: ClientAction)
    requires
        frame.frame_type == FrameType::Error ==> frame.payload@.len() >= 2,
    ensures
        client_action_of(frame, r),
{
    match frame.frame_type {
        FrameType::HeartbeatAck => ClientAction::HeartbeatAcked,
        FrameType::Heartbeat => match parse_timestamp(frame.payload.as_slice()) {
            Ok(ts) => ClientAction::Reply(heartbeat_ack_frame(ts)),
            Err(()) => ClientAction::Ignore,
        },
        FrameType::StreamOpen => match parse_stream_open_payload(frame.payload.as_slice()) {
            Ok((target, peer)) => ClientAction::OpenStream {
                stream_id: frame.stream_id,
                target,
                peer,
            },
            Err(_) => ClientAction::Ignore,
        },
        FrameType::StreamData => ClientAction::Data {
            stream_id: frame.stream_id,
            payload: frame.payload,
        },
        FrameType::StreamClose => ClientAction::Close { stream_id: frame.stream_id },
        FrameType::UdpDatagram => match parse_udp_datagram(frame.payload.as_slice()) {
            Ok((target, data)) => ClientAction::Udp { stream_id: frame.stream_id, target, data },
            Err(_) => ClientAction::Ignore,
        },
        FrameType::Error => ClientAction::Terminate {
            reason: reason_text(frame.payload.as_slice(), "unknown"),
        },
        _ => ClientAction::Ignore,
    }
}

/// Whether a local UDP session last active at `last_activity` has timed out
/// at `now` (elapsed time saturating at zero).
pub fn udp_session_expired(now: u64, last_activity: u64) -> (r: bool)
    ensures
        r == (elapsed_ms(now, last_activity) > UDP_SESSION_TIMEOUT_MS),
{
    now.saturating_sub(last_activity) > UDP_SESSION_TIMEOUT_MS
}

/// What the client does after a connection ends.
#[derive(Debug, Clone, Copy, PartialEq, Eq, Structural)]
pub enum ReconnectStep {
    /// Kicked by the server: exit without reconnecting.
    Exit,
    /// `max_retries` reconnects were made already: stop with an error.
    GiveUp,
    /// Back off and reconnect; the number of this reconnect attempt.
    Retry(u32),
}

/// After a connection ends: exit when the server kicked the client; give up
/// once `attempts` reached a nonzero `max_retries` (0 reconnects forever);
/// otherwise reconnect as attempt `attempts + 1`.
pub open spec fn reconnect_step_of(terminated: bool, max_retries: u32, attempts: u32) -> ReconnectStep {
    if terminated {
        ReconnectStep::Exit
    } else if max_retries != 0 && attempts >= max_retries {
        ReconnectStep::GiveUp
    } else {
        ReconnectStep::Retry((attempts + 1) as u32)
    }
}

/// The client's decision after a connection ends (see `reconnect_step_of`).
/// Counting past `u32::MAX` reconnects overflows, so that case is left out.
pub fn reconnect_step(terminated: bool, max_retries: u32, attempts: u32) -> (r: ReconnectStep)
    requires
        terminated || max_retries != 0 || attempts < u32::MAX,
    ensures
        r == reconnect_step_of(terminated, max_retries, attempts),
{
    if terminated {
        ReconnectStep::Exit
    } else if max_retries != 0 && attempts >= max_retries {
        ReconnectStep::GiveUp
    } else {
        ReconnectStep::Retry(attempts + 1)
    }
}

/// With `max_retries` set, counting from 0 the client reconnects exactly
/// `max_retries` times before it gives up: each step below the limit is a
/// retry numbered one more, and the step at the limit gives up.
pub proof fn lemma_retries_bounded(max_retries: u32, attempts: u32)
    requires
        max_retries != 0,
        attempts <= max_retries,
    ensures
        attempts < max_retries ==> reconnect_step_of(false, max_retries, attempts) == ReconnectStep::Retry(
            (attempts + 1) as u32,
        ) && attempts + 1 <= max_retries,
        attempts == max_retries ==> reconnect_step_of(false, max_retries, attempts) == ReconnectStep::GiveUp,
{
}

} // verus!
