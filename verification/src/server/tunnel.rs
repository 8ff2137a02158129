//! Server-side tunnel decisions: admitting a handshake, what to do with each
//! frame a client sends, and when an idle tunnel is given up.
//!
//! The connection itself (TLS, the reader, writer and idle-monitor tasks) is
//! run by the binary, which performs the actions decided here.

use vstd::prelude::*;
use vstd::utf8::*;
use crate::common::crypto::{gen_nonce, is_uuid_v4_text, now_millis};
use crate::common::error::{error_text, ZorvError};
use crate::common::tables::opt_view;
use crate::common::wire::{get32, get64};
use crate::protocol::frame::{Frame, FrameType, CONTROL_STREAM_ID, VERSION};
use crate::protocol::handshake::{
    ack_payload, handshake_verdict, verify_handshake_at, verify_version, HandshakeAck,
    HandshakeReq, PKG_VERSION,
};
use crate::protocol::heartbeat::{heartbeat_ack_frame, parse_timestamp};
use crate::protocol::handshake::read16;
use crate::common::wire::le64;
use crate::protocol::multiplex::{parse_stream_open_ack_payload, parse_udp_datagram};
use crate::server::auth::{valid_client_id, validate_client_id};

verus! {

/// Reconnect refusal window after a kick (seconds).
pub const KICK_REJECT_WINDOW_SECS: u64 = 60;
/// How often the idle monitor looks at a tunnel (seconds).
pub const IDLE_CHECK_INTERVAL_SECS: u64 = 5;

/// Why a handshake is refused (the `AUTH_FAIL` reason), or `None` to accept it.
/// The checks come in this order: the client id, a recent kick, the version,
/// then the timestamp and HMAC (`verdict`).
pub open spec fn admission_of(
    client_id: Seq<char>,
    version: Seq<char>,
    kicked: bool,
    verdict: Option<Seq<char>>,
) -> Option<Seq<char>> {
    if !valid_client_id(client_id) {
        Some("invalid client_id"@)
    } else if kicked {
        Some("Kicked by admin"@)
    } else if version != PKG_VERSION@ {
        Some("auth error: "@ + ("version mismatch: client="@ + version + " server="@ + PKG_VERSION@))
    } else {
        match verdict {
            None => None,
            Some(m) => Some("auth error: "@ + m),
        }
    }
}

/// Decides whether a handshake is admitted at `now`; `kicked` tells whether the
/// client id is within its kick window. Returns the refusal reason for the
/// `AUTH_FAIL` frame, or `None` to accept.
pub fn admission_at(req: &HandshakeReq, kicked: bool, server_token: &str, now: u64) -> (r: Option<
    String,
>)
    ensures
        opt_view(r) == admission_of(
            req.client_id@,
            req.version@,
            kicked,
            handshake_verdict(req.timestamp, req.hmac@, server_token@, now),
        ),
{
    if !validate_client_id(req.client_id.as_str()) {
        return Some("invalid client_id".to_owned());
    }
    if kicked {
        return Some("Kicked by admin".to_owned());
    }
    if let Err(e) = verify_version(req.version.as_str(), PKG_VERSION) {
        let m = e.to_message();
        proof {
            assert(m@ =~= admission_of(
                req.client_id@,
                req.version@,
                kicked,
                handshake_verdict(req.timestamp, req.hmac@, server_token@, now),
            )->Some_0);
        }
        return Some(m);
    }
    match verify_handshake_at(req, server_token, now) {
        Ok(()) => None,
        Err(e) => Some(e.to_message()),
    }
}

/// Decides whether a handshake is admitted now (see `admission_at`).
pub fn admission(req: &HandshakeReq, kicked: bool, server_token: &str) -> (r: Option<String>)
    ensures
        exists|now: u64|
            opt_view(r) == admission_of(
                req.client_id@,
                req.version@,
                kicked,
                handshake_verdict(req.timestamp, req.hmac@, server_token@, now),
            ),
{
    admission_at(req, kicked, server_token, now_millis())
}

/// A new session for an admitted client: a random UUID v4 session id and the
/// `HANDSHAKE_ACK` frame that announces it with the heartbeat range.
pub fn new_session_ack(hb_min: u32, hb_max: u32) -> (r: (String, Frame))
    ensures
        is_uuid_v4_text(r.0@),
        r.1.version == VERSION,
        r.1.frame_type == FrameType::HandshakeAck,
        r.1.stream_id == CONTROL_STREAM_ID,
        r.1.payload@ == ack_payload(r.0@, hb_min, hb_max),
        r.1.padding@.len() == 0,
{
    let session_id = gen_nonce();
    let ack = HandshakeAck::build(session_id.as_str(), hb_min, hb_max).into_frame();
    (session_id, ack)
}

/// What the server does with a frame received on a tunnel.
#[derive(Debug)]
pub enum ServerAction {
    /// Send this frame back (a heartbeat acknowledgement).
    Reply(Frame),
    /// Deliver the peer's answer to a pending `STREAM_OPEN`.
    ResolveOpen { stream_id: u32, ok: bool },
    /// Deliver stream data (or, for an unknown stream, tell the client to close it).
    Data { stream_id: u32, payload: Vec<u8> },
    /// Forget a stream closed by the client.
    Close { stream_id: u32 },
    /// Send a UDP reply from the client back to the public peer of the stream.
    Udp { stream_id: u32, data: Vec<u8> },
    /// Nothing to do.
    Ignore,
}

/// `r` is what the server does with `frame` (see `server_frame_action`).
pub open spec fn server_action_of(frame: Frame, r: ServerAction) -> bool {
    let p = frame.payload@;
    match frame.frame_type {
        FrameType::Heartbeat => if p.len() >= 8 {
            &&& r matches ServerAction::Reply(f)
            &&& f.frame_type == FrameType::HeartbeatAck
            &&& f.stream_id == CONTROL_STREAM_ID
            &&& f.version == VERSION
            &&& f.payload@ == le64(get64(p, 0))
            &&& f.padding@.len() == 0
        } else {
            r is Ignore
        },
        FrameType::StreamOpenAck => if p.len() >= 5 {
            r == (ServerAction::ResolveOpen { stream_id: get32(p, 1), ok: p[0] == 0 })
        } else {
            r is Ignore
        },
        FrameType::StreamData => {
            &&& r matches ServerAction::Data { stream_id, payload }
            &&& stream_id == frame.stream_id
            &&& payload@ == p
        },
        FrameType::StreamClose => r == (ServerAction::Close { stream_id: frame.stream_id }),
        FrameType::UdpDatagram => match read16(p, 0) {
            Some((t, o)) => if valid_utf8(t) {
                &&& r matches ServerAction::Udp { stream_id, data }
                &&& stream_id == frame.stream_id
                &&& data@ == p.subrange(o, p.len() as int)
            } else {
                r is Ignore
            },
            None => r is Ignore,
        },
        _ => r is Ignore,
    }
}

/// Decides what to do with a frame that a client sent: a heartbeat is
/// acknowledged with its timestamp, stream-open answers, data, closes and UDP
/// replies go to their stream, and everything else (including payloads that do
/// not parse) is ignored.
pub fn server_frame_action(frame: Frame) -> (r: ServerAction)
    ensures
        server_action_of(frame, r),
{
    match frame.frame_type {
        FrameType::Heartbeat => match parse_timestamp(frame.payload.as_slice()) {
            Ok(ts) => ServerAction::Reply(heartbeat_ack_frame(ts)),
            Err(()) => ServerAction::Ignore,
        },
        FrameType::StreamOpenAck => match parse_stream_open_ack_payload(frame.payload.as_slice()) {
            Ok((ok, sid)) => ServerAction::ResolveOpen { stream_id: sid, ok },
            Err(_) => ServerAction::Ignore,
        },
        FrameType::StreamData => ServerAction::Data {
            stream_id: frame.stream_id,
            payload: frame.payload,
        },
        FrameType::StreamClose => ServerAction::Close { stream_id: frame.stream_id },
        FrameType::UdpDatagram => match parse_udp_datagram(frame.payload.as_slice()) {
            Ok((_target, data)) => ServerAction::Udp { stream_id: frame.stream_id, data },
            Err(_) => ServerAction::Ignore,
        },
        _ => ServerAction::Ignore,
    }
}

/// The idle timeout of a tunnel in milliseconds: `(hb_max * 3 + 10)` seconds.
pub open spec fn idle_timeout_ms(hb_max: u32) -> int {
    (hb_max * 3 + 10) * 1000
}

/// Milliseconds from `since` to `now`, zero when `now` is earlier.
pub open spec fn elapsed_ms(now: u64, since: u64) -> int {
    if now >= since {
        now - since
    } else {
        0
    }
}

/// Whether a tunnel last active at `last_activity` has been idle too long at
/// `now` (elapsed time computed with saturation at zero).
pub fn idle_expired(now: u64, last_activity: u64, hb_max: u32) -> (r: bool)
    ensures
        r == (elapsed_ms(now, last_activity) > idle_timeout_ms(hb_max)),
{
    let timeout_ms: u64 = (hb_max as u64 * 3 + 10) * 1000;
    now.saturating_sub(last_activity) > timeout_ms
}

/// A handshake from a valid, unkicked client of this version, signed with
/// the right token, is admitted at `now` exactly when its timestamp lies within
/// 30 seconds (30 000 ms) of `now`, either way; otherwise it is refused with
/// `auth error: timestamp out of window`.
pub proof fn lemma_admission_time_window(
    client_id: Seq<char>,
    timestamp: u64,
    token: Seq<char>,
    now: u64,
)
    requires
        crate::server::auth::valid_client_id(client_id),
    ensures
        ({
            let skew: int = if now >= timestamp {
                now - timestamp
            } else {
                timestamp - now
            };
            let r = admission_of(
                client_id,
                PKG_VERSION@,
                false,
                crate::protocol::handshake::handshake_verdict(
                    timestamp,
                    crate::protocol::handshake::handshake_mac(token, timestamp),
                    token,
                    now,
                ),
            );
            &&& (r is None <==> skew <= 30_000)
            &&& (skew > 30_000 ==> r == Some("auth error: "@ + "timestamp out of window"@))
        }),
{
}

} // verus!
