//! Zorv unified error types.
//!
//! All fallible operations of the library return `Result<T, ZorvError>`.
//! `ZorvError::to_message` renders the human-readable text of an error.

use vstd::prelude::*;
use crate::common::text::{decimal, push_decimal};

verus! {

#[verifier::external_type_specification]
#[verifier::external_body]
pub struct ExIoError(std::io::Error);

/// Zorv top-level error enum.
#[derive(Debug)]
pub enum ZorvError {
    /// IO error (file, network read/write, etc.).
    Io(std::io::Error),
    /// TLS-related error, described as text.
    Tls(String),
    /// Protocol error, wrapping the more specific `ProtocolError` variants.
    Protocol(ProtocolError),
    /// Authentication failure (invalid token, signature mismatch, IP not allowed, etc.).
    Auth(String),
    /// Configuration error (parsing, missing fields, invalid values, etc.).
    Config(String),
    /// Multiplexing stream-related errors.
    Stream(StreamError),
    /// Other uncategorized errors.
    Other(String),
}

/// Protocol-layer errors (frame parsing, handshake, etc.).
#[derive(Debug, Clone, Copy, PartialEq, Eq, Structural)]
pub enum ProtocolError {
    /// Magic number mismatch.
    InvalidMagic,
    /// CRC32 checksum failure.
    InvalidCrc,
    /// Incomplete frame; more data is needed.
    Incomplete,
    /// Unknown frame type.
    InvalidFrameType(u8),
    /// Unsupported protocol version.
    InvalidVersion(u8),
}

/// Multiplexing stream errors.
#[derive(Debug, Clone, Copy, PartialEq, Eq, Structural)]
pub enum StreamError {
    /// Stream is closed.
    Closed(u32),
    /// No stream with the given id was found.
    NotFound(u32),
    /// Stream rejected by the peer.
    Rejected(u32),
}

/// The debug text of a protocol error, e.g. `InvalidFrameType(153)`.
pub open spec fn protocol_error_text(e: ProtocolError) -> Seq<char> {
    match e {
        ProtocolError::InvalidMagic => "InvalidMagic"@,
        ProtocolError::InvalidCrc => "InvalidCrc"@,
        ProtocolError::Incomplete => "Incomplete"@,
        ProtocolError::InvalidFrameType(b) => "InvalidFrameType("@ + decimal(b as nat) + ")"@,
        ProtocolError::InvalidVersion(b) => "InvalidVersion("@ + decimal(b as nat) + ")"@,
    }
}

/// The debug text of a stream error, e.g. `Closed(3)`.
pub open spec fn stream_error_text(e: StreamError) -> Seq<char> {
    match e {
        StreamError::Closed(id) => "Closed("@ + decimal(id as nat) + ")"@,
        StreamError::NotFound(id) => "NotFound("@ + decimal(id as nat) + ")"@,
        StreamError::Rejected(id) => "Rejected("@ + decimal(id as nat) + ")"@,
    }
}

/// The text of an error, for every variant but `Io` (whose text is the io error's own).
pub open spec fn error_text(e: &ZorvError) -> Seq<char> {
    match e {
        ZorvError::Io(_) => "io error: "@,
        ZorvError::Tls(s) => "tls error: "@ + s@,
        ZorvError::Protocol(p) => "protocol error: "@ + protocol_error_text(*p),
        ZorvError::Auth(s) => "auth error: "@ + s@,
        ZorvError::Config(s) => "config error: "@ + s@,
        ZorvError::Stream(p) => "stream error: "@ + stream_error_text(*p),
        ZorvError::Other(s) => "other error: "@ + s@,
    }
}

/// Appends `t` to `s`.
pub fn push_str(s: &mut String, t: &str)
    ensures
        final(s)@ == old(s)@ + t@,
{
    let mut i: usize = 0;
    let n = t.unicode_len();
    while i < n
        invariant
            n == t@.len(),
            i <= n,
            s@ == old(s)@ + t@.subrange(0, i as int),
        decreases n - i,
    {
        let c = t.get_char(i);
        crate::common::text::push_char(s, c);
        i = i + 1;
        proof {
            assert(s@ =~= old(s)@ + t@.subrange(0, i as int));
        }
    }
    proof {
        assert(t@.subrange(0, n as int) =~= t@);
    }
}

fn push_tagged_number(s: &mut String, tag: &str, n: u64)
    ensures
        final(s)@ == old(s)@ + tag@ + decimal(n as nat) + ")"@,
{
    push_str(s, tag);
    push_decimal(s, n);
    push_str(s, ")");
}

/// The text of an `io::Error`.
#[verifier::external_body]
fn io_error_text(e: &std::io::Error) -> String {
    e.to_string()
}

impl ZorvError {
    /// Renders the error as text, e.g. `auth error: invalid token`.
    pub fn to_message(&self) -> (m: String)
        ensures
            !(self is Io) ==> m@ == error_text(self),
    {
        let mut m = String::new();
        match self {
            ZorvError::Io(e) => {
                push_str(&mut m, "io error: ");
                let t = io_error_text(e);
                push_str(&mut m, t.as_str());
            },
            ZorvError::Tls(s) => {
                push_str(&mut m, "tls error: ");
                push_str(&mut m, s.as_str());
            },
            ZorvError::Protocol(p) => {
                push_str(&mut m, "protocol error: ");
                match p {
                    ProtocolError::InvalidMagic => push_str(&mut m, "InvalidMagic"),
                    ProtocolError::InvalidCrc => push_str(&mut m, "InvalidCrc"),
                    ProtocolError::Incomplete => push_str(&mut m, "Incomplete"),
                    ProtocolError::InvalidFrameType(b) => push_tagged_number(
                        &mut m,
                        "InvalidFrameType(",
                        *b as u64,
                    ),
                    ProtocolError::InvalidVersion(b) => push_tagged_number(
                        &mut m,
                        "InvalidVersion(",
                        *b as u64,
                    ),
                }
            },
            ZorvError::Auth(s) => {
                push_str(&mut m, "auth error: ");
                push_str(&mut m, s.as_str());
            },
            ZorvError::Config(s) => {
                push_str(&mut m, "config error: ");
                push_str(&mut m, s.as_str());
            },
            ZorvError::Stream(p) => {
                push_str(&mut m, "stream error: ");
                match p {
                    StreamError::Closed(id) => push_tagged_number(&mut m, "Closed(", *id as u64),
                    StreamError::NotFound(id) => push_tagged_number(
                        &mut m,
                        "NotFound(",
                        *id as u64,
                    ),
                    StreamError::Rejected(id) => push_tagged_number(
                        &mut m,
                        "Rejected(",
                        *id as u64,
                    ),
                }
            },
            ZorvError::Other(s) => {
                push_str(&mut m, "other error: ");
                push_str(&mut m, s.as_str());
            },
        }
        proof {
            if !(self is Io) {
                assert(m@ =~= error_text(self));
            }
        }
        m
    }
}

} // verus!
