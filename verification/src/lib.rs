//! Zorv: a lightweight self-protocol intranet penetration tool.
//!
//! This crate holds the verified core: the binary frame codec, the handshake,
//! heartbeat and multiplexing payloads, authentication helpers, traffic
//! accounting, session bookkeeping and the admin-console helpers.

pub mod client;
pub mod common;
pub mod protocol;
pub mod server;
