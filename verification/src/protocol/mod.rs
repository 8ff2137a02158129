//! Zorv's private protocol: frame codec, handshake, heartbeat and multiplexing.

pub mod crc;
pub mod frame;
pub mod handshake;
pub mod heartbeat;
pub mod multiplex;
pub mod fuzz;
