//! Shared building blocks: byte and text helpers, cryptography, errors.

pub mod text;
pub mod wire;
pub mod error;
pub mod crypto;
pub mod random;
pub mod tables;
