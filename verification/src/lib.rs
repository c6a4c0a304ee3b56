//! Core of a local-network device-linking service: peer discovery bookkeeping,
//! a connection registry, the link-handshake protocol, and the framed message
//! codec used on every socket.
//!
//! Network and UI plumbing live outside this crate; everything here is pure
//! logic over plain values, verified against the contracts below.

pub mod channel;
pub mod codec;
pub mod discovery;
pub mod errors;
pub mod handshake;
pub mod messages;
pub mod registry;
pub mod relay;
pub mod transfer;
