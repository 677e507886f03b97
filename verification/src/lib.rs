//! Client-side synchronization engine for a real-time poker table.
//!
//! The crate keeps a client's view of a poker table consistent with an
//! authoritative server over an unreliable, bidirectional message channel.
//! It owns the wire codec for the closed tagged-union protocol, the
//! deterministic state machine that applies inbound events to the local
//! table model, and the connection lifecycle policy (heartbeat, bounded
//! reconnection).  Transport I/O and presentation live outside the crate;
//! they hand plain values in and take plain values back.

pub mod auth;
pub mod codec;
pub mod connection;
pub mod dispatcher;
pub mod game;
pub mod lobby;
pub mod types;
