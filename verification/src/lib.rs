//! A small entity-replication and session-management layer for real-time
//! multiplayer sessions: a server that relays state between joined peers and
//! a client that mirrors remote peers' replicated entities, together with a
//! deterministic wire codec for the protocol messages.

pub mod client;
pub mod codec;
pub mod protocol;
pub mod server;
pub mod tables;
