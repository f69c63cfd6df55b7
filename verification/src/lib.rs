//! A user-space TCP transport core: 32-bit circular sequence-number
//! arithmetic, per-connection transmission control blocks driving the
//! passive-open handshake, and a connection table that demultiplexes
//! inbound IPv4/TCP datagrams by their 4-tuple identity.

pub mod codec;
pub mod engine;
pub mod segment;
pub mod seqnum;
pub mod table;
pub mod tcb;
