//! A gateway between a line-oriented channel protocol and a federated,
//! room-based chat service.
//!
//! The crate holds the translation and synchronisation engine: the
//! identifiers, the events of the room service, the messages of the channel
//! protocol, the per-room state machine and the orchestrator that owns the
//! room table and the ledger of events already seen. Everything that touches
//! a socket lives outside of it and exchanges plain values with it.

pub mod text;
pub mod irc;
pub mod matrix;
pub mod translate;
pub mod room;
pub mod bridge;
