//! Network layer - packet definitions and per-connection game logic.
//!
//! See [`connection`] for the login handshake and per-connection packet handling,
//! and [`packet`] for the incoming and outgoing packet types.

pub mod connection;
pub mod packet;
