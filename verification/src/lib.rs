//! A WebSocket chat core: the frame codec, the opening handshake, the
//! registry of live connections, the broadcast hub and the per-connection
//! state machine. Everything here is pure: the caller owns the sockets and
//! the event queue and performs the reads and writes this crate asks for.

pub mod consts;
pub mod opcode;
pub mod frame;
pub mod encoding;
pub mod mask;
pub mod write;
pub mod read;
pub mod roundtrip;
pub mod event;
pub mod registry;
pub mod hub;
pub mod handshake;
pub mod connection;
