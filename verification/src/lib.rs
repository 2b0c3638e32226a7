//! MSIP: a compact publish/subscribe protocol and the broker that speaks it.
//!
//! `protocol` holds the wire format of the fixed 24-byte frame header.
//! `server` holds the broker's registry and fan-out, the dispatch of decoded
//! frames and the state machine of one connection. Reading and writing
//! sockets is left to the program that embeds the library.

pub mod protocol;
pub mod server;
