//! The wire format: flag bits, big-endian integers and the frame header codec.

pub mod flags;
pub mod header;
pub mod wire;

pub use flags::FrameFlags;
pub use header::{
    DecodeError, FrameType, Header, MessageKind, HEADER_SIZE, MSIP_MAGIC, MSIP_VERSION,
};
