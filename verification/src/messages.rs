//! The messages that nodes exchange, as far as their frames are concerned.
pub mod codec;
pub mod framing;
pub mod message_id;
