//! Storage of the transmissions that BFT certificates commit to.
pub mod collections;
pub mod laws;
pub mod memory;
pub mod service;
