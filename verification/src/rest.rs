//! The REST API of a node.
pub mod error;
pub mod requests;
pub mod limits;
pub mod v1;
pub mod router;
pub mod paths;
pub mod cache;
pub mod history;
pub mod snapshots;
pub mod blocks;
pub mod answers;
pub mod broadcast;
