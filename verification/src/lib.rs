//! The logic of a node of the Aleo network: the store of pending transmissions, the framing of
//! messages between peers, the books on connections and banned peers, the REST API, and the developer
//! commands.
//!
//! The library does no input or output. Where a decision alternates with work that only the program
//! around it can do, such as a request to another node, a function takes the event that occurred and
//! returns the step that comes next.
pub mod address;
pub mod banned_peers;
pub mod callback_handle;
pub mod connections;
pub mod console;
pub mod developer;
pub mod file_path;
pub mod keyed_list;
pub mod ledger_data;
pub mod messages;
pub mod network;
pub mod node_data;
pub mod node_type;
pub mod rest;
pub mod sequences;
pub mod signals;
pub mod storage;
pub mod text;
