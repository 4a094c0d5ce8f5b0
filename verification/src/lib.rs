//! A Raft framework: log storage, membership changes and the decisions of a
//! Raft node, with their contracts.
pub mod types;
pub mod keys;
pub mod key_string;
pub mod raft_store;
pub mod replies;
pub mod error;
pub mod mem_storage;
pub mod log_store;
pub mod compacted_log;
pub mod stored;
pub mod peers;
pub mod codec;
pub mod messages;
pub mod membership;
pub mod node;
pub mod deserializer;
pub mod log_entry;
