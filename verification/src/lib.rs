//! Core of a replicated, content-addressed blob store.
//!
//! A cluster of nodes agrees on an ordered log of write operations, applies that
//! log to a local state machine and keeps the written objects in a directory
//! tree that is sharded by object id. This crate holds the parts of such a node
//! that decide and compute: the durable log and metadata store, the state
//! machine with its snapshots, the layout of the object tree, and the rules by
//! which requests are answered. Every function here is verified against its
//! contract. The calls into `sled`, which keeps log and metadata on disk, are
//! the exception: `store::tree` states what is believed of them.
pub mod config;
pub mod consensus;
pub mod network;
pub mod node;
pub mod store;
pub mod text;
pub mod wire;

pub use config::Args;
pub use node::StorageNode;
pub use node::StorageNodeId;
pub use node::StorageNodeView;
