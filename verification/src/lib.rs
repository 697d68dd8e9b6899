//! Core synchronization and vault state-machine engine of a multi-party
//! Bitcoin custody daemon.
//!
//! The library holds the verified logic: the vault status lattice, the
//! persistent store's logical operations, the chain poller's decisions, the
//! reorg-rescan engine and the RPC request dispatcher. The unverified shell
//! around it talks to the Bitcoin node, SQLite and the wire, and hands the
//! library plain values.

pub mod types;
pub mod status;
pub mod vault;
pub mod store;
pub mod cache;
pub mod state;
pub mod poller;
pub mod rescan;
pub mod rpc;
pub mod laws;
