//! Session orchestration and stream reconciliation for agent child processes.
//!
//! The library keeps the decisions of the engine: how raw stream records become
//! messages, tool calls, todos and usage snapshots (`stream`, `dispatch`), how a
//! persisted transcript is replayed and sub-agent logs stitched in
//! (`transcript`, with its model in `shape`), how the permission broker settles
//! requests (`broker`), how the session table evolves (`session`), and the
//! settings and binary resolution (`config`). Process handles, sockets, files
//! and JSON decoding stay with the caller, which hands records over as the
//! plain values of `records`.

mod text;
pub mod events;
pub mod records;
pub mod tracking;
pub mod reconcile;
pub mod stream;
pub mod dispatch;
pub mod shape;
pub mod transcript;
pub mod broker;
pub mod session;
pub mod config;
pub mod discovery;
