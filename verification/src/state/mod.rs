//! The persistent state kept on disk: per-pane agent records, global
//! settings, and the store's path and reconciliation logic.

pub mod store;
pub mod types;
