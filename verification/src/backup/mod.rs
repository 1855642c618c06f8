//! Backups of the node state.

pub mod state_snapshot;
