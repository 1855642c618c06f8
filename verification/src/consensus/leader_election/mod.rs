//! Leader rotation.

pub mod timeout_leader;

pub use timeout_leader::{LeaderElectionEvent, TimeoutLeader, TimeoutLeaderError};
