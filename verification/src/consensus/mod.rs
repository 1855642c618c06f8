//! Consensus: proposals, view changes, leader election, recovery, fees and slashing.

pub mod engine;
pub mod fee;
pub mod leader_election;
pub mod proposal;
pub mod recovery;
pub mod slashing;
pub mod view_change;
