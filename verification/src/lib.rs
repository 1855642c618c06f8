//! Verified core of a validator node.

pub mod arith;
pub mod attestation;
pub mod backup;
pub mod byte_order;
pub mod capacity_planning;
pub mod chaos;
pub mod codec;
pub mod config;
pub mod config_audit;
pub mod consensus;
pub mod cross_chain;
pub mod crypto;
pub mod db;
pub mod graceful_degradation;
pub mod incident_response;
pub mod job_scheduler;
pub mod mempool;
pub mod ordered_map;
pub mod seqs;
pub mod slashing;
pub mod text;
