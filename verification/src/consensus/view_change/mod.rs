//! View-change quorum certificate validation and partition resolver.
//!
//! Under network partitions, divergent quorum certificates (QCs) can be generated concurrently
//! by split validator subsets for the same consensus view. When connectivity is restored, nodes
//! resolve them deterministically and converge on a single canonical certificate:
//!
//! 1. the highest `qc_epoch` wins;
//! 2. with equal epochs, the highest SHA-256 hash of the sorted public-key set wins;
//! 3. with equal key hashes, the higher `block_hash`, then the higher `signature` wins.
//!
//! Losing certificates stay in quarantine for [`QUARANTINE_ROUND_LIMIT`] rounds.

pub mod quarantine;
pub mod resolver;
pub mod types;

pub use quarantine::{QuarantineBuffer, QuarantinedQc};
pub use resolver::{create_conflict_event, QcProcessOutcome, ViewChangeResolver};
pub use types::{
    compute_public_key_set_hash, AggregateSignature, BlockHash, PublicKey, QcConflictDetected,
    QuorumCertificate, ViewChangeError, ViewChangeEvent, CONVERGENCE_ROUND_LIMIT, QC,
    QUARANTINE_ROUND_LIMIT,
};
