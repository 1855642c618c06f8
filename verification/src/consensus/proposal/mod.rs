//! Observation of block proposals.

pub mod equivocation_detector;

pub use equivocation_detector::{
    EquivocationDetector, EquivocationError, EquivocationProof, Proposal,
};
