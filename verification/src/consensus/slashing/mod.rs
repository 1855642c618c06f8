//! Slashing: detection of offenses, evidence, challenges and execution.

pub mod challenge;
pub mod detector;
pub mod evidence;
pub mod executor;

pub use challenge::{
    ChallengeError, ChallengeManager, ChallengeRecord, ChallengeStatus, CounterEvidenceOutcome,
    CHALLENGE_PERIOD_SECS,
};
pub use detector::{
    ObservedProposal, OffenseType, SlashingConditionDetector, SlashingViolation,
    UNAVAILABILITY_THRESHOLD,
};
pub use evidence::{EvidenceError, EvidenceStore, EvidenceSubmission, VerificationResult};
pub use executor::{ExecutorError, SlashingExecutor, SlashingResult, StakeRegistry};
