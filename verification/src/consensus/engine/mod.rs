//! The main consensus loop.

pub mod consensus_engine;

pub use consensus_engine::{ConsensusEngine, ConsensusEngineError, ConsensusEngineEvent};
