//! Slashing history of the validators.

pub mod accumulator;
pub mod types;
