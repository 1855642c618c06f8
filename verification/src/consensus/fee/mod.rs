//! Fees of finalized blocks.

pub mod burn;

pub use burn::split_fee;
