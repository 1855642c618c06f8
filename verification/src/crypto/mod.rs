//! Hash functions and key material.

pub mod blake2b;
pub mod bls_keys;
pub mod domain;
pub mod merkle;
pub mod sha256;
