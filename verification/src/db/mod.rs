//! Persistence: caches, migrations and stores.

pub mod cache;
pub mod migrations;
pub mod slashing_store;
