//! Attestation: signing roots, signature verification with caching, and the proof-of-connectivity
//! protocol with epoch-scoped nonces.
//!
//! [`relay_ticket`] applies the domain-separated signing model to relay endpoint claims, so an
//! endpoint cache can authenticate and authorize every write.

pub mod bls_aggregator;
pub mod nonce_cache;
pub mod nonce_generator;
pub mod proof_of_connectivity;
pub mod relay_ticket;
pub mod signing;
pub mod types;

pub use bls_aggregator::{
    hash_message_to_root, truncated_prefix_32, verify_batch_items_with_cache,
    verify_batch_root_with_cache, verify_batch_with_cache, xor_fold_32, BLSBatchItem,
    BLSBatchVerificationCache, BLSCacheEntry, BLSCacheKey, BLSCacheMetrics,
    DEFAULT_BLS_CACHE_CAPACITY,
};
