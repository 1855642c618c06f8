//! Recovery from deadlocked views.

pub mod fallback_sync;

pub use fallback_sync::{FallbackSyncEngine, FallbackSyncError, FallbackSyncEvent, LockedValue};
