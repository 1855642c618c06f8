use verinode_core::cross_chain::header_cache::{HeaderCache, RecentHeader};
use verinode_core::cross_chain::types::HEADER_CACHE_CAPACITY;

fn header(height: u64) -> RecentHeader {
    RecentHeader::new(height, height * 1_000, 100, 70, height * 1_000 + 50)
}

#[test]
fn insert_appends_and_tracks_latest() {
    let mut cache = HeaderCache::new();
    assert!(cache.is_empty());
    cache.insert(header(1));
    cache.insert(header(2));
    assert_eq!(cache.len(), 2);
    assert_eq!(cache.latest().unwrap().height, 2);
}

#[test]
fn insert_at_existing_height_replaces_in_place() {
    let mut cache = HeaderCache::new();
    cache.insert(header(1));
    let mut updated = header(1);
    updated.attesting_weight = 99;
    cache.insert(updated);
    assert_eq!(cache.len(), 1);
    assert_eq!(cache.get(1).unwrap().attesting_weight, 99);
}

#[test]
fn cache_evicts_oldest_beyond_capacity() {
    let mut cache = HeaderCache::new();
    for h in 0..(HEADER_CACHE_CAPACITY as u64 + 10) {
        cache.insert(header(h));
    }
    assert_eq!(cache.len(), HEADER_CACHE_CAPACITY);
    // The ten oldest heights (0..10) were evicted.
    assert!(cache.get(9).is_none());
    assert!(cache.get(10).is_some());
    assert_eq!(
        cache.latest().unwrap().height,
        HEADER_CACHE_CAPACITY as u64 + 9
    );
}

#[test]
fn mark_finalized_sets_flag_and_tracks_latest_finalized() {
    let mut cache = HeaderCache::new();
    cache.insert(header(1));
    cache.insert(header(2));
    cache.insert(header(3));
    assert!(cache.mark_finalized(2));
    assert!(!cache.mark_finalized(99));
    assert_eq!(cache.latest_finalized().unwrap().height, 2);
    // A later finalization wins.
    assert!(cache.mark_finalized(3));
    assert_eq!(cache.latest_finalized().unwrap().height, 3);
}

#[test]
fn latest_finalized_is_none_until_something_finalizes() {
    let mut cache = HeaderCache::new();
    cache.insert(header(1));
    assert!(cache.latest_finalized().is_none());
}

#[test]
fn capacity_reports_the_configured_bound() {
    assert_eq!(HeaderCache::new().capacity(), HEADER_CACHE_CAPACITY);
}
