use verinode_core::db::cache::{
    CacheConfig, DEFAULT_OPERATION_BUDGET_MS, RedisCacheConfig, TtlCache,
};

#[test]
fn get_returns_value_before_ttl_and_miss_after_expiry() {
    let mut cache = TtlCache::new(CacheConfig::with_ttl(50));
    cache.insert("validator:1", 42u64, 1_000, None);

    assert_eq!(cache.get(&"validator:1", 1_049), Some(42));
    assert_eq!(cache.get(&"validator:1", 1_050), None);

    let metrics = cache.metrics();
    assert_eq!(metrics.hits, 1);
    assert_eq!(metrics.misses, 1);
    assert_eq!(metrics.expirations, 1);
}

#[test]
fn per_entry_ttl_overrides_default() {
    let mut cache = TtlCache::new(CacheConfig::with_ttl(1_000));
    cache.insert("committee", [7u8; 32], 10, Some(5));

    assert_eq!(cache.get(&"committee", 14), Some([7u8; 32]));
    assert_eq!(cache.get(&"committee", 15), None);
}

#[test]
fn capacity_evicts_oldest_entry() {
    let mut config = CacheConfig::default();
    config.max_entries = 2;
    let mut cache = TtlCache::new(config);

    cache.insert(1u64, "a", 10, None);
    cache.insert(2u64, "b", 11, None);
    cache.insert(3u64, "c", 12, None);

    assert_eq!(cache.len(), 2);
    assert_eq!(cache.get(&1, 13), None);
    assert_eq!(cache.get(&2, 13), Some("b"));
    assert_eq!(cache.metrics().evictions, 1);
}

#[test]
fn metrics_report_hit_ratio_for_dashboards() {
    let mut cache = TtlCache::default();
    cache.insert("key", "value", 0, None);
    assert_eq!(cache.get(&"key", 1), Some("value"));
    assert_eq!(cache.get(&"missing", 1), None);

    assert_eq!(cache.metrics().hit_ratio_bps(), 5_000);
}

#[test]
fn redis_config_defaults_to_tls_and_latency_budget() {
    let redis = RedisCacheConfig::new("rediss://cache.internal:6379/0");
    assert!(redis.require_tls);
    assert_eq!(redis.timeout_ms, DEFAULT_OPERATION_BUDGET_MS);
    assert_eq!(redis.pool_size, 16);
}
