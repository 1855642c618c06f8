use verinode_core::backup::state_snapshot::{
    BackupScheduler, MAX_CHUNKS_PER_SNAPSHOT, MAX_SNAPSHOT_COUNT, RestoreResult, SnapshotHealth,
    StateChunk, StateSnapshot, test_restore,
};

#[test]
fn test_chunk_creation_and_verification() {
    let data = b"hello world";
    let chunk = StateChunk::new(1, data);
    assert!(chunk.verify());
    assert_eq!(chunk.chunk_id, 1);
}

#[test]
fn test_chunk_tamper_detection() {
    let mut chunk = StateChunk::new(1, b"original");
    chunk.data = b"tampered".to_vec();
    assert!(!chunk.verify());
}

#[test]
fn test_snapshot_creation_and_verification() {
    let chunks = vec![
        (1u64, &b"chunk_a"[..]),
        (2u64, &b"chunk_b"[..]),
        (3u64, &b"chunk_c"[..]),
    ];
    let snapshot = StateSnapshot::create(100, 1000, &chunks);
    assert_eq!(snapshot.epoch, 100);
    assert_eq!(snapshot.created_at, 1000);
    assert_eq!(snapshot.chunk_count(), 3);
    assert_eq!(snapshot.verify_integrity(), SnapshotHealth::Healthy);
}

#[test]
fn test_snapshot_root_changes_when_chunk_changes() {
    let chunks_a = vec![(1u64, &b"foo"[..])];
    let chunks_b = vec![(1u64, &b"bar"[..])];
    let snap_a = StateSnapshot::create(1, 0, &chunks_a);
    let snap_b = StateSnapshot::create(1, 0, &chunks_b);
    // Different data → different root hash.
    assert_ne!(snap_a.root_hash, snap_b.root_hash);
}

#[test]
fn test_snapshot_deterministic_root() {
    let chunks = vec![(1u64, &b"xyz"[..])];
    let a = StateSnapshot::create(1, 0, &chunks);
    let b = StateSnapshot::create(1, 0, &chunks);
    assert_eq!(a.root_hash, b.root_hash);
}

#[test]
fn test_get_chunk() {
    let chunks = vec![(42u64, &b"answer"[..])];
    let snap = StateSnapshot::create(1, 0, &chunks);
    assert!(snap.get_chunk(42).is_some());
    assert!(snap.get_chunk(99).is_none());
}

// --- Scheduler tests ---

#[test]
fn test_scheduler_is_due() {
    let mut s = BackupScheduler::with_interval(100);
    assert!(s.is_due(101));
    s.last_snapshot_time = 50;
    assert!(!s.is_due(100)); // 50 + 100 = 150, so 100 is not yet due
    assert!(s.is_due(150));
}

#[test]
fn test_take_and_retrieve_snapshot() {
    let mut s = BackupScheduler::with_interval(100);
    let chunks = vec![(1u64, &b"data"[..])];
    let snap = s.take_snapshot(10, 200, &chunks).unwrap();
    assert_eq!(snap.epoch, 10);
    assert_eq!(s.len(), 1);

    let retrieved = s.get_snapshot(10).unwrap();
    assert_eq!(retrieved.root_hash, snap.root_hash);
}

#[test]
fn test_verify_snapshot_healthy() {
    let mut s = BackupScheduler::with_interval(100);
    let chunks = vec![(1u64, &b"safe"[..])];
    s.take_snapshot(5, 100, &chunks);
    assert_eq!(s.verify_snapshot(5), SnapshotHealth::Healthy);
}

#[test]
fn test_verify_snapshot_missing() {
    let s = BackupScheduler::new();
    assert_eq!(s.verify_snapshot(99), SnapshotHealth::Missing);
}

#[test]
fn test_scheduler_eviction() {
    let mut s = BackupScheduler::with_interval(1);
    // Fill past MAX_SNAPSHOT_COUNT (default 256).
    for epoch in 0..300u64 {
        s.take_snapshot(epoch, epoch, &[(epoch, &b"x"[..])]);
    }
    // Only the most recent MAX_SNAPSHOT_COUNT should remain.
    assert_eq!(s.len(), MAX_SNAPSHOT_COUNT);
    // The oldest entries should be gone.
    assert!(s.get_snapshot(0).is_none());
    assert!(s.get_snapshot(299).is_some());
}

// --- Restore tests ---

#[test]
fn test_restore_success() {
    let mut s = BackupScheduler::with_interval(100);
    let chunks = vec![(1u64, &b"one"[..]), (2u64, &b"two"[..])];
    s.take_snapshot(7, 100, &chunks);

    let restored = vec![(1u64, &b"one"[..]), (2u64, &b"two"[..])];
    assert_eq!(test_restore(&s, 7, &restored), RestoreResult::Success);
}

#[test]
fn test_restore_chunk_mismatch() {
    let mut s = BackupScheduler::with_interval(100);
    s.take_snapshot(7, 100, &[(1u64, &b"correct"[..])]);

    let restored = vec![(1u64, &b"wrong"[..])];
    let result = test_restore(&s, 7, &restored);
    assert!(matches!(result, RestoreResult::ChunkMismatch { .. }));
}

#[test]
fn test_restore_missing_snapshot() {
    let s = BackupScheduler::new();
    assert_eq!(test_restore(&s, 999, &[]), RestoreResult::SnapshotMissing);
}

#[test]
fn test_restore_extra_restored_chunk_is_ok() {
    // Extra restored data beyond what the snapshot knows about is fine.
    let mut s = BackupScheduler::with_interval(100);
    s.take_snapshot(1, 100, &[(1u64, &b"core"[..])]);

    let restored = vec![(1u64, &b"core"[..]), (99u64, &b"extra"[..])];
    assert_eq!(test_restore(&s, 1, &restored), RestoreResult::Success);
}

#[test]
fn test_snapshot_exceeds_max_chunks() {
    let mut s = BackupScheduler::with_interval(1);
    let too_many: Vec<(u64, &[u8])> = (0..=MAX_CHUNKS_PER_SNAPSHOT as u64)
        .map(|i| (i, &b"x"[..]))
        .collect();
    assert!(s.take_snapshot(0, 0, &too_many).is_none());
}
