use verinode_core::consensus::view_change::quarantine::QuarantineBuffer;
use verinode_core::consensus::view_change::types::QC;

fn dummy_qc(view: u64, epoch: u64) -> QC {
    let mut h = [0u8; 32];
    h[0] = view as u8;
    let mut pk = [0u8; 32];
    pk[0] = epoch as u8;
    QC::new(view, epoch, h, vec![pk], [0u8; 96])
}

#[test]
fn test_quarantine_retention_and_gc_lifecycle() {
    let mut buffer = QuarantineBuffer::new();
    let qc1 = dummy_qc(10, 1);
    let qc2 = dummy_qc(10, 2);

    // Quarantine qc1 at round 10.
    assert!(buffer.quarantine(qc1.clone(), 10));
    assert_eq!(buffer.len(), 1);
    assert!(buffer.contains(&qc1));

    // Duplicate quarantine is idempotent.
    assert!(!buffer.quarantine(qc1.clone(), 10));
    assert_eq!(buffer.len(), 1);

    // Round 10 -> GC removes nothing (0 rounds elapsed).
    let evicted = buffer.gc(10);
    assert!(evicted.is_empty());
    assert_eq!(buffer.len(), 1);

    // Round 11 -> GC removes nothing (1 round elapsed < QUARANTINE_ROUND_LIMIT = 2).
    let evicted = buffer.gc(11);
    assert!(evicted.is_empty());
    assert_eq!(buffer.len(), 1);

    // Quarantine qc2 at round 11.
    assert!(buffer.quarantine(qc2.clone(), 11));
    assert_eq!(buffer.len(), 2);

    // Round 12 -> 2 rounds elapsed for qc1 (12 - 10 = 2 >= 2). qc1 is evicted; qc2 remains (12 - 11 = 1 < 2).
    let evicted = buffer.gc(12);
    assert_eq!(evicted, vec![qc1.clone()]);
    assert_eq!(buffer.len(), 1);
    assert!(!buffer.contains(&qc1));
    assert!(buffer.contains(&qc2));

    // Round 13 -> 2 rounds elapsed for qc2 (13 - 11 = 2 >= 2). qc2 is evicted.
    let evicted = buffer.gc(13);
    assert_eq!(evicted, vec![qc2]);
    assert!(buffer.is_empty());
}
