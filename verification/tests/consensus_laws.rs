use std::cmp::Ordering;

use verinode_core::consensus::engine::consensus_engine::{
    ConsensusEngine, ConsensusEngineError, ConsensusEngineEvent,
};
use verinode_core::consensus::fee::burn::{finalize_block_fees, split_fee, FeeBurnError};
use verinode_core::consensus::leader_election::timeout_leader::{
    LeaderElectionEvent, TimeoutLeader, BASE_TIMEOUT_MS, MAX_TIMEOUT_MS,
};
use verinode_core::consensus::proposal::equivocation_detector::{
    EquivocationDetector, EquivocationError, Proposal,
};
use verinode_core::consensus::recovery::fallback_sync::{
    FallbackSyncEngine, FallbackSyncError, LockedValue, DEADLOCK_VIEW_THRESHOLD,
};
use verinode_core::consensus::slashing::challenge::{
    ChallengeError, ChallengeManager, ChallengeStatus, CounterEvidenceOutcome,
    CHALLENGE_PERIOD_SECS,
};
use verinode_core::consensus::slashing::detector::{
    OffenseType, SlashingConditionDetector, ATTESTATION_WINDOW_SECS, UNAVAILABILITY_THRESHOLD,
};
use verinode_core::consensus::slashing::evidence::{
    EvidenceError, EvidenceStore, VerificationResult,
};
use verinode_core::consensus::slashing::executor::{
    ExecutorError, SlashingExecutor, StakeRegistry,
};
use verinode_core::consensus::view_change::quarantine::QuarantineBuffer;
use verinode_core::consensus::view_change::resolver::{
    create_conflict_event, QcProcessOutcome, ViewChangeResolver,
};
use verinode_core::consensus::view_change::types::{
    compute_public_key_set_hash, BlockHash, PublicKey, QuorumCertificate, ViewChangeError,
    ViewChangeEvent,
};
use verinode_core::mempool::{BuiltBlock, Transaction, TransactionError};

fn pk(id: u8) -> PublicKey {
    let mut k = [0u8; 32];
    k[31] = id;
    k
}

fn hash(id: u8) -> BlockHash {
    let mut h = [0u8; 32];
    h[31] = id;
    h
}

fn qc(view: u64, epoch: u64, block: u8, signers: &[u8]) -> QuorumCertificate {
    QuorumCertificate::new(
        view,
        epoch,
        hash(block),
        signers.iter().map(|id| pk(*id)).collect(),
        [block; 96],
    )
}

fn proposal(height: u64, proposer: u8, block: u8) -> Proposal {
    Proposal::new(height, pk(proposer), hash(block), [1u8; 96])
}

#[test]
fn key_set_hash_ignores_order_but_not_content() {
    let a = compute_public_key_set_hash(&[pk(1), pk(2), pk(3)]);
    let b = compute_public_key_set_hash(&[pk(3), pk(1), pk(2)]);
    let c = compute_public_key_set_hash(&[pk(1), pk(2), pk(4)]);
    assert_eq!(a, b);
    assert_ne!(a, c);
    assert_eq!(qc(1, 1, 1, &[2, 1]).public_key_set_hash(), compute_public_key_set_hash(&[pk(1), pk(2)]));
}

#[test]
fn tie_break_is_by_epoch_then_keys_then_block() {
    let low = qc(1, 1, 9, &[1]);
    let high = qc(1, 2, 1, &[1]);
    assert_eq!(low.tie_break_cmp(&high), Ordering::Less);
    assert_eq!(high.tie_break_cmp(&low), Ordering::Greater);
    let block_low = qc(1, 1, 1, &[1]);
    assert_eq!(block_low.tie_break_cmp(&low), Ordering::Less);
    assert_eq!(low.tie_break_cmp(&low.clone()), Ordering::Equal);
    let other_keys = qc(1, 1, 1, &[2]);
    assert_eq!(
        block_low.tie_break_cmp(&other_keys),
        block_low
            .public_key_set_hash()
            .cmp(&other_keys.public_key_set_hash())
    );
    assert!(low.is_conflict(&block_low));
    assert!(!low.is_conflict(&low.clone()));
    assert!(!low.is_conflict(&qc(2, 1, 9, &[1])));
    assert!(low.same_as(&low.clone()));
}

#[test]
fn replicas_converge_whatever_the_order() {
    let all = [qc(5, 1, 1, &[1]), qc(5, 3, 2, &[2]), qc(5, 3, 3, &[3]), qc(5, 2, 4, &[4])];
    let orders = [[0, 1, 2, 3], [3, 2, 1, 0], [1, 3, 0, 2], [2, 0, 3, 1]];
    let mut winners: Vec<QuorumCertificate> = Vec::new();
    for order in orders {
        let mut resolver = ViewChangeResolver::new(5);
        for i in order {
            resolver.process_qc(all[i].clone()).unwrap();
        }
        winners.push(resolver.get_accepted_qc(5).unwrap().clone());
        assert_eq!(resolver.quarantine_buffer().len(), 3);
        let winner = resolver.get_accepted_qc(5).unwrap().clone();
        for qc in &all {
            assert_eq!(resolver.is_quarantined(qc), *qc != winner);
        }
    }
    assert!(winners.iter().all(|w| *w == winners[0]));
}

#[test]
fn processing_reports_each_outcome() {
    let mut resolver = ViewChangeResolver::new(5);
    assert_eq!(
        resolver.process_qc(qc(5, 1, 1, &[])),
        Err(ViewChangeError::EmptySigners)
    );
    assert_eq!(
        resolver.create_proposal(5, hash(1), Vec::new(), [0u8; 96]),
        Err(ViewChangeError::EmptySigners)
    );
    assert_eq!(resolver.process_qc(qc(5, 2, 1, &[1])), Ok(QcProcessOutcome::AcceptedNew));
    assert_eq!(resolver.process_qc(qc(5, 2, 1, &[1])), Ok(QcProcessOutcome::AlreadyAccepted));
    assert_eq!(
        resolver.process_qc(qc(5, 1, 2, &[1])),
        Ok(QcProcessOutcome::ConflictResolvedQuarantined)
    );
    assert!(resolver.is_quarantined(&qc(5, 1, 2, &[1])));
    assert_eq!(
        resolver.process_qc(qc(5, 3, 3, &[1])),
        Ok(QcProcessOutcome::ConflictResolvedAccepted)
    );
    assert!(resolver.is_quarantined(&qc(5, 2, 1, &[1])));
    assert_eq!(resolver.accepted_qcs().len(), 1);
    assert_eq!(
        resolver.events(),
        &[
            ViewChangeEvent::QcAccepted { view: 5, qc_epoch: 2 },
            ViewChangeEvent::QcConflictDetected { view: 5, qc_epoch_a: 2, qc_epoch_b: 1 },
            ViewChangeEvent::QcQuarantined { view: 5, qc_epoch: 1, quarantined_at_round: 5 },
            ViewChangeEvent::QcConflictDetected { view: 5, qc_epoch_a: 2, qc_epoch_b: 3 },
            ViewChangeEvent::QcQuarantined { view: 5, qc_epoch: 2, quarantined_at_round: 5 },
            ViewChangeEvent::QcAccepted { view: 5, qc_epoch: 3 },
        ]
    );
    assert!(resolver.advance_view(6).is_empty());
    assert_eq!(resolver.advance_view(7).len(), 2);
    assert_eq!(resolver.drain_events().len(), 9);
    assert!(resolver.events().is_empty());
    let event = create_conflict_event(1, 2, 3);
    assert_eq!((event.view, event.qc_epoch_a, event.qc_epoch_b), (1, 2, 3));
}

#[test]
fn quarantine_holds_each_certificate_once() {
    let mut buffer = QuarantineBuffer::new();
    assert!(buffer.quarantine(qc(1, 1, 1, &[1]), 10));
    assert!(!buffer.quarantine(qc(1, 1, 1, &[1]), 11));
    assert!(buffer.quarantine(qc(1, 1, 2, &[1]), 11));
    assert_eq!(buffer.gc(11).len(), 0);
    let evicted = buffer.gc(12);
    assert_eq!(evicted, vec![qc(1, 1, 1, &[1])]);
    assert!(buffer.contains(&qc(1, 1, 2, &[1])));
    assert_eq!(buffer.entries()[0].quarantined_at_round, 11);
    buffer.clear();
    assert!(buffer.is_empty());
}

#[test]
fn detected_offenses_pass_as_evidence() {
    let mut detector = SlashingConditionDetector::default();
    detector.observe_proposal(pk(1), 7, hash(1), true);
    let equivocation = detector.observe_proposal(pk(1), 7, hash(2), true).unwrap();
    let invalid = detector.observe_proposal(pk(2), 7, hash(3), false).unwrap();
    assert_eq!(invalid.offense_type, OffenseType::InvalidProposal);
    let mut unavailable = None;
    for i in 0..=UNAVAILABILITY_THRESHOLD {
        unavailable = detector.record_missed_attestation(pk(3), 1_000 + i);
    }
    let unavailable = unavailable.unwrap();
    assert_eq!(detector.missed_count(&pk(3)), UNAVAILABILITY_THRESHOLD + 1);
    let mut store = EvidenceStore::default();
    for (i, violation) in [equivocation, invalid, unavailable].into_iter().enumerate() {
        let id = store
            .submit(
                pk(9),
                violation.validator_id,
                violation.offense_type,
                violation.evidence,
                5,
            )
            .unwrap();
        assert_eq!(id, i as u64);
    }
    assert_eq!(store.all_submissions().len(), 3);
    assert_eq!(store.remove(1).unwrap().offense_type, OffenseType::InvalidProposal);
    assert!(store.get(1).is_none());
    assert_eq!(store.len(), 2);
    assert_eq!(detector.drain_violations().len(), 3);
    assert!(detector.violations().is_empty());
}

#[test]
fn offense_at_height_zero_is_not_evidence() {
    let mut detector = SlashingConditionDetector::new();
    detector.observe_proposal(pk(1), 0, hash(1), true);
    let violation = detector.observe_proposal(pk(1), 0, hash(2), true).unwrap();
    let mut store = EvidenceStore::new();
    assert_eq!(
        store.submit(pk(9), pk(1), violation.offense_type, violation.evidence, 5),
        Err(EvidenceError::VerificationFailed(
            VerificationResult::InvalidFormat
        ))
    );
    assert!(store.is_empty());
}

#[test]
fn missed_attestations_count_per_window() {
    let mut detector = SlashingConditionDetector::new();
    detector.record_missed_attestation(pk(1), 0);
    detector.record_missed_attestation(pk(1), ATTESTATION_WINDOW_SECS - 1);
    assert_eq!(detector.missed_count(&pk(1)), 2);
    detector.record_missed_attestation(pk(1), ATTESTATION_WINDOW_SECS);
    assert_eq!(detector.missed_count(&pk(1)), 1);
}

#[test]
fn challenge_is_decided_once() {
    let mut manager = ChallengeManager::default();
    manager.open(1, pk(1), OffenseType::Unavailability, pk(2), 70, 100);
    assert_eq!(
        manager.submit_counter_evidence(1, vec![0; 7], 100),
        Ok(CounterEvidenceOutcome::Invalid)
    );
    assert_eq!(
        manager.submit_counter_evidence(1, vec![0; 8], 100 + CHALLENGE_PERIOD_SECS),
        Ok(CounterEvidenceOutcome::DefenderWins { bond_to_slash: 70 })
    );
    assert_eq!(
        manager.submit_counter_evidence(1, vec![0; 8], 100),
        Err(ChallengeError::AlreadyResolved)
    );
    assert!(manager.expire_elapsed(u64::MAX).is_empty());
    assert_eq!(manager.get(1).unwrap().counter_evidence, Some(vec![0; 8]));
    manager.open(2, pk(1), OffenseType::Equivocation, pk(2), 70, 100);
    assert_eq!(
        manager.submit_counter_evidence(2, vec![1; 40], 101 + CHALLENGE_PERIOD_SECS),
        Err(ChallengeError::WindowExpired)
    );
    assert_eq!(manager.get(2).unwrap().status, ChallengeStatus::Expired);
    assert_eq!(
        manager.submit_counter_evidence(3, vec![1; 40], 0),
        Err(ChallengeError::NotFound)
    );
}

#[test]
fn slashing_conserves_funds_and_happens_once() {
    let mut registry = StakeRegistry::default();
    registry.register(pk(1), 1_001);
    registry.register(pk(2), 500);
    let mut executor = SlashingExecutor::new(registry);
    let result = executor
        .execute(pk(1), OffenseType::Equivocation, 0, &[pk(2), pk(3)])
        .unwrap();
    assert_eq!(result.total_slashed, 1_001);
    assert_eq!(result.burned, 500);
    assert_eq!(result.distributed, 501);
    assert_eq!(result.reward_per_active_validator, 250);
    assert_eq!(result.remaining_stake, 0);
    assert_eq!(
        executor.execute(pk(1), OffenseType::InvalidProposal, 0, &[]),
        Err(ExecutorError::AlreadySlashed)
    );
    assert_eq!(
        executor.execute(pk(7), OffenseType::InvalidProposal, 0, &[]),
        Err(ExecutorError::ValidatorNotFound)
    );
    assert_eq!(executor.registry().stake(&pk(1)), Some(0));
    assert!(executor.registry().is_slashed(&pk(1)));
    assert!(!executor.registry().is_slashed(&pk(2)));
    assert_eq!(executor.registry().all_validators(), vec![&pk(1), &pk(2)]);
    assert_eq!(
        SlashingExecutor::compute_slash_amount(OffenseType::Unavailability, 10_000, 7),
        70
    );
    for missed in [100, 101, 5_000] {
        assert_eq!(
            SlashingExecutor::compute_slash_amount(OffenseType::Unavailability, 10_009, missed),
            1_000
        );
    }
    assert_eq!(
        SlashingExecutor::compute_slash_amount(OffenseType::Unavailability, 10_009, 99),
        990
    );
    assert_eq!(
        SlashingExecutor::compute_slash_amount(OffenseType::Unavailability, u64::MAX, u64::MAX),
        u64::MAX / 10
    );
    assert_eq!(
        SlashingExecutor::compute_slash_amount(OffenseType::InvalidProposal, 149, 0),
        2
    );
}

#[test]
fn equivocation_proof_holds_both_proposals() {
    let mut detector = EquivocationDetector::default();
    assert_eq!(detector.observe(proposal(3, 1, 1)), Ok(None));
    assert_eq!(detector.observe(proposal(3, 1, 1)), Ok(None));
    let proof = detector.observe(proposal(3, 1, 2)).unwrap().unwrap();
    assert_eq!(proof.proposal_a, proposal(3, 1, 1));
    assert_eq!(proof.proposal_b, proposal(3, 1, 2));
    assert_eq!(detector.proofs(), &[proof]);
    assert_eq!(
        detector.observe(Proposal::new(4, pk(1), hash(1), [0u8; 96])),
        Err(EquivocationError::InvalidSignature)
    );
    assert_eq!(detector.tracked_count(), 1);
    assert_eq!(detector.drain_proofs().len(), 1);
}

#[test]
fn timeouts_double_up_to_their_cap() {
    let timeouts: Vec<u64> = (0..7).map(TimeoutLeader::timeout_for_view).collect();
    assert_eq!(
        timeouts,
        vec![4_000, 8_000, 16_000, 32_000, 64_000, 120_000, 120_000]
    );
    assert_eq!(TimeoutLeader::timeout_for_view(u64::MAX), MAX_TIMEOUT_MS);
    assert_eq!(timeouts[0], BASE_TIMEOUT_MS);
}

#[test]
fn every_validator_leads_in_turn() {
    let validators = vec![pk(1), pk(2), pk(3)];
    let mut leader = TimeoutLeader::new(4, validators);
    assert_eq!(leader.current_leader(), pk(2));
    leader.on_timeout(9);
    assert_eq!(leader.current_leader(), pk(3));
    leader.on_timeout(9);
    assert_eq!(leader.current_leader(), pk(1));
    assert_eq!(leader.current_timeout_ms(), 120_000);
    assert!(matches!(
        leader.events()[0],
        LeaderElectionEvent::TimeoutViewAdvanced {
            old_view: 4,
            new_view: 5,
            elapsed_ms: 9
        }
    ));
}

#[test]
fn fallback_picks_the_same_lock_in_every_order() {
    let locks = [
        LockedValue::new(hash(1), 4),
        LockedValue::new(hash(9), 6),
        LockedValue::new(hash(5), 6),
    ];
    for order in [[0, 1, 2], [2, 1, 0], [1, 0, 2]] {
        let mut engine = FallbackSyncEngine::new(0);
        assert_eq!(
            engine.run_fallback(&locks),
            Err(FallbackSyncError::ThresholdNotReached {
                current_deadlocked_views: 0,
                required: DEADLOCK_VIEW_THRESHOLD
            })
        );
        for _ in 0..DEADLOCK_VIEW_THRESHOLD {
            engine.on_view_timeout();
        }
        let arranged: Vec<LockedValue> = order.iter().map(|i| locks[*i].clone()).collect();
        assert_eq!(engine.run_fallback(&arranged), Ok(hash(9)));
        assert!(!engine.is_deadlocked());
    }
}

#[test]
fn engine_runs_the_fallback_at_the_threshold() {
    let mut engine = ConsensusEngine::new(10, vec![pk(1), pk(2)]);
    for _ in 1..DEADLOCK_VIEW_THRESHOLD {
        assert_eq!(engine.on_view_timeout(1, &[]), Ok(None));
    }
    assert_eq!(
        engine.on_view_timeout(1, &[]),
        Err(ConsensusEngineError::FallbackFailed(
            FallbackSyncError::NoLockedValues
        ))
    );
    assert!(engine.is_deadlocked());
    let locks = [LockedValue::new(hash(3), 2)];
    assert_eq!(engine.on_view_timeout(1, &locks), Ok(Some(hash(3))));
    assert_eq!(engine.deadlocked_views(), 0);
    assert_eq!(engine.current_view(), 16);
    engine.drain_events();
    engine.on_proposal(proposal(1, 1, 1)).unwrap();
    let proof = engine.on_proposal(proposal(1, 1, 2)).unwrap();
    assert!(proof.is_some());
    assert_eq!(engine.current_view(), 17);
    assert!(matches!(
        engine.events().last().unwrap(),
        ConsensusEngineEvent::EquivocationDetected { new_view: 17, .. }
    ));
}

#[test]
fn block_fees_add_up_and_overflow_is_refused() {
    let tx = |base: u64, tip: u64| Transaction::new([0u8; 32], base, tip, 1).unwrap();
    assert_eq!(
        Transaction::new([0u8; 32], u64::MAX, 1, 1),
        Err(TransactionError::FeeOverflow)
    );
    let split = split_fee(&tx(3, 4));
    assert_eq!((split.burned, split.tipped), (3, 4));
    let block = BuiltBlock {
        transactions: vec![tx(10, 1), tx(20, 2)],
        gas_used: 2,
    };
    let fees = finalize_block_fees(&block, 77).unwrap();
    assert_eq!((fees.proposer, fees.total_burned, fees.total_tipped), (77, 30, 3));
    let full = BuiltBlock {
        transactions: vec![tx(u64::MAX, 0), tx(1, 0)],
        gas_used: 2,
    };
    assert_eq!(finalize_block_fees(&full, 77), Err(FeeBurnError::TotalOverflow));
}
