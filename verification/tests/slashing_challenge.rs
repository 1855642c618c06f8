use verinode_core::consensus::slashing::challenge::{
    CHALLENGE_PERIOD_SECS, ChallengeError, ChallengeManager, ChallengeStatus,
    CounterEvidenceOutcome,
};
use verinode_core::consensus::slashing::detector::OffenseType;
use verinode_core::consensus::view_change::types::PublicKey;

fn pk(id: u8) -> PublicKey {
    let mut k = [0u8; 32];
    k[31] = id;
    k
}

fn open_challenge(mgr: &mut ChallengeManager, id: u64, now: u64) {
    mgr.open(id, pk(1), OffenseType::Equivocation, pk(99), 500, now);
}

fn valid_counter_evidence(height: u64) -> Vec<u8> {
    let mut buf = Vec::with_capacity(40);
    buf.extend_from_slice(&height.to_le_bytes());
    buf.extend_from_slice(&[7u8; 32]); // block hash
    buf
}

// ── open ──────────────────────────────────────────────────────────────────

#[test]
fn open_creates_record_with_correct_deadline() {
    let mut mgr = ChallengeManager::new();
    let now = 1_000_000u64;
    open_challenge(&mut mgr, 0, now);
    let rec = mgr.get(0).unwrap();
    assert_eq!(rec.status, ChallengeStatus::Open);
    assert_eq!(rec.deadline, now + CHALLENGE_PERIOD_SECS);
    assert_eq!(rec.challenger_bond, 500);
}

// ── counter-evidence: defender wins ───────────────────────────────────────

#[test]
fn valid_counter_evidence_makes_defender_win() {
    let mut mgr = ChallengeManager::new();
    let now = 1_000_000u64;
    open_challenge(&mut mgr, 0, now);

    let outcome = mgr
        .submit_counter_evidence(0, valid_counter_evidence(42), now + 3600)
        .unwrap();

    assert_eq!(
        outcome,
        CounterEvidenceOutcome::DefenderWins { bond_to_slash: 500 }
    );
    assert_eq!(mgr.get(0).unwrap().status, ChallengeStatus::DefenderWon);
}

#[test]
fn invalid_counter_evidence_challenge_stays_open() {
    let mut mgr = ChallengeManager::new();
    let now = 1_000_000u64;
    open_challenge(&mut mgr, 0, now);

    // Too short — invalid.
    let outcome = mgr
        .submit_counter_evidence(0, vec![0u8; 5], now + 100)
        .unwrap();
    assert_eq!(outcome, CounterEvidenceOutcome::Invalid);
    assert_eq!(mgr.get(0).unwrap().status, ChallengeStatus::Open);
}

#[test]
fn counter_evidence_after_deadline_returns_error() {
    let mut mgr = ChallengeManager::new();
    let now = 1_000_000u64;
    open_challenge(&mut mgr, 0, now);

    let after_deadline = now + CHALLENGE_PERIOD_SECS + 1;
    let err = mgr
        .submit_counter_evidence(0, valid_counter_evidence(1), after_deadline)
        .unwrap_err();
    assert_eq!(err, ChallengeError::WindowExpired);
    assert_eq!(mgr.get(0).unwrap().status, ChallengeStatus::Expired);
}

#[test]
fn counter_evidence_on_resolved_challenge_returns_error() {
    let mut mgr = ChallengeManager::new();
    let now = 1_000_000u64;
    open_challenge(&mut mgr, 0, now);
    // Win once.
    mgr.submit_counter_evidence(0, valid_counter_evidence(10), now + 1)
        .unwrap();
    // Try again.
    let err = mgr
        .submit_counter_evidence(0, valid_counter_evidence(10), now + 2)
        .unwrap_err();
    assert_eq!(err, ChallengeError::AlreadyResolved);
}

// ── expire_elapsed ────────────────────────────────────────────────────────

#[test]
fn expire_elapsed_marks_past_deadline_challenges() {
    let mut mgr = ChallengeManager::new();
    let now = 1_000_000u64;
    open_challenge(&mut mgr, 0, now);
    open_challenge(&mut mgr, 1, now);

    // Advance past both deadlines.
    let expired = mgr.expire_elapsed(now + CHALLENGE_PERIOD_SECS + 1);
    assert_eq!(expired.len(), 2);
    assert_eq!(mgr.get(0).unwrap().status, ChallengeStatus::Expired);
    assert_eq!(mgr.get(1).unwrap().status, ChallengeStatus::Expired);
}

#[test]
fn expire_elapsed_does_not_affect_open_challenges_within_window() {
    let mut mgr = ChallengeManager::new();
    let now = 1_000_000u64;
    open_challenge(&mut mgr, 0, now);

    // Not yet past deadline.
    let expired = mgr.expire_elapsed(now + 3600);
    assert!(expired.is_empty());
    assert_eq!(mgr.get(0).unwrap().status, ChallengeStatus::Open);
}

#[test]
fn not_found_error_for_unknown_submission_id() {
    let mut mgr = ChallengeManager::new();
    let err = mgr
        .submit_counter_evidence(42, valid_counter_evidence(1), 0)
        .unwrap_err();
    assert_eq!(err, ChallengeError::NotFound);
}

// ── unavailability counter-evidence ──────────────────────────────────────

#[test]
fn unavailability_counter_evidence_accepted_with_8_bytes() {
    let mut mgr = ChallengeManager::new();
    mgr.open(0, pk(1), OffenseType::Unavailability, pk(99), 200, 0);
    let outcome = mgr
        .submit_counter_evidence(0, vec![0u8; 8], 100)
        .unwrap();
    assert_eq!(
        outcome,
        CounterEvidenceOutcome::DefenderWins { bond_to_slash: 200 }
    );
}

#[test]
fn unavailability_counter_evidence_rejected_if_too_short() {
    let mut mgr = ChallengeManager::new();
    mgr.open(0, pk(1), OffenseType::Unavailability, pk(99), 200, 0);
    let outcome = mgr
        .submit_counter_evidence(0, vec![0u8; 7], 100)
        .unwrap();
    assert_eq!(outcome, CounterEvidenceOutcome::Invalid);
}
