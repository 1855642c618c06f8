use verinode_core::consensus::leader_election::timeout_leader::{
    LeaderElectionEvent, TimeoutLeader,
};
use verinode_core::consensus::proposal::equivocation_detector::{EquivocationProof, Proposal};
use verinode_core::consensus::view_change::types::{AggregateSignature, BlockHash, PublicKey};

fn pk(id: u8) -> PublicKey {
    let mut k = [0u8; 32];
    k[31] = id;
    k
}

fn hash(id: u8) -> BlockHash {
    let mut h = [0u8; 32];
    h[31] = id;
    h
}

fn sig(id: u8) -> AggregateSignature {
    let mut s = [1u8; 96];
    s[95] = id;
    s
}

fn make_proof(height: u64, proposer_id: u8) -> EquivocationProof {
    EquivocationProof {
        height,
        proposer: pk(proposer_id),
        proposal_a: Proposal::new(height, pk(proposer_id), hash(1), sig(1)),
        proposal_b: Proposal::new(height, pk(proposer_id), hash(2), sig(2)),
    }
}

fn validators() -> Vec<PublicKey> {
    vec![pk(1), pk(2), pk(3), pk(4)]
}

// ─── timeout progression ──────────────────────────────────────────────────

#[test]
fn timeout_doubles_each_view_and_caps_at_max() {
    assert_eq!(TimeoutLeader::timeout_for_view(0), 4_000);
    assert_eq!(TimeoutLeader::timeout_for_view(1), 8_000);
    assert_eq!(TimeoutLeader::timeout_for_view(2), 16_000);
    assert_eq!(TimeoutLeader::timeout_for_view(3), 32_000);
    assert_eq!(TimeoutLeader::timeout_for_view(4), 64_000);
    assert_eq!(TimeoutLeader::timeout_for_view(5), 120_000); // cap
    assert_eq!(TimeoutLeader::timeout_for_view(100), 120_000); // still capped
}

#[test]
fn on_timeout_advances_view_and_emits_event() {
    let mut leader = TimeoutLeader::new(0, validators());
    assert_eq!(leader.current_view(), 0);

    leader.on_timeout(4_100);

    assert_eq!(leader.current_view(), 1);
    let events = leader.drain_events();
    assert_eq!(events.len(), 1);
    assert!(matches!(
        events[0],
        LeaderElectionEvent::TimeoutViewAdvanced {
            old_view: 0,
            new_view: 1,
            elapsed_ms: 4_100,
        }
    ));
}

// ─── equivocation fast-path ───────────────────────────────────────────────

#[test]
fn on_equivocation_immediately_advances_view() {
    let mut leader = TimeoutLeader::new(2, validators());
    let proof = make_proof(10, 5);

    leader.on_equivocation(&proof);

    assert_eq!(leader.current_view(), 3); // advanced without waiting for timeout
    let events = leader.events();
    assert_eq!(events.len(), 2);

    assert!(matches!(
        events[0],
        LeaderElectionEvent::EquivocationViewAdvanced {
            old_view: 2,
            new_view: 3,
            equivocation_height: 10,
            ..
        }
    ));
    assert!(matches!(
        events[1],
        LeaderElectionEvent::TimeoutReset {
            view: 3,
            new_timeout_ms: 32_000, // 4s * 2^3
        }
    ));
}

#[test]
fn equivocation_fast_path_resets_timeout() {
    let mut leader = TimeoutLeader::new(0, validators());
    let proof = make_proof(1, 1);
    leader.on_equivocation(&proof);

    // new view is 1, timeout for view 1 = 8000ms
    assert_eq!(leader.current_timeout_ms(), 8_000);
}

#[test]
fn leader_rotates_round_robin_by_view() {
    let vset = validators();
    let mut leader = TimeoutLeader::new(0, vset.clone());
    assert_eq!(leader.current_leader(), vset[0]);

    leader.on_timeout(4_000);
    assert_eq!(leader.current_leader(), vset[1]);

    leader.on_timeout(8_000);
    assert_eq!(leader.current_leader(), vset[2]);
}
