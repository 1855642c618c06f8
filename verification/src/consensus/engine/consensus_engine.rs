//! Main consensus loop integrating equivocation detection, leader election, and synchronous
//! fallback recovery.
//!
//! Byzantine equivocation attacks can deadlock the normal timeout-based leader election. Two
//! layers prevent and recover from that:
//!
//! 1. Equivocation fast path: when two conflicting proposals arrive at the same height from the
//!    same proposer, the view is advanced immediately.
//! 2. Synchronous fallback: after five consecutive views without a committed block, replicas
//!    exchange their locked values and agree on the highest-view lock.

use vstd::prelude::*;

use crate::consensus::leader_election::timeout_leader::{
    equivocation_passed, leader_of, timed_out, LeaderState, TimeoutLeader,
};
use crate::consensus::proposal::equivocation_detector::{
    is_genuine, is_signed, observation, observed, slot, EquivocationDetector, EquivocationError,
    EquivocationProof, Proposal, SightingState,
};
use crate::consensus::recovery::fallback_sync::{
    after_fallback, committed, deadlocked, fallback_result, selected, view_missed, FallbackState,
    FallbackSyncEngine, FallbackSyncError, LockedValue,
};
use crate::consensus::view_change::types::{BlockHash, PublicKey};

verus! {

/// Observability events emitted by the consensus engine for monitoring.
#[derive(Clone, Debug, Eq, PartialEq)]
pub enum ConsensusEngineEvent {
    /// A new valid proposal was accepted in the current view.
    ProposalAccepted {
        /// Current consensus view.
        view: u64,
        /// The proposal's block hash.
        block_hash: BlockHash,
    },
    /// A Byzantine equivocation was detected; view was immediately advanced.
    EquivocationDetected {
        /// The equivocation proof.
        proof: Box<EquivocationProof>,
        /// View advanced to.
        new_view: u64,
    },
    /// A block was committed in `view`, resetting the deadlock counter.
    BlockCommitted {
        /// The committed block's hash.
        block_hash: BlockHash,
        /// The view in which the block was committed.
        view: u64,
    },
    /// A view timeout occurred without a committed block.
    ViewTimeout {
        /// The view that timed out.
        timed_out_view: u64,
        /// Number of consecutive deadlocked views after this timeout.
        deadlocked_views: u64,
    },
    /// Synchronous fallback consensus was triggered.
    FallbackTriggered {
        /// View at which fallback was triggered.
        view: u64,
        /// Deadlocked view count that triggered it.
        deadlocked_views: u64,
    },
    /// Fallback consensus completed and a block was committed.
    FallbackCommitted {
        /// The fallback-committed block hash.
        block_hash: BlockHash,
        /// View in which fallback committed.
        view: u64,
    },
}

/// Errors returned by consensus engine operations.
#[derive(Clone, Copy, Debug, Eq, PartialEq)]
pub enum ConsensusEngineError {
    /// Fallback consensus failed (no locked values available from any replica).
    FallbackFailed(FallbackSyncError),
}

/// Main consensus engine.
///
/// Coordinates [`EquivocationDetector`], [`TimeoutLeader`], and [`FallbackSyncEngine`].
#[derive(Clone, Debug)]
pub struct ConsensusEngine {
    equivocation_detector: EquivocationDetector,
    timeout_leader: TimeoutLeader,
    fallback_engine: FallbackSyncEngine,
    events: Vec<ConsensusEngineEvent>,
}

/// What a consensus engine knows.
pub struct EngineState {
    /// Proposals seen and proofs of equivocation.
    pub sightings: SightingState,
    /// View, validators and leader events.
    pub leader: LeaderState,
    /// Deadlock counter and fallback events.
    pub fallback: FallbackState,
    /// Events since they were last drained.
    pub events: Seq<ConsensusEngineEvent>,
}

/// The state after a proposal.
pub open spec fn proposal_handled(s: EngineState, p: Proposal) -> EngineState {
    let sightings = observed(s.sightings, p);
    match observation(s.sightings, p) {
        Err(_) => s,
        Ok(Some(proof)) => {
            let leader = equivocation_passed(s.leader, proof);
            EngineState {
                sightings,
                leader,
                events: s.events.push(
                    ConsensusEngineEvent::EquivocationDetected {
                        proof: Box::new(proof),
                        new_view: leader.current_view,
                    },
                ),
                ..s
            }
        },
        Ok(None) => EngineState {
            sightings,
            events: s.events.push(
                ConsensusEngineEvent::ProposalAccepted {
                    view: s.leader.current_view,
                    block_hash: p.block_hash,
                },
            ),
            ..s
        },
    }
}

/// The engine after a block has been committed.
pub open spec fn commit_handled(s: EngineState, block_hash: BlockHash) -> EngineState {
    EngineState {
        fallback: committed(s.fallback),
        events: s.events.push(
            ConsensusEngineEvent::BlockCommitted { block_hash, view: s.leader.current_view },
        ),
        ..s
    }
}

/// The state after a view timeout, before the fallback is considered.
pub open spec fn timeout_noted(s: EngineState, elapsed_ms: u64) -> EngineState {
    let leader = timed_out(s.leader, elapsed_ms);
    let fallback = view_missed(s.fallback);
    EngineState {
        leader,
        fallback,
        events: s.events.push(
            ConsensusEngineEvent::ViewTimeout {
                timed_out_view: leader.current_view.saturating_sub(1),
                deadlocked_views: fallback.deadlocked_views,
            },
        ),
        ..s
    }
}

/// The state after a view timeout.
pub open spec fn timeout_handled(
    s: EngineState,
    elapsed_ms: u64,
    values: Seq<LockedValue>,
) -> EngineState {
    let t = timeout_noted(s, elapsed_ms);
    if !deadlocked(t.fallback) {
        t
    } else {
        let triggered = t.events.push(
            ConsensusEngineEvent::FallbackTriggered {
                view: t.leader.current_view,
                deadlocked_views: t.fallback.deadlocked_views,
            },
        );
        EngineState {
            fallback: after_fallback(t.fallback, values),
            events: match fallback_result(t.fallback, values) {
                Ok(block_hash) => triggered.push(
                    ConsensusEngineEvent::FallbackCommitted {
                        block_hash,
                        view: t.leader.current_view,
                    },
                ),
                Err(_) => triggered,
            },
            ..t
        }
    }
}

/// What a view timeout returns.
pub open spec fn timeout_result(s: EngineState, elapsed_ms: u64, values: Seq<LockedValue>) -> Result<
    Option<BlockHash>,
    ConsensusEngineError,
> {
    let t = timeout_noted(s, elapsed_ms);
    if !deadlocked(t.fallback) {
        Ok(None)
    } else {
        match fallback_result(t.fallback, values) {
            Ok(block_hash) => Ok(Some(block_hash)),
            Err(e) => Err(ConsensusEngineError::FallbackFailed(e)),
        }
    }
}

/// Equivocation advances the view at once: the second of two signed, conflicting proposals takes
/// the engine to the next view, while the first one left the view alone.
pub proof fn law_equivocation_advances_the_view(s: EngineState, first: Proposal, second: Proposal)
    requires
        is_signed(first),
        is_signed(second),
        slot(first) == slot(second),
        first.block_hash != second.block_hash,
        !s.sightings.seen.dom().contains(slot(first)),
    ensures
        proposal_handled(s, first).leader.current_view == s.leader.current_view,
        proposal_handled(proposal_handled(s, first), second).leader.current_view
            == s.leader.current_view.saturating_add(1),
{
}

/// A timeout in a deadlocked engine commits a block as soon as one replica has a lock, and the
/// only error of a timeout is that no replica has one.
pub proof fn law_fallback_needs_one_lock(s: EngineState, elapsed_ms: u64, values: Seq<LockedValue>)
    ensures
        values.len() > 0 ==> timeout_result(s, elapsed_ms, values) is Ok,
        deadlocked(timeout_noted(s, elapsed_ms).fallback) && values.len() > 0 ==> timeout_result(
            s,
            elapsed_ms,
            values,
        )->Ok_0 is Some && !deadlocked(timeout_handled(s, elapsed_ms, values).fallback),
        timeout_result(s, elapsed_ms, values) matches Err(e) ==> e
            == ConsensusEngineError::FallbackFailed(FallbackSyncError::NoLockedValues),
{
}

impl View for ConsensusEngine {
    type V = EngineState;

    closed spec fn view(&self) -> EngineState {
        EngineState {
            sightings: self.equivocation_detector@,
            leader: self.timeout_leader@,
            fallback: self.fallback_engine@,
            events: self.events@,
        }
    }
}

impl ConsensusEngine {
    /// The parts are in order.
    pub closed spec fn wf(&self) -> bool {
        &&& self.equivocation_detector.wf()
        &&& self.timeout_leader.wf()
    }

    /// Create a new consensus engine at `initial_view` with the given ordered, non-empty
    /// validator set.
    pub fn new(initial_view: u64, validators: Vec<PublicKey>) -> (r: Self)
        requires
            validators@.len() > 0,
        ensures
            r.wf(),
            r@ == (EngineState {
                sightings: SightingState { seen: Map::empty(), proofs: Seq::empty() },
                leader: LeaderState {
                    current_view: initial_view,
                    validators: validators@,
                    events: Seq::empty(),
                },
                fallback: FallbackState {
                    deadlocked_views: 0,
                    current_view: initial_view,
                    events: Seq::empty(),
                },
                events: Seq::empty(),
            }),
    {
        ConsensusEngine {
            equivocation_detector: EquivocationDetector::new(),
            timeout_leader: TimeoutLeader::new(initial_view, validators),
            fallback_engine: FallbackSyncEngine::new(initial_view),
            events: Vec::new(),
        }
    }

    /// Current active consensus view.
    pub fn current_view(&self) -> (r: u64)
        ensures
            r == self@.leader.current_view,
    {
        self.timeout_leader.current_view()
    }

    /// Number of consecutive views without a committed block.
    pub fn deadlocked_views(&self) -> (r: u64)
        ensures
            r == self@.fallback.deadlocked_views,
    {
        self.fallback_engine.deadlocked_views()
    }

    /// Whether the engine is in a deadlocked state.
    pub fn is_deadlocked(&self) -> (r: bool)
        ensures
            r == deadlocked(self@.fallback),
    {
        self.fallback_engine.is_deadlocked()
    }

    /// Current leader's public key.
    pub fn current_leader(&self) -> (r: PublicKey)
        requires
            self.wf(),
        ensures
            r == leader_of(self@.leader.validators, self@.leader.current_view),
    {
        self.timeout_leader.current_leader()
    }

    /// Process an incoming proposal.
    ///
    /// Returns `Ok(None)` when no equivocation shows, `Ok(Some(proof))` when equivocation is
    /// detected (the view was immediately advanced and the proof should be broadcast to all
    /// peers), and an error when the proposal carries an all-zero signature.
    pub fn on_proposal(&mut self, proposal: Proposal) -> (r: Result<
        Option<EquivocationProof>,
        EquivocationError,
    >)
        requires
            old(self).wf(),
        ensures
            final(self).wf(),
            r == observation(old(self)@.sightings, proposal),
            final(self)@ == proposal_handled(old(self)@, proposal),
            r matches Ok(Some(proof)) ==> is_genuine(proof),
    {
        let block_hash: BlockHash = proposal.block_hash;
        match self.equivocation_detector.observe(proposal) {
            Err(e) => Err(e),
            Ok(Some(found)) => {
                self.timeout_leader.on_equivocation(&found);
                let new_view: u64 = self.timeout_leader.current_view();
                self.events.push(
                    ConsensusEngineEvent::EquivocationDetected {
                        proof: Box::new(found.clone()),
                        new_view,
                    },
                );
                Ok(Some(found))
            },
            Ok(None) => {
                self.events.push(
                    ConsensusEngineEvent::ProposalAccepted {
                        view: self.timeout_leader.current_view(),
                        block_hash,
                    },
                );
                Ok(None)
            },
        }
    }

    /// Notify the engine that a block was committed at the current view.
    ///
    /// Resets the deadlock counter.
    pub fn on_commit(&mut self, block_hash: BlockHash)
        requires
            old(self).wf(),
        ensures
            final(self).wf(),
            final(self)@ == commit_handled(old(self)@, block_hash),
    {
        let view: u64 = self.timeout_leader.current_view();
        self.fallback_engine.on_commit();
        self.events.push(ConsensusEngineEvent::BlockCommitted { block_hash, view });
    }

    /// Handle a view timeout (no block committed before the timeout expired).
    ///
    /// Advances the view via the normal timeout path and increments the deadlock counter. If the
    /// counter reaches the threshold, synchronous fallback consensus runs on `locked_values`.
    ///
    /// Returns `Ok(None)` for a normal advance, `Ok(Some(block_hash))` for a block committed by
    /// the fallback, and an error when the fallback failed.
    pub fn on_view_timeout(&mut self, elapsed_ms: u64, locked_values: &[LockedValue]) -> (r: Result<
        Option<BlockHash>,
        ConsensusEngineError,
    >)
        requires
            old(self).wf(),
        ensures
            final(self).wf(),
            r == timeout_result(old(self)@, elapsed_ms, locked_values@),
            final(self)@ == timeout_handled(old(self)@, elapsed_ms, locked_values@),
    {
        self.timeout_leader.on_timeout(elapsed_ms);
        self.fallback_engine.on_view_timeout();
        let timed_out_view: u64 = self.timeout_leader.current_view().saturating_sub(1);
        let missed: u64 = self.fallback_engine.deadlocked_views();
        self.events.push(
            ConsensusEngineEvent::ViewTimeout { timed_out_view, deadlocked_views: missed },
        );
        if self.fallback_engine.is_deadlocked() {
            let view: u64 = self.timeout_leader.current_view();
            self.events.push(
                ConsensusEngineEvent::FallbackTriggered { view, deadlocked_views: missed },
            );
            match self.fallback_engine.run_fallback(locked_values) {
                Ok(block_hash) => {
                    self.events.push(ConsensusEngineEvent::FallbackCommitted { block_hash, view });
                    return Ok(Some(block_hash));
                },
                Err(e) => {
                    return Err(ConsensusEngineError::FallbackFailed(e));
                },
            }
        }
        Ok(None)
    }

    /// Drain and return all accumulated observability events.
    pub fn drain_events(&mut self) -> (r: Vec<ConsensusEngineEvent>)
        requires
            old(self).wf(),
        ensures
            final(self).wf(),
            r@ == old(self)@.events,
            final(self)@ == (EngineState { events: Seq::empty(), ..old(self)@ }),
    {
        let mut drained: Vec<ConsensusEngineEvent> = Vec::new();
        core::mem::swap(&mut self.events, &mut drained);
        drained
    }

    /// Slice of all accumulated events without draining.
    pub fn events(&self) -> (r: &[ConsensusEngineEvent])
        ensures
            r@ == self@.events,
    {
        self.events.as_slice()
    }
}

/// A commit clears the count of missed views, keeps the view and reports the block in it.
pub proof fn law_commit_clears_the_count(s: EngineState, block_hash: BlockHash)
    ensures
        ({
            let t = commit_handled(s, block_hash);
            &&& t.fallback.deadlocked_views == 0
            &&& t.fallback.current_view == s.fallback.current_view
            &&& t.leader == s.leader
            &&& t.sightings == s.sightings
            &&& t.events.len() == s.events.len() + 1
            &&& forall|i: int| 0 <= i < s.events.len() ==> #[trigger] t.events[i] == s.events[i]
            &&& t.events.last() matches ConsensusEngineEvent::BlockCommitted { block_hash: b, view }
                && b == block_hash && view == s.leader.current_view
        }),
{
}

/// An unsigned proposal changes nothing. One that conflicts with what was seen moves the leader on
/// by a view and is reported with the new view; any other is accepted in the view that stands. The
/// count of missed views is the same either way.
pub proof fn law_proposal_is_accepted_or_reported(s: EngineState, p: Proposal)
    requires
        s.leader.current_view < u64::MAX,
    ensures
        ({
            let t = proposal_handled(s, p);
            let k = (p.height, p.proposer@);
            let conflict = s.sightings.seen.dom().contains(k) && s.sightings.seen[k].block_hash
                != p.block_hash;
            &&& t.fallback == s.fallback
            &&& !is_signed(p) ==> t == s
            &&& is_signed(p) ==> {
                &&& t.events.len() == s.events.len() + 1
                &&& forall|i: int| 0 <= i < s.events.len() ==> #[trigger] t.events[i] == s.events[i]
                &&& t.sightings.seen.dom().contains(k)
                &&& t.leader.validators == s.leader.validators
            }
            &&& is_signed(p) && conflict ==> {
                &&& t.leader.current_view == s.leader.current_view + 1
                &&& t.events.last() matches ConsensusEngineEvent::EquivocationDetected {
                    proof,
                    new_view,
                } && new_view == s.leader.current_view + 1 && proof.proposal_a
                    == s.sightings.seen[k] && proof.proposal_b == p && proof.height == p.height
                    && proof.proposer == p.proposer
                &&& t.sightings.proofs.len() == s.sightings.proofs.len() + 1
            }
            &&& is_signed(p) && !conflict ==> {
                &&& t.leader == s.leader
                &&& t.events.last() == (ConsensusEngineEvent::ProposalAccepted {
                    view: s.leader.current_view,
                    block_hash: p.block_hash,
                })
                &&& t.sightings.proofs == s.sightings.proofs
            }
        }),
{
}

/// A view that times out moves the leader on by one and counts as missed. Below five missed views
/// that is all; from the fifth on the fallback runs: with a locked value it commits one and clears
/// the count, without any it fails and the count stays.
pub proof fn law_timeout_counts_and_falls_back_at_five(
    s: EngineState,
    elapsed_ms: u64,
    values: Seq<LockedValue>,
)
    requires
        s.leader.current_view < u64::MAX,
        s.fallback.deadlocked_views < u64::MAX,
    ensures
        ({
            let t = timeout_handled(s, elapsed_ms, values);
            let answer = timeout_result(s, elapsed_ms, values);
            let missed = s.fallback.deadlocked_views + 1;
            let n = s.events.len() as int;
            &&& t.leader.current_view == s.leader.current_view + 1
            &&& t.leader.validators == s.leader.validators
            &&& t.sightings == s.sightings
            &&& forall|i: int| 0 <= i < n ==> #[trigger] t.events[i] == s.events[i]
            &&& t.events[n] matches ConsensusEngineEvent::ViewTimeout {
                timed_out_view,
                deadlocked_views,
            } && timed_out_view == s.leader.current_view && deadlocked_views == missed
            &&& missed < 5 ==> {
                &&& answer == Ok::<_, ConsensusEngineError>(None::<BlockHash>)
                &&& t.fallback.deadlocked_views == missed
                &&& t.events.len() == n + 1
            }
            &&& missed >= 5 ==> (t.events[n + 1] matches ConsensusEngineEvent::FallbackTriggered {
                view,
                deadlocked_views,
            } && view == s.leader.current_view + 1 && deadlocked_views == missed)
            &&& missed >= 5 && values.len() == 0 ==> {
                &&& answer == Err::<Option<BlockHash>, _>(
                    ConsensusEngineError::FallbackFailed(FallbackSyncError::NoLockedValues),
                )
                &&& t.fallback.deadlocked_views == missed
                &&& t.events.len() == n + 2
            }
            &&& missed >= 5 && values.len() > 0 ==> {
                &&& answer matches Ok(Some(hash)) && hash == selected(values).block_hash
                &&& t.fallback.deadlocked_views == 0
                &&& t.events.len() == n + 3
                &&& t.events[n + 2] matches ConsensusEngineEvent::FallbackCommitted {
                    block_hash,
                    view,
                } && block_hash == selected(values).block_hash && view == s.leader.current_view + 1
            }
        }),
{
}

} // verus!
