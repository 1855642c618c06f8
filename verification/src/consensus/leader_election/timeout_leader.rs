//! Timeout-based leader rotation with an equivocation fast path.
//!
//! The timeout of view `v` is `min(BASE_TIMEOUT_MS * 2^v, MAX_TIMEOUT_MS)`. A received
//! [`EquivocationProof`] advances the view immediately, without waiting for the timeout.

use vstd::arithmetic::power2::pow2;
use vstd::prelude::*;

use crate::arith::{doubled_up_to, least, lemma_doubling_monotone};
use crate::consensus::proposal::equivocation_detector::EquivocationProof;
use crate::consensus::view_change::types::PublicKey;

verus! {

/// Base view timeout in milliseconds (4 s).
pub const BASE_TIMEOUT_MS: u64 = 4_000;

/// Maximum view timeout in milliseconds (120 s).
pub const MAX_TIMEOUT_MS: u64 = 120_000;

/// Events emitted by [`TimeoutLeader`] for observability.
#[derive(Clone, Debug, Eq, PartialEq)]
pub enum LeaderElectionEvent {
    /// Normal timeout-triggered view advance.
    TimeoutViewAdvanced {
        /// View that timed out.
        old_view: u64,
        /// New active view.
        new_view: u64,
        /// Timeout duration that elapsed, in milliseconds.
        elapsed_ms: u64,
    },
    /// Equivocation-triggered immediate view advance (no timeout wait).
    EquivocationViewAdvanced {
        /// View that was immediately advanced.
        old_view: u64,
        /// New active view.
        new_view: u64,
        /// Height at which equivocation was detected.
        equivocation_height: u64,
        /// The equivocating proposer.
        equivocating_proposer: PublicKey,
    },
    /// View timeout was reset after an equivocation fast-path advance.
    TimeoutReset {
        /// The view whose timeout was reset.
        view: u64,
        /// New timeout value in milliseconds.
        new_timeout_ms: u64,
    },
}

/// Errors returned by [`TimeoutLeader`] operations.
#[derive(Clone, Copy, Debug, Eq, PartialEq)]
pub enum TimeoutLeaderError {
    /// Attempted to advance to a view that is not strictly greater than the current view.
    ViewNotMonotonic { current_view: u64, attempted_view: u64 },
}

/// Timeout-based leader rotator.
///
/// Tracks the current view, computes the exponential backoff timeout for each view, and reacts to
/// [`EquivocationProof`]s by immediately advancing the view.
#[derive(Clone, Debug, Eq, PartialEq)]
pub struct TimeoutLeader {
    current_view: u64,
    validators: Vec<PublicKey>,
    events: Vec<LeaderElectionEvent>,
}

/// What a leader rotator knows.
pub struct LeaderState {
    /// Active consensus view.
    pub current_view: u64,
    /// Validator committee ordered by index.
    pub validators: Seq<PublicKey>,
    /// Events since they were last drained.
    pub events: Seq<LeaderElectionEvent>,
}

/// The timeout of a view: the base, doubled once per view, up to the maximum.
pub open spec fn view_timeout(view: u64) -> u64 {
    least(BASE_TIMEOUT_MS * pow2(view as nat), MAX_TIMEOUT_MS as int) as u64
}

/// The leader of a view.
pub open spec fn leader_of(validators: Seq<PublicKey>, view: u64) -> PublicKey {
    validators[view as int % validators.len() as int]
}

/// The state after a view has timed out.
pub open spec fn timed_out(s: LeaderState, elapsed_ms: u64) -> LeaderState {
    let new_view = s.current_view.saturating_add(1);
    LeaderState {
        current_view: new_view,
        events: s.events.push(
            LeaderElectionEvent::TimeoutViewAdvanced {
                old_view: s.current_view,
                new_view,
                elapsed_ms,
            },
        ),
        ..s
    }
}

/// The state after a proof of equivocation.
pub open spec fn equivocation_passed(s: LeaderState, proof: EquivocationProof) -> LeaderState {
    let new_view = s.current_view.saturating_add(1);
    LeaderState {
        current_view: new_view,
        events: s.events.push(
            LeaderElectionEvent::EquivocationViewAdvanced {
                old_view: s.current_view,
                new_view,
                equivocation_height: proof.height,
                equivocating_proposer: proof.proposer,
            },
        ).push(
            LeaderElectionEvent::TimeoutReset {
                view: new_view,
                new_timeout_ms: view_timeout(new_view),
            },
        ),
        ..s
    }
}

/// A later view never has a shorter timeout, and no timeout exceeds the maximum.
pub proof fn law_timeouts_never_shrink(earlier: u64, later: u64)
    requires
        earlier <= later,
    ensures
        view_timeout(earlier) <= view_timeout(later) <= MAX_TIMEOUT_MS,
{
    lemma_doubling_monotone(BASE_TIMEOUT_MS, earlier as nat, later as nat, MAX_TIMEOUT_MS);
    let p = pow2(earlier as nat) as int;
    assert(0 <= BASE_TIMEOUT_MS * p) by (nonlinear_arith)
        requires
            p >= 0,
    ;
    let q = pow2(later as nat) as int;
    assert(0 <= BASE_TIMEOUT_MS * q) by (nonlinear_arith)
        requires
            q >= 0,
    ;
}

/// Each view doubles the timeout of the one before, up to the maximum.
pub proof fn law_timeouts_double(view: u64)
    requires
        view < u64::MAX,
    ensures
        view_timeout((view + 1) as u64) == least(2 * view_timeout(view), MAX_TIMEOUT_MS as int),
{
    vstd::arithmetic::power2::lemma_pow2_unfold((view + 1) as nat);
    let p = pow2(view as nat) as int;
    assert(BASE_TIMEOUT_MS * (2 * p) == 2 * (BASE_TIMEOUT_MS * p)) by (nonlinear_arith);
    assert(0 <= BASE_TIMEOUT_MS * p) by (nonlinear_arith)
        requires
            p >= 0,
    ;
}

/// Over as many consecutive views as there are validators, every validator leads.
pub proof fn law_every_validator_leads(validators: Seq<PublicKey>, first_view: u64, k: int)
    requires
        0 <= k < validators.len(),
        first_view + validators.len() <= u64::MAX,
    ensures
        exists|v: u64|
            first_view <= v < first_view + validators.len() && leader_of(validators, v)
                == validators[k],
{
    let n = validators.len() as int;
    let r = first_view as int % n;
    let step = if k >= r {
        k - r
    } else {
        k - r + n
    };
    let v = (first_view + step) as u64;
    let q = first_view as int / n;
    assert(first_view == q * n + r) by {
        vstd::arithmetic::div_mod::lemma_fundamental_div_mod(first_view as int, n);
        assert(n * q == q * n) by (nonlinear_arith);
    }
    if k >= r {
        vstd::arithmetic::div_mod::lemma_fundamental_div_mod_converse(v as int, n, q, k);
    } else {
        assert((q + 1) * n == q * n + n) by (nonlinear_arith);
        vstd::arithmetic::div_mod::lemma_fundamental_div_mod_converse(v as int, n, q + 1, k);
    }
    assert(leader_of(validators, v) == validators[k]);
}

impl View for TimeoutLeader {
    type V = LeaderState;

    closed spec fn view(&self) -> LeaderState {
        LeaderState {
            current_view: self.current_view,
            validators: self.validators@,
            events: self.events@,
        }
    }
}

impl TimeoutLeader {
    /// There is a validator.
    pub open spec fn wf(&self) -> bool {
        self@.validators.len() > 0
    }

    /// Create a new [`TimeoutLeader`] starting at `initial_view` with the given ordered,
    /// non-empty validator set.
    pub fn new(initial_view: u64, validators: Vec<PublicKey>) -> (r: Self)
        requires
            validators@.len() > 0,
        ensures
            r.wf(),
            r@ == (LeaderState {
                current_view: initial_view,
                validators: validators@,
                events: Seq::empty(),
            }),
    {
        TimeoutLeader { current_view: initial_view, validators, events: Vec::new() }
    }

    /// Current active consensus view.
    pub fn current_view(&self) -> (r: u64)
        ensures
            r == self@.current_view,
    {
        self.current_view
    }

    /// Public key of the current leader.
    pub fn current_leader(&self) -> (r: PublicKey)
        requires
            self.wf(),
        ensures
            r == leader_of(self@.validators, self@.current_view),
    {
        let idx: usize = (self.current_view % (self.validators.len() as u64)) as usize;
        self.validators[idx]
    }

    /// Compute the timeout for the given `view` using exponential doubling capped at
    /// [`MAX_TIMEOUT_MS`].
    pub fn timeout_for_view(view: u64) -> (r: u64)
        ensures
            r == view_timeout(view),
    {
        doubled_up_to(BASE_TIMEOUT_MS, view, MAX_TIMEOUT_MS)
    }

    /// Current view's timeout in milliseconds.
    pub fn current_timeout_ms(&self) -> (r: u64)
        ensures
            r == view_timeout(self@.current_view),
    {
        Self::timeout_for_view(self.current_view)
    }

    /// Advance the view after a normal timeout expiry.
    pub fn on_timeout(&mut self, elapsed_ms: u64)
        ensures
            final(self)@ == timed_out(old(self)@, elapsed_ms),
    {
        let old_view: u64 = self.current_view;
        self.current_view = self.current_view.saturating_add(1);
        self.events.push(
            LeaderElectionEvent::TimeoutViewAdvanced {
                old_view,
                new_view: self.current_view,
                elapsed_ms,
            },
        );
    }

    /// React to a received [`EquivocationProof`] by immediately advancing the view without
    /// waiting for the timeout.
    pub fn on_equivocation(&mut self, proof: &EquivocationProof)
        ensures
            final(self)@ == equivocation_passed(old(self)@, *proof),
    {
        let old_view: u64 = self.current_view;
        self.current_view = self.current_view.saturating_add(1);
        let new_timeout_ms: u64 = Self::timeout_for_view(self.current_view);
        self.events.push(
            LeaderElectionEvent::EquivocationViewAdvanced {
                old_view,
                new_view: self.current_view,
                equivocation_height: proof.height,
                equivocating_proposer: proof.proposer,
            },
        );
        self.events.push(
            LeaderElectionEvent::TimeoutReset { view: self.current_view, new_timeout_ms },
        );
    }

    /// Drain and return all accumulated events.
    pub fn drain_events(&mut self) -> (r: Vec<LeaderElectionEvent>)
        ensures
            r@ == old(self)@.events,
            final(self)@ == (LeaderState { events: Seq::empty(), ..old(self)@ }),
    {
        let mut drained: Vec<LeaderElectionEvent> = Vec::new();
        core::mem::swap(&mut self.events, &mut drained);
        drained
    }

    /// Slice of all accumulated events without draining.
    pub fn events(&self) -> (r: &[LeaderElectionEvent])
        ensures
            r@ == self@.events,
    {
        self.events.as_slice()
    }
}

/// The timeouts of the first five views are 4, 8, 16, 32 and 64 seconds; from the sixth view on it
/// is two minutes.
pub proof fn law_timeouts_in_milliseconds(view: u64)
    ensures
        view_timeout(0) == 4_000,
        view_timeout(1) == 8_000,
        view_timeout(2) == 16_000,
        view_timeout(3) == 32_000,
        view_timeout(4) == 64_000,
        view >= 5 ==> view_timeout(view) == 120_000,
{
    vstd::arithmetic::power2::lemma2_to64();
    if view >= 5 {
        law_timeouts_never_shrink(5, view);
    }
}

/// The validators lead in turn: the leader of a view is found by counting the views round the
/// list, starting from its head.
pub proof fn law_leaders_take_turns(validators: Seq<PublicKey>, rounds: nat, i: int, view: u64)
    requires
        0 <= i < validators.len(),
        view == rounds * validators.len() + i,
    ensures
        leader_of(validators, view) == validators[i],
{
    let n = validators.len() as int;
    let q = rounds as int;
    assert(view == q * n + i) by {
        assert(rounds * validators.len() == q * n);
    }
    vstd::arithmetic::div_mod::lemma_fundamental_div_mod_converse(view as int, n, q, i);
}

/// A timeout moves on by one view and reports both views and the time that passed. An equivocation
/// moves on by one view, reports its height and its proposer, and then the timeout of the new
/// view.
pub proof fn law_view_advances_by_one(s: LeaderState, elapsed_ms: u64, proof: EquivocationProof)
    requires
        s.current_view < u64::MAX,
    ensures
        ({
            let t = timed_out(s, elapsed_ms);
            let u = equivocation_passed(s, proof);
            let n = s.events.len() as int;
            &&& t.current_view == s.current_view + 1
            &&& u.current_view == s.current_view + 1
            &&& t.validators == s.validators
            &&& u.validators == s.validators
            &&& t.events.len() == n + 1
            &&& u.events.len() == n + 2
            &&& forall|i: int| 0 <= i < n ==> #[trigger] t.events[i] == s.events[i]
            &&& forall|i: int| 0 <= i < n ==> #[trigger] u.events[i] == s.events[i]
            &&& t.events[n] matches LeaderElectionEvent::TimeoutViewAdvanced {
                old_view,
                new_view,
                elapsed_ms: elapsed,
            } && old_view == s.current_view && new_view == s.current_view + 1 && elapsed
                == elapsed_ms
            &&& u.events[n] matches LeaderElectionEvent::EquivocationViewAdvanced {
                old_view,
                new_view,
                equivocation_height,
                equivocating_proposer,
            } && old_view == s.current_view && new_view == s.current_view + 1
                && equivocation_height == proof.height && equivocating_proposer == proof.proposer
            &&& u.events[n + 1] matches LeaderElectionEvent::TimeoutReset { view, new_timeout_ms }
                && view == s.current_view + 1 && new_timeout_ms == view_timeout(view)
        }),
{
}

} // verus!
