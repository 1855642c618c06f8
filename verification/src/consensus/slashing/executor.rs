//! Stake slashing and fund distribution executor.
//!
//! After a challenge period expires without successful counter-evidence, the executor applies
//! the slashing penalty to the offending validator's stake: half of the slashed amount is burned,
//! half is distributed equally among all active validators.
//!
//! | Offense          | Slashing amount                                   |
//! |------------------|---------------------------------------------------|
//! | Equivocation     | 100 % of stake                                    |
//! | Unavailability   | 0.1 % per missed attestation (max 10 %) of stake  |
//! | Invalid proposal | 2 % of stake                                      |

use vstd::prelude::*;

use crate::byte_order::bytes_before;
use crate::consensus::slashing::detector::OffenseType;
use crate::consensus::view_change::types::PublicKey;
use crate::ordered_map::OrderedMap;

verus! {

/// Fraction of slashed funds that is burned (50 %).
pub const BURN_FRACTION_NUMERATOR: u128 = 1;

pub const BURN_FRACTION_DENOMINATOR: u128 = 2;

/// Unavailability penalty per missed attestation: 0.1 % = 1/1000.
pub const UNAVAILABILITY_PENALTY_PER_MISS_NUMERATOR: u128 = 1;

pub const UNAVAILABILITY_PENALTY_PER_MISS_DENOMINATOR: u128 = 1_000;

/// Maximum unavailability penalty as a fraction of stake: 10 % = 1/10.
pub const UNAVAILABILITY_MAX_PENALTY_NUMERATOR: u128 = 1;

pub const UNAVAILABILITY_MAX_PENALTY_DENOMINATOR: u128 = 10;

/// Invalid-proposal penalty: 2 % of stake = 2/100.
pub const INVALID_PROPOSAL_PENALTY_NUMERATOR: u128 = 2;

pub const INVALID_PROPOSAL_PENALTY_DENOMINATOR: u128 = 100;

/// The result of a slashing execution.
#[derive(Clone, Debug, Eq, PartialEq)]
pub struct SlashingResult {
    /// Validator whose stake was slashed.
    pub validator_id: PublicKey,
    /// The offense that triggered slashing.
    pub offense_type: OffenseType,
    /// Total amount slashed from the validator's stake.
    pub total_slashed: u64,
    /// Amount burned (about half of `total_slashed`).
    pub burned: u64,
    /// Amount distributed to active validators (about half of `total_slashed`).
    pub distributed: u64,
    /// Per-validator reward distributed to each active validator.
    /// `0` if there are no active validators.
    pub reward_per_active_validator: u64,
    /// Final remaining stake of the slashed validator (may be 0).
    pub remaining_stake: u64,
}

/// Errors returned by the executor.
#[derive(Clone, Copy, Debug, Eq, PartialEq)]
pub enum ExecutorError {
    /// No stake record exists for the specified validator.
    ValidatorNotFound,
    /// The slashing has already been applied (idempotency guard).
    AlreadySlashed,
}

/// Minimal in-memory stake registry used by the executor.
#[derive(Clone, Debug)]
pub struct StakeRegistry {
    stakes: OrderedMap<PublicKey, u64>,
    slashed: OrderedMap<PublicKey, bool>,
}

/// What a stake registry holds.
pub struct RegistryState {
    /// Stake balance (Gwei) per validator public key.
    pub stakes: Map<Seq<u8>, u64>,
    /// Whether a validator has already been slashed (idempotency guard).
    pub slashed: Map<Seq<u8>, bool>,
}

/// The validator has been slashed.
pub open spec fn marked_slashed(s: RegistryState, validator_id: Seq<u8>) -> bool {
    s.slashed.dom().contains(validator_id) && s.slashed[validator_id]
}

/// The registry after a validator has been registered.
pub open spec fn validator_registered(
    s: RegistryState,
    validator_id: Seq<u8>,
    stake: u64,
) -> RegistryState {
    RegistryState {
        stakes: s.stakes.insert(validator_id, stake),
        slashed: s.slashed.insert(validator_id, false),
    }
}

/// The penalty for an offense: all of the stake, a thousandth per miss up to a tenth, or two
/// hundredths.
pub open spec fn penalty(offense_type: OffenseType, stake: u64, missed: u64) -> u64 {
    match offense_type {
        OffenseType::Equivocation => stake,
        OffenseType::Unavailability => {
            let raw = stake * missed / 1_000;
            let cap = stake as int / 10;
            (if raw < cap {
                raw
            } else {
                cap
            }) as u64
        },
        OffenseType::InvalidProposal => (stake * 2 / 100) as u64,
    }
}

/// What slashing a validator gives.
pub open spec fn slash_result(
    s: RegistryState,
    validator_id: PublicKey,
    offense_type: OffenseType,
    missed: u64,
    active: nat,
) -> Result<SlashingResult, ExecutorError> {
    if !s.stakes.dom().contains(validator_id@) {
        Err(ExecutorError::ValidatorNotFound)
    } else if marked_slashed(s, validator_id@) {
        Err(ExecutorError::AlreadySlashed)
    } else {
        let stake = s.stakes[validator_id@];
        let total = penalty(offense_type, stake, missed);
        let burned = total / 2;
        let distributed = total - burned;
        Ok(
            SlashingResult {
                validator_id,
                offense_type,
                total_slashed: total,
                burned,
                distributed: distributed as u64,
                reward_per_active_validator: if active == 0 {
                    0
                } else {
                    (distributed / active as int) as u64
                },
                remaining_stake: (stake - total) as u64,
            },
        )
    }
}

/// The registry after slashing a validator.
pub open spec fn registry_after(
    s: RegistryState,
    validator_id: PublicKey,
    result: Result<SlashingResult, ExecutorError>,
) -> RegistryState {
    match result {
        Ok(r) => RegistryState {
            stakes: s.stakes.insert(validator_id@, r.remaining_stake),
            slashed: s.slashed.insert(validator_id@, true),
        },
        Err(_) => s,
    }
}

/// A penalty never exceeds the stake.
pub proof fn law_penalty_within_stake(offense_type: OffenseType, stake: u64, missed: u64)
    ensures
        penalty(offense_type, stake, missed) <= stake,
{
    if offense_type == OffenseType::Unavailability {
        assert(0 <= stake * missed) by (nonlinear_arith);
    }
}

/// The penalty for unavailability grows with the number of misses and stops at a tenth of the
/// stake.
pub proof fn law_unavailability_penalty_monotone_and_capped(stake: u64, fewer: u64, more: u64)
    requires
        fewer <= more,
    ensures
        penalty(OffenseType::Unavailability, stake, fewer) <= penalty(
            OffenseType::Unavailability,
            stake,
            more,
        ),
        penalty(OffenseType::Unavailability, stake, more) <= stake / 10,
{
    assert(stake * fewer <= stake * more) by (nonlinear_arith)
        requires
            fewer <= more,
    ;
    assert(0 <= stake * fewer) by (nonlinear_arith);
}

/// The penalty for unavailability is a thousandth of the stake for each miss below a hundred, and
/// a tenth of the stake from a hundred misses on.
pub proof fn law_unavailability_penalty_by_misses(stake: u64, missed: u64)
    ensures
        missed < 100 ==> penalty(OffenseType::Unavailability, stake, missed) == stake * missed
            / 1_000,
        missed >= 100 ==> penalty(OffenseType::Unavailability, stake, missed) == stake / 10,
{
    if missed < 100 {
        assert(0 <= stake * missed <= stake * 100) by (nonlinear_arith)
            requires
                0 <= missed < 100,
                stake >= 0,
        ;
    } else {
        assert(stake * missed >= stake * 100) by (nonlinear_arith)
            requires
                missed >= 100,
                stake >= 0,
        ;
    }
}

/// Slashing destroys no funds and creates none: what is burned and what is distributed add up to
/// what was slashed, what was slashed and what remains add up to the stake, and the rewards do
/// not exceed what is distributed.
pub proof fn law_slashing_conserves_funds(
    s: RegistryState,
    validator_id: PublicKey,
    offense_type: OffenseType,
    missed: u64,
    active: nat,
)
    requires
        slash_result(s, validator_id, offense_type, missed, active) is Ok,
    ensures
        ({
            let r = slash_result(s, validator_id, offense_type, missed, active)->Ok_0;
            &&& r.burned + r.distributed == r.total_slashed
            &&& r.total_slashed + r.remaining_stake == s.stakes[validator_id@]
            &&& r.reward_per_active_validator * active <= r.distributed
            &&& r.distributed - r.burned <= 1
        }),
{
    let stake = s.stakes[validator_id@];
    law_penalty_within_stake(offense_type, stake, missed);
    let r = slash_result(s, validator_id, offense_type, missed, active)->Ok_0;
    if active > 0 {
        let d = r.distributed as int;
        let a = active as int;
        assert(0 <= d / a <= d && (d / a) * a <= d) by (nonlinear_arith)
            requires
                d >= 0,
                a > 0,
        ;
    }
}

/// A validator is slashed at most once: after a slashing that went through, every further one is
/// refused and changes nothing.
pub proof fn law_slashed_at_most_once(
    s: RegistryState,
    validator_id: PublicKey,
    offense_type: OffenseType,
    missed: u64,
    active: nat,
    again: OffenseType,
    missed_again: u64,
    active_again: nat,
)
    requires
        slash_result(s, validator_id, offense_type, missed, active) is Ok,
    ensures
        ({
            let after = registry_after(
                s,
                validator_id,
                slash_result(s, validator_id, offense_type, missed, active),
            );
            slash_result(after, validator_id, again, missed_again, active_again) == Err::<
                SlashingResult,
                _,
            >(ExecutorError::AlreadySlashed)
        }),
{
}

impl View for StakeRegistry {
    type V = RegistryState;

    closed spec fn view(&self) -> RegistryState {
        RegistryState { stakes: self.stakes@, slashed: self.slashed@ }
    }
}

impl StakeRegistry {
    /// The tables are in order.
    pub closed spec fn wf(&self) -> bool {
        &&& self.stakes.wf()
        &&& self.slashed.wf()
    }

    /// Finitely many validators are registered.
    pub proof fn law_finite(&self)
        requires
            self.wf(),
        ensures
            self@.stakes.dom().finite(),
            self@.slashed.dom().finite(),
    {
        self.stakes.lemma_finite();
        self.slashed.lemma_finite();
    }

    /// Create an empty registry.
    pub fn new() -> (r: Self)
        ensures
            r.wf(),
            r@ == (RegistryState { stakes: Map::empty(), slashed: Map::empty() }),
    {
        StakeRegistry { stakes: OrderedMap::new(), slashed: OrderedMap::new() }
    }

    /// Register a validator with an initial stake.
    pub fn register(&mut self, validator_id: PublicKey, stake: u64)
        requires
            old(self).wf(),
        ensures
            final(self).wf(),
            final(self)@ == validator_registered(old(self)@, validator_id@, stake),
    {
        self.stakes.insert(validator_id, stake);
        self.slashed.insert(validator_id, false);
    }

    /// Current stake of `validator_id`, or `None` if not registered.
    pub fn stake(&self, validator_id: &PublicKey) -> (r: Option<u64>)
        requires
            self.wf(),
        ensures
            r == if self@.stakes.dom().contains(validator_id@) {
                Some(self@.stakes[validator_id@])
            } else {
                None
            },
    {
        match self.stakes.get(validator_id) {
            Some(stake) => Some(*stake),
            None => None,
        }
    }

    /// Whether `validator_id` has already been slashed.
    pub fn is_slashed(&self, validator_id: &PublicKey) -> (r: bool)
        requires
            self.wf(),
        ensures
            r == marked_slashed(self@, validator_id@),
    {
        match self.slashed.get(validator_id) {
            Some(flag) => *flag,
            None => false,
        }
    }

    /// All registered validator IDs, in ascending order.
    pub fn all_validators(&self) -> (r: Vec<&PublicKey>)
        requires
            self.wf(),
        ensures
            forall|i: int, j: int|
                0 <= i < j < r@.len() ==> bytes_before((#[trigger] r@[i])@, (#[trigger] r@[j])@),
            forall|k: Seq<u8>| #[trigger]
                self@.stakes.dom().contains(k) <==> exists|i: int|
                    0 <= i < r@.len() && (#[trigger] r@[i])@ == k,
    {
        let mut all: Vec<&PublicKey> = Vec::new();
        let n: usize = self.stakes.len();
        let mut i: usize = 0;
        while i < n
            invariant
                self.wf(),
                i <= n,
                n == self.stakes.count(),
                all@.len() == i,
                forall|j: int|
                    0 <= j < i ==> (#[trigger] all@[j])@ == self.stakes.entries()[j].0,
            decreases n - i,
        {
            all.push(self.stakes.key_at(i));
            i = i + 1;
        }
        proof {
            self.stakes.lemma_ascending();
            assert forall|k: Seq<u8>| #[trigger]
                self@.stakes.dom().contains(k) <==> exists|i: int|
                    0 <= i < all@.len() && (#[trigger] all@[i])@ == k by {
                if self@.stakes.dom().contains(k) {
                    let i = self.stakes.lemma_find(k);
                    assert(all@[i]@ == k);
                }
                if exists|i: int| 0 <= i < all@.len() && (#[trigger] all@[i])@ == k {
                    let i = choose|i: int| 0 <= i < all@.len() && (#[trigger] all@[i])@ == k;
                    self.stakes.lemma_at(i);
                }
            }
        }
        all
    }

    /// Deducts stake, marks the validator slashed, and returns what remains.
    fn apply_slash(&mut self, validator_id: &PublicKey, amount: u64) -> (r: u64)
        requires
            old(self).wf(),
            old(self)@.stakes.dom().contains(validator_id@),
        ensures
            final(self).wf(),
            r == old(self)@.stakes[validator_id@].saturating_sub(amount),
            final(self)@ == (RegistryState {
                stakes: old(self)@.stakes.insert(validator_id@, r),
                slashed: old(self)@.slashed.insert(validator_id@, true),
            }),
    {
        let remaining: u64 = match self.stakes.get(validator_id) {
            Some(stake) => stake.saturating_sub(amount),
            None => 0,
        };
        self.stakes.insert(*validator_id, remaining);
        self.slashed.insert(*validator_id, true);
        remaining
    }
}

impl Default for StakeRegistry {
    fn default() -> (r: Self)
        ensures
            r.wf(),
            r@ == (RegistryState { stakes: Map::empty(), slashed: Map::empty() }),
    {
        Self::new()
    }
}

/// Applies computed slashing penalties and distributes funds.
#[derive(Clone, Debug)]
pub struct SlashingExecutor {
    registry: StakeRegistry,
}

impl View for SlashingExecutor {
    type V = RegistryState;

    closed spec fn view(&self) -> RegistryState {
        self.registry@
    }
}

impl Default for SlashingExecutor {
    fn default() -> (r: Self)
        ensures
            r.wf(),
            r@ == (RegistryState { stakes: Map::empty(), slashed: Map::empty() }),
    {
        Self::empty()
    }
}

impl SlashingExecutor {
    /// The registry is in order.
    pub closed spec fn wf(&self) -> bool {
        self.registry.wf()
    }

    /// Finitely many validators are registered.
    pub proof fn law_finite(&self)
        requires
            self.wf(),
        ensures
            self@.stakes.dom().finite(),
            self@.slashed.dom().finite(),
    {
        self.registry.law_finite();
    }

    /// Create an executor backed by the given registry.
    pub fn new(registry: StakeRegistry) -> (r: Self)
        requires
            registry.wf(),
        ensures
            r.wf(),
            r@ == registry@,
    {
        SlashingExecutor { registry }
    }

    /// Create an executor with an empty registry.
    pub fn empty() -> (r: Self)
        ensures
            r.wf(),
            r@ == (RegistryState { stakes: Map::empty(), slashed: Map::empty() }),
    {
        SlashingExecutor { registry: StakeRegistry::new() }
    }

    /// Access to the stake registry for inspection / setup.
    pub fn registry(&self) -> (r: &StakeRegistry)
        requires
            self.wf(),
        ensures
            r.wf(),
            r@ == self@,
    {
        &self.registry
    }

    /// Mutable access to the registry (for registration during setup).
    pub fn registry_mut(&mut self) -> (r: &mut StakeRegistry)
        requires
            old(self).wf(),
        ensures
            r.wf(),
            r@ == old(self)@,
            final(r).wf() ==> final(self).wf(),
            final(self)@ == final(r)@,
    {
        &mut self.registry
    }

    /// Execute slashing for `validator_id` with the given `offense_type` and
    /// `missed_attestations` count (only relevant for [`OffenseType::Unavailability`]).
    ///
    /// `active_validators` is the list of all active validators that will share the distribution
    /// reward. The executor refuses to slash a validator more than once.
    pub fn execute(
        &mut self,
        validator_id: PublicKey,
        offense_type: OffenseType,
        missed_attestations: u64,
        active_validators: &[PublicKey],
    ) -> (r: Result<SlashingResult, ExecutorError>)
        requires
            old(self).wf(),
        ensures
            final(self).wf(),
            r == slash_result(
                old(self)@,
                validator_id,
                offense_type,
                missed_attestations,
                active_validators@.len(),
            ),
            final(self)@ == registry_after(old(self)@, validator_id, r),
    {
        let stake: u64 = match self.registry.stake(&validator_id) {
            Some(stake) => stake,
            None => return Err(ExecutorError::ValidatorNotFound),
        };
        if self.registry.is_slashed(&validator_id) {
            return Err(ExecutorError::AlreadySlashed);
        }
        let total_slashed: u64 = Self::compute_slash_amount(
            offense_type,
            stake,
            missed_attestations,
        );
        proof {
            law_penalty_within_stake(offense_type, stake, missed_attestations);
        }
        let burned: u64 = ((total_slashed as u128 * BURN_FRACTION_NUMERATOR)
            / BURN_FRACTION_DENOMINATOR) as u64;
        let distributed: u64 = total_slashed.saturating_sub(burned);
        let reward_per: u64 = if active_validators.len() == 0 {
            0u64
        } else {
            let share: u128 = distributed as u128 / active_validators.len() as u128;
            proof {
                let d = distributed as int;
                let a = active_validators@.len() as int;
                assert(0 <= d / a <= d) by (nonlinear_arith)
                    requires
                        d >= 0,
                        a > 0,
                ;
            }
            share as u64
        };
        let remaining: u64 = self.registry.apply_slash(&validator_id, total_slashed);
        Ok(
            SlashingResult {
                validator_id,
                offense_type,
                total_slashed,
                burned,
                distributed,
                reward_per_active_validator: reward_per,
                remaining_stake: remaining,
            },
        )
    }

    /// Compute the slashing amount given the offense type and current stake.
    pub fn compute_slash_amount(
        offense_type: OffenseType,
        stake: u64,
        missed_attestations: u64,
    ) -> (r: u64)
        ensures
            r == penalty(offense_type, stake, missed_attestations),
    {
        match offense_type {
            OffenseType::Equivocation => stake,
            OffenseType::Unavailability => {
                proof {
                    assert(0 <= stake * missed_attestations <= 0xffff_ffff_ffff_ffff
                        * 0xffff_ffff_ffff_ffff) by (nonlinear_arith)
                        requires
                            0 <= stake <= 0xffff_ffff_ffff_ffff,
                            0 <= missed_attestations <= 0xffff_ffff_ffff_ffff,
                    ;
                }
                let raw: u128 = (stake as u128 * UNAVAILABILITY_PENALTY_PER_MISS_NUMERATOR) * (
                missed_attestations as u128) / UNAVAILABILITY_PENALTY_PER_MISS_DENOMINATOR;
                let cap: u128 = (stake as u128 * UNAVAILABILITY_MAX_PENALTY_NUMERATOR)
                    / UNAVAILABILITY_MAX_PENALTY_DENOMINATOR;
                if raw < cap {
                    raw as u64
                } else {
                    cap as u64
                }
            },
            OffenseType::InvalidProposal => {
                let amount: u128 = (stake as u128 * INVALID_PROPOSAL_PENALTY_NUMERATOR)
                    / INVALID_PROPOSAL_PENALTY_DENOMINATOR;
                amount as u64
            },
        }
    }
}

/// Equivocation costs the whole stake and an invalid proposal a fiftieth of it. Half of what is
/// taken, rounded down, is burned; the rest is shared out equally among the active validators. It
/// is refused exactly where there is no stake or the validator was slashed before.
pub proof fn law_slashing_in_numbers(
    s: RegistryState,
    validator_id: PublicKey,
    offense_type: OffenseType,
    missed: u64,
    active: nat,
)
    ensures
        ({
            let answer = slash_result(s, validator_id, offense_type, missed, active);
            let known = s.stakes.dom().contains(validator_id@);
            let before = s.slashed.dom().contains(validator_id@) && s.slashed[validator_id@];
            let stake = s.stakes[validator_id@];
            &&& answer == Err::<SlashingResult, _>(ExecutorError::ValidatorNotFound) <==> !known
            &&& answer == Err::<SlashingResult, _>(ExecutorError::AlreadySlashed) <==> known
                && before
            &&& answer is Ok <==> known && !before
            &&& answer matches Ok(r) ==> {
                &&& r.validator_id == validator_id
                &&& r.offense_type == offense_type
                &&& offense_type == OffenseType::Equivocation ==> r.total_slashed == stake
                    && r.remaining_stake == 0
                &&& offense_type == OffenseType::InvalidProposal ==> r.total_slashed == stake / 50
                &&& offense_type == OffenseType::Unavailability && missed < 100 ==> r.total_slashed
                    == stake * missed / 1_000
                &&& offense_type == OffenseType::Unavailability && missed >= 100
                    ==> r.total_slashed == stake / 10
                &&& r.remaining_stake == stake - r.total_slashed
                &&& r.burned == r.total_slashed / 2
                &&& r.distributed == r.total_slashed - r.total_slashed / 2
                &&& active == 0 ==> r.reward_per_active_validator == 0
                &&& active > 0 ==> r.reward_per_active_validator * active <= r.distributed < (
                r.reward_per_active_validator + 1) * active
            }
        }),
{
    let answer = slash_result(s, validator_id, offense_type, missed, active);
    if answer is Ok {
        let stake = s.stakes[validator_id@];
        law_penalty_within_stake(offense_type, stake, missed);
        law_unavailability_penalty_by_misses(stake, missed);
        let r = answer->Ok_0;
        if active > 0 {
            let d = r.distributed as int;
            let n = active as int;
            vstd::arithmetic::div_mod::lemma_fundamental_div_mod(d, n);
            vstd::arithmetic::div_mod::lemma_mod_bound(d, n);
            let q = d / n;
            assert(0 <= q <= d) by (nonlinear_arith)
                requires
                    d >= 0,
                    n > 0,
                    q == d / n,
            ;
            assert(n * q == q * n) by (nonlinear_arith);
            assert((q + 1) * n == q * n + n) by (nonlinear_arith);
        }
    }
}

/// A slashing that went through leaves the validator the rest of its stake and marks it; one that
/// was refused changes nothing, and no other validator is touched either way.
pub proof fn law_slashing_touches_one_validator(
    s: RegistryState,
    validator_id: PublicKey,
    offense_type: OffenseType,
    missed: u64,
    active: nat,
    other: Seq<u8>,
)
    requires
        other != validator_id@,
    ensures
        ({
            let answer = slash_result(s, validator_id, offense_type, missed, active);
            let t = registry_after(s, validator_id, answer);
            &&& answer matches Ok(r) ==> {
                &&& t.stakes.dom().contains(validator_id@)
                &&& t.stakes[validator_id@] == s.stakes[validator_id@] - r.total_slashed
                &&& marked_slashed(t, validator_id@)
            }
            &&& answer is Err ==> t == s
            &&& t.stakes.dom().contains(other) == s.stakes.dom().contains(other)
            &&& t.stakes[other] == s.stakes[other]
            &&& marked_slashed(t, other) == marked_slashed(s, other)
        }),
{
    law_slashing_in_numbers(s, validator_id, offense_type, missed, active);
}

/// A validator that is registered holds the stake it was registered with and is not slashed; no
/// other validator is touched.
pub proof fn law_registered_with_its_stake(
    s: RegistryState,
    validator_id: Seq<u8>,
    stake: u64,
    other: Seq<u8>,
)
    requires
        other != validator_id,
    ensures
        ({
            let t = validator_registered(s, validator_id, stake);
            &&& t.stakes.dom().contains(validator_id)
            &&& t.stakes[validator_id] == stake
            &&& !marked_slashed(t, validator_id)
            &&& t.stakes.dom().contains(other) == s.stakes.dom().contains(other)
            &&& t.stakes[other] == s.stakes[other]
            &&& marked_slashed(t, other) == marked_slashed(s, other)
        }),
{
}

/// Half of what is slashed is burned; a miss costs a thousandth up to a tenth, and an invalid
/// proposal two hundredths.
pub proof fn law_fractions_in_numbers()
    ensures
        BURN_FRACTION_NUMERATOR == 1,
        BURN_FRACTION_DENOMINATOR == 2,
        UNAVAILABILITY_PENALTY_PER_MISS_NUMERATOR == 1,
        UNAVAILABILITY_PENALTY_PER_MISS_DENOMINATOR == 1_000,
        UNAVAILABILITY_MAX_PENALTY_NUMERATOR == 1,
        UNAVAILABILITY_MAX_PENALTY_DENOMINATOR == 10,
        INVALID_PROPOSAL_PENALTY_NUMERATOR == 2,
        INVALID_PROPOSAL_PENALTY_DENOMINATOR == 100,
{
}

} // verus!
