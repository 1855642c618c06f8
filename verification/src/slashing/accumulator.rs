//! Accumulator of slashings, by validator and epoch.

use vstd::prelude::*;

use crate::ordered_map::{ascending, entries_map, listing, OrderedMap};
use crate::slashing::types::{
    generation_of, tagged_record, EpochIndex, SlashingRecord, ValidatorIndex, WindowOffset,
    DEFAULT_SLASHING_WINDOW,
};

verus! {

/// Slashings seen up to the current epoch.
#[derive(Clone, Debug, PartialEq, Eq)]
pub struct SlashingAccumulator {
    window_size: usize,
    current_epoch: EpochIndex,
    records: OrderedMap<(ValidatorIndex, EpochIndex), SlashingRecord>,
}

/// What an accumulator holds.
pub struct AccumulatorState {
    pub window_size: usize,
    pub current_epoch: EpochIndex,
    pub records: Map<(ValidatorIndex, EpochIndex), SlashingRecord>,
}

/// The window size that is used: the default where the given one is zero or too large for an
/// offset.
pub open spec fn usable_window(window_size: usize) -> usize {
    if 0 < window_size <= 0xffff {
        window_size
    } else {
        DEFAULT_SLASHING_WINDOW
    }
}

/// The accumulator after a slashing.
pub open spec fn slashing_recorded(
    s: AccumulatorState,
    validator_index: ValidatorIndex,
    epoch: EpochIndex,
) -> AccumulatorState {
    AccumulatorState {
        current_epoch: if epoch > s.current_epoch {
            epoch
        } else {
            s.current_epoch
        },
        records: s.records.insert(
            (validator_index, epoch),
            tagged_record(validator_index, epoch, s.window_size as int),
        ),
        ..s
    }
}

/// The accumulator after an epoch has been reached.
pub open spec fn epoch_reached(s: AccumulatorState, epoch: EpochIndex) -> AccumulatorState {
    AccumulatorState {
        current_epoch: if epoch > s.current_epoch {
            epoch
        } else {
            s.current_epoch
        },
        ..s
    }
}

/// Every record stands under its validator and epoch, is tagged by its epoch, and is not of the
/// future.
pub open spec fn accumulator_ok(s: AccumulatorState) -> bool {
    &&& 0 < s.window_size <= 0xffff
    &&& forall|k: (ValidatorIndex, EpochIndex)| #[trigger]
        s.records.dom().contains(k) ==> s.records[k] == tagged_record(
            k.0,
            k.1,
            s.window_size as int,
        ) && k.1 <= s.current_epoch
}

impl View for SlashingAccumulator {
    type V = AccumulatorState;

    closed spec fn view(&self) -> AccumulatorState {
        AccumulatorState {
            window_size: self.window_size,
            current_epoch: self.current_epoch,
            records: self.records@,
        }
    }
}

impl SlashingAccumulator {
    /// The table and its records are in order.
    pub closed spec fn wf(&self) -> bool {
        &&& self.records.wf()
        &&& accumulator_ok(self@)
    }

    /// There are finitely many records, each under its validator and epoch, tagged by its epoch,
    /// and none of the future.
    pub proof fn law_in_order(&self)
        requires
            self.wf(),
        ensures
            accumulator_ok(self@),
            self@.records.dom().finite(),
    {
        self.records.lemma_finite();
    }

    /// The records in ascending order of validator and epoch.
    pub proof fn lemma_entries(&self) -> (e: Seq<((ValidatorIndex, EpochIndex), SlashingRecord)>)
        requires
            self.wf(),
        ensures
            ascending::<(ValidatorIndex, EpochIndex), SlashingRecord>(e),
            entries_map(e) == self@.records,
    {
        self.records.lemma_ascending();
        self.records.entries()
    }

    /// An empty accumulator with the given window size.
    pub fn with_window_size(window_size: usize) -> (r: Self)
        ensures
            r.wf(),
            r@ == (AccumulatorState {
                window_size: usable_window(window_size),
                current_epoch: 0,
                records: Map::empty(),
            }),
    {
        let size: usize = if window_size > 0 && window_size <= 0xffff {
            window_size
        } else {
            DEFAULT_SLASHING_WINDOW
        };
        SlashingAccumulator { window_size: size, current_epoch: 0, records: OrderedMap::new() }
    }

    /// Records a slashing, advancing to its epoch.
    pub fn record_slashing(&mut self, validator_index: ValidatorIndex, epoch: EpochIndex)
        requires
            old(self).wf(),
        ensures
            final(self).wf(),
            final(self)@ == slashing_recorded(old(self)@, validator_index, epoch),
    {
        let window: u64 = self.window_size as u64;
        let record: SlashingRecord = SlashingRecord {
            validator_index,
            epoch,
            window_generation: ((epoch / window) % 0x1_0000) as u16,
            offset: WindowOffset((epoch % window) as u16),
        };
        let ghost before = self@;
        self.records.insert((validator_index, epoch), record);
        if epoch > self.current_epoch {
            self.current_epoch = epoch;
        }
        proof {
            assert(self@ == slashing_recorded(before, validator_index, epoch));
            assert forall|k: (ValidatorIndex, EpochIndex)| #[trigger]
                self@.records.dom().contains(k) implies self@.records[k] == tagged_record(
                k.0,
                k.1,
                self@.window_size as int,
            ) && k.1 <= self@.current_epoch by {
                if k != (validator_index, epoch) {
                    assert(before.records.dom().contains(k));
                }
            }
        }
    }

    /// Advances to an epoch; an earlier one changes nothing.
    pub fn advance_to_epoch(&mut self, epoch: EpochIndex)
        ensures
            final(self)@ == epoch_reached(old(self)@, epoch),
            old(self).wf() ==> final(self).wf(),
    {
        if epoch > self.current_epoch {
            self.current_epoch = epoch;
        }
    }

    /// The current epoch.
    pub fn current_epoch(&self) -> (r: EpochIndex)
        ensures
            r == self@.current_epoch,
    {
        self.current_epoch
    }

    /// The generation of the current epoch's window.
    pub fn current_generation(&self) -> (r: u16)
        requires
            self.wf(),
        ensures
            r == generation_of(self@.current_epoch, self@.window_size as int),
    {
        ((self.current_epoch / self.window_size as u64) % 0x1_0000) as u16
    }

    /// The number of epochs in a window.
    pub fn window_size(&self) -> (r: usize)
        ensures
            r == self@.window_size,
    {
        self.window_size
    }

    /// The records, by validator and epoch.
    pub fn iter_records(&self) -> (r: Vec<SlashingRecord>)
        requires
            self.wf(),
        ensures
            r@ == listing::<(ValidatorIndex, EpochIndex), SlashingRecord>(
                self@.records,
            ).map_values(|e: ((u64, u64), SlashingRecord)| e.1),
    {
        let ghost s = self.records.entries();
        let n: usize = self.records.len();
        let mut all: Vec<SlashingRecord> = Vec::new();
        let mut i: usize = 0;
        while i < n
            invariant
                self.wf(),
                s == self.records.entries(),
                n == s.len(),
                i <= n,
                all@.len() == i,
                forall|j: int| 0 <= j < i ==> #[trigger] all@[j] == s[j].1,
            decreases n - i,
        {
            all.push(*self.records.value_at(i));
            i = i + 1;
        }
        proof {
            self.records.lemma_listing();
            assert(all@ =~= s.map_values(|e: ((u64, u64), SlashingRecord)| e.1));
        }
        all
    }
}

/// A window of one to 65,535 epochs is taken as it is; any other size becomes 8,192.
pub proof fn law_window_is_kept_in_range(window_size: usize)
    ensures
        1 <= window_size <= 65_535 ==> usable_window(window_size) == window_size,
        window_size == 0 || window_size > 65_535 ==> usable_window(window_size) == 8_192,
{
}

/// Recording a slashing stores it under its validator and epoch, tagged so that its generation and
/// its offset give back the epoch; no other record changes. The current epoch is the latest one
/// recorded or reached, and never falls.
pub proof fn law_slashing_is_recorded(
    s: AccumulatorState,
    validator_index: ValidatorIndex,
    epoch: EpochIndex,
    other: (ValidatorIndex, EpochIndex),
)
    requires
        0 < s.window_size <= 65_535,
        other != (validator_index, epoch),
    ensures
        ({
            let t = slashing_recorded(s, validator_index, epoch);
            let r = t.records[(validator_index, epoch)];
            let w = s.window_size as int;
            &&& t.records.dom().contains((validator_index, epoch))
            &&& r.validator_index == validator_index
            &&& r.epoch == epoch
            &&& r.offset.0 < w
            &&& epoch == (epoch as int / w / 65_536 * 65_536 + r.window_generation) * w + r.offset.0
            &&& t.records.dom().contains(other) == s.records.dom().contains(other)
            &&& t.records[other] == s.records[other]
            &&& t.window_size == s.window_size
            &&& t.current_epoch == epoch || (epoch < s.current_epoch && t.current_epoch
                == s.current_epoch)
            &&& t.current_epoch >= s.current_epoch
        }),
        ({
            let t = epoch_reached(s, epoch);
            &&& t.records == s.records
            &&& t.window_size == s.window_size
            &&& t.current_epoch == epoch || (epoch < s.current_epoch && t.current_epoch
                == s.current_epoch)
            &&& t.current_epoch >= s.current_epoch
        }),
{
    let w = s.window_size as int;
    let e = epoch as int;
    vstd::arithmetic::div_mod::lemma_fundamental_div_mod(e, w);
    vstd::arithmetic::div_mod::lemma_mod_bound(e, w);
    let q = e / w;
    assert(q >= 0) by (nonlinear_arith)
        requires
            e >= 0,
            w > 0,
            q == e / w,
    ;
    let rounds = q / 65_536;
    let r = slashing_recorded(s, validator_index, epoch).records[(validator_index, epoch)];
    assert(r.window_generation == q % 65_536);
    assert(r.offset.0 == e % w);
    assert(rounds * 65_536 + r.window_generation == q);
    assert((rounds * 65_536 + r.window_generation) * w == w * q) by (nonlinear_arith)
        requires
            rounds * 65_536 + r.window_generation == q,
    ;
    assert(epoch == (rounds * 65_536 + r.window_generation) * w + r.offset.0);
}

} // verus!
