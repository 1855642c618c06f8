//! Storage and serialization of generational slashing accumulator state.
//!
//! Deterministic binary persistence, snapshots, and retrieval for validator slashing records with
//! rollover generation tags. Numbers are stored most significant byte first.

use vstd::prelude::*;

use crate::byte_order::{append, slices_equal, to_vec};
use crate::codec::{
    be_digits, be_value, lemma_be_value_of_digits, lemma_radix_powers, read_be,
    u16_to_be, u32_to_be, u64_to_be,
};
use crate::ordered_map::{
    ascending, entries_map, has_key, lemma_entry, lemma_listing_of, lemma_listing_whole,
    lemma_map_push, lemma_map_size, listing, place_of, OrderedMap,
};
use crate::slashing::accumulator::{usable_window, AccumulatorState, SlashingAccumulator};
use crate::slashing::types::{
    generation_of, tag_of, tagged_record, EpochIndex, GenerationalTag, SlashingRecord,
    ValidatorIndex, WindowOffset, DEFAULT_SLASHING_WINDOW,
};

verus! {

/// Binary serialization format identifier (`VNSLASH1`).
pub const SLASHING_STORE_MAGIC: [u8; 8] = [0x56, 0x4e, 0x53, 0x4c, 0x41, 0x53, 0x48, 0x31];

/// Current serialization format version.
pub const CURRENT_STORE_VERSION: u32 = 1;

/// Length of the serialized header.
const HEADER_LEN: usize = 28;

/// Length of a serialized record.
const RECORD_LEN: usize = 20;

/// Error conditions during slashing store serialization and parsing.
#[derive(Clone, Debug, PartialEq, Eq)]
pub enum SlashingStoreError {
    InvalidMagic,
    UnsupportedVersion(u32),
    PayloadTruncated,
    CorruptedData,
}

/// Persistent snapshot of generational slashing state.
#[derive(Clone, Debug, PartialEq, Eq)]
pub struct SlashingStoreSnapshot {
    pub version: u32,
    pub current_epoch: EpochIndex,
    pub window_generation: u16,
    pub window_size: u16,
    pub records: Vec<SlashingRecord>,
}

/// Store for persisting and querying generational slashing accumulator data.
#[derive(Clone, Debug, PartialEq, Eq)]
pub struct SlashingStore {
    records: OrderedMap<(ValidatorIndex, EpochIndex), SlashingRecord>,
    generational_tags: OrderedMap<ValidatorIndex, GenerationalTag>,
    bit_states: OrderedMap<ValidatorIndex, bool>,
    current_epoch: EpochIndex,
    window_generation: u16,
    window_size: u16,
}

/// What a store holds.
pub struct StoreState {
    /// Records by validator and epoch.
    pub records: Map<(ValidatorIndex, EpochIndex), SlashingRecord>,
    /// The tag of the record saved last, by validator.
    pub tags: Map<ValidatorIndex, GenerationalTag>,
    /// Whether a validator has been slashed.
    pub bits: Map<ValidatorIndex, bool>,
    pub current_epoch: EpochIndex,
    pub window_generation: u16,
    pub window_size: u16,
}

/// An empty store.
pub open spec fn empty_store(current_epoch: EpochIndex, window_generation: u16, window_size: u16) -> StoreState {
    StoreState {
        records: Map::empty(),
        tags: Map::empty(),
        bits: Map::empty(),
        current_epoch,
        window_generation,
        window_size,
    }
}

/// The window size of a new store: the default in place of zero.
pub open spec fn store_window(window_size: u16) -> u16 {
    if window_size == 0 {
        DEFAULT_SLASHING_WINDOW as u16
    } else {
        window_size
    }
}

/// The store with one more record, its epoch left as it is.
pub open spec fn entered(s: StoreState, r: SlashingRecord) -> StoreState {
    StoreState {
        records: s.records.insert((r.validator_index, r.epoch), r),
        tags: s.tags.insert(r.validator_index, tag_of(r)),
        bits: s.bits.insert(r.validator_index, true),
        ..s
    }
}

/// The store after a record has been saved: a later epoch becomes the current one.
pub open spec fn saved(s: StoreState, r: SlashingRecord) -> StoreState {
    let t = entered(s, r);
    if r.epoch > s.current_epoch {
        StoreState { current_epoch: r.epoch, window_generation: r.window_generation, ..t }
    } else {
        t
    }
}

/// The store with some more records, their epochs left aside.
pub open spec fn entered_all(s: StoreState, rs: Seq<SlashingRecord>) -> StoreState
    decreases rs.len(),
{
    if rs.len() == 0 {
        s
    } else {
        entered(entered_all(s, rs.drop_last()), rs.last())
    }
}

/// The store after some records have been saved, in their order.
pub open spec fn saved_all(s: StoreState, rs: Seq<SlashingRecord>) -> StoreState
    decreases rs.len(),
{
    if rs.len() == 0 {
        s
    } else {
        saved(saved_all(s, rs.drop_last()), rs.last())
    }
}

/// The records of a map, by validator and epoch.
pub open spec fn record_list(m: Map<(ValidatorIndex, EpochIndex), SlashingRecord>) -> Seq<
    SlashingRecord,
> {
    listing::<(ValidatorIndex, EpochIndex), SlashingRecord>(m).map_values(
        |e: ((u64, u64), SlashingRecord)| e.1,
    )
}

/// A store that holds what an accumulator holds.
pub open spec fn accumulator_saved(a: AccumulatorState) -> StoreState {
    entered_all(
        empty_store(
            a.current_epoch,
            generation_of(a.current_epoch, a.window_size as int),
            a.window_size as u16,
        ),
        record_list(a.records),
    )
}

/// An accumulator of what a store holds, its records tagged by their epochs.
pub open spec fn loaded(s: StoreState) -> AccumulatorState {
    let window_size = usable_window(s.window_size as usize);
    AccumulatorState {
        window_size,
        current_epoch: s.current_epoch,
        records: Map::new(
            |k: (ValidatorIndex, EpochIndex)| s.records.dom().contains(k),
            |k: (ValidatorIndex, EpochIndex)| tagged_record(k.0, k.1, window_size as int),
        ),
    }
}

/// The bytes of a record.
pub open spec fn record_bytes(r: SlashingRecord) -> Seq<u8> {
    be_digits(r.validator_index as nat, 8) + be_digits(r.epoch as nat, 8) + be_digits(
        r.window_generation as nat,
        2,
    ) + be_digits(r.offset.0 as nat, 2)
}

/// The bytes of some records, one behind the other.
pub open spec fn records_bytes(rs: Seq<SlashingRecord>) -> Seq<u8>
    decreases rs.len(),
{
    if rs.len() == 0 {
        Seq::empty()
    } else {
        records_bytes(rs.drop_last()) + record_bytes(rs.last())
    }
}

/// The bytes of the header of a store.
pub open spec fn header_bytes(s: StoreState, count: nat) -> Seq<u8> {
    SLASHING_STORE_MAGIC@ + be_digits(CURRENT_STORE_VERSION as nat, 4) + be_digits(
        s.current_epoch as nat,
        8,
    ) + be_digits(s.window_generation as nat, 2) + be_digits(s.window_size as nat, 2) + be_digits(
        count % 0x1_0000_0000,
        4,
    )
}

/// The bytes of a store: its header and its records by validator and epoch. The number of records
/// is taken modulo 2^32.
pub open spec fn store_bytes(s: StoreState) -> Seq<u8> {
    header_bytes(s, record_list(s.records).len()) + records_bytes(record_list(s.records))
}

/// The number that some bytes hold.
pub open spec fn number_at(bytes: Seq<u8>, start: int, len: int) -> nat {
    be_value(bytes.subrange(start, start + len))
}

/// The record that some bytes hold from a place on.
pub open spec fn record_at(bytes: Seq<u8>, start: int) -> SlashingRecord {
    SlashingRecord {
        validator_index: number_at(bytes, start, 8) as u64,
        epoch: number_at(bytes, start + 8, 8) as u64,
        window_generation: number_at(bytes, start + 16, 2) as u16,
        offset: WindowOffset(number_at(bytes, start + 18, 2) as u16),
    }
}

/// The first `n` records that serialized bytes hold.
pub open spec fn records_at(bytes: Seq<u8>, n: nat) -> Seq<SlashingRecord> {
    Seq::new(n, |i: int| record_at(bytes, 28 + 20 * i))
}

/// What serialized bytes are read as.
pub open spec fn parsed(bytes: Seq<u8>) -> Result<StoreState, SlashingStoreError> {
    if bytes.len() < 28 {
        Err(SlashingStoreError::PayloadTruncated)
    } else if bytes.subrange(0, 8) != SLASHING_STORE_MAGIC@ {
        Err(SlashingStoreError::InvalidMagic)
    } else if number_at(bytes, 8, 4) != CURRENT_STORE_VERSION {
        Err(SlashingStoreError::UnsupportedVersion(number_at(bytes, 8, 4) as u32))
    } else if bytes.len() < 28 + 20 * number_at(bytes, 24, 4) {
        Err(SlashingStoreError::PayloadTruncated)
    } else {
        Ok(
            saved_all(
                empty_store(
                    number_at(bytes, 12, 8) as u64,
                    number_at(bytes, 20, 2) as u16,
                    store_window(number_at(bytes, 22, 2) as u16),
                ),
                records_at(bytes, number_at(bytes, 24, 4)),
            ),
        )
    }
}

/// Every record stands under its validator and epoch, and none is later than the current epoch.
pub open spec fn store_ok(s: StoreState) -> bool {
    forall|k: (ValidatorIndex, EpochIndex)| #[trigger]
        s.records.dom().contains(k) ==> s.records[k].validator_index == k.0 && s.records[k].epoch
            == k.1 && k.1 <= s.current_epoch
}

/// The tags and bits are those of the records, taken by validator and epoch.
pub open spec fn in_step(s: StoreState) -> bool {
    let t = entered_all(
        empty_store(s.current_epoch, s.window_generation, s.window_size),
        record_list(s.records),
    );
    s.tags == t.tags && s.bits == t.bits
}

proof fn lemma_saved_is_entered(s: StoreState, rs: Seq<SlashingRecord>)
    requires
        forall|i: int| 0 <= i < rs.len() ==> (#[trigger] rs[i]).epoch <= s.current_epoch,
    ensures
        saved_all(s, rs) == entered_all(s, rs),
        entered_all(s, rs).current_epoch == s.current_epoch,
        entered_all(s, rs).window_generation == s.window_generation,
        entered_all(s, rs).window_size == s.window_size,
    decreases rs.len(),
{
    if rs.len() > 0 {
        let init = rs.drop_last();
        assert forall|i: int| 0 <= i < init.len() implies (#[trigger] init[i]).epoch
            <= s.current_epoch by {
            assert(rs[i].epoch <= s.current_epoch);
        }
        lemma_saved_is_entered(s, init);
        assert(rs[rs.len() - 1].epoch <= s.current_epoch);
    }
}

proof fn lemma_entered_records(
    s: StoreState,
    e: Seq<((ValidatorIndex, EpochIndex), SlashingRecord)>,
)
    requires
        s.records == Map::<(ValidatorIndex, EpochIndex), SlashingRecord>::empty(),
        ascending::<(ValidatorIndex, EpochIndex), SlashingRecord>(e),
        forall|i: int|
            0 <= i < e.len() ==> (#[trigger] e[i]).1.validator_index == e[i].0.0 && e[i].1.epoch
                == e[i].0.1,
    ensures
        entered_all(s, e.map_values(|x: ((u64, u64), SlashingRecord)| x.1)).records == entries_map(
            e,
        ),
    decreases e.len(),
{
    let f = |x: ((u64, u64), SlashingRecord)| x.1;
    let rs = e.map_values(f);
    if e.len() == 0 {
        assert(entries_map(e) =~= s.records);
    } else {
        let init = e.drop_last();
        lemma_map_push::<(ValidatorIndex, EpochIndex), SlashingRecord>(e);
        assert forall|i: int| 0 <= i < init.len() implies (#[trigger] init[i]).1.validator_index
            == init[i].0.0 && init[i].1.epoch == init[i].0.1 by {
            assert(e[i] == init[i]);
        }
        lemma_entered_records(s, init);
        assert(rs.drop_last() =~= init.map_values(f));
        let last = e[e.len() - 1];
        assert(rs.last() == last.1);
        assert(last.0 == (last.1.validator_index, last.1.epoch));
    }
}

/// Entering the records of a well-kept table in their order gives the table back.
proof fn lemma_records_rebuilt(
    e: Seq<((ValidatorIndex, EpochIndex), SlashingRecord)>,
    t: StoreState,
    s: StoreState,
)
    requires
        ascending::<(ValidatorIndex, EpochIndex), SlashingRecord>(e),
        t.records == entries_map(e),
        store_ok(t),
        s.records == Map::<(ValidatorIndex, EpochIndex), SlashingRecord>::empty(),
    ensures
        entered_all(s, record_list(t.records)).records == t.records,
        record_list(t.records).len() == t.records.dom().len(),
        forall|i: int|
            0 <= i < record_list(t.records).len() ==> (#[trigger] record_list(t.records)[i]).epoch
                <= t.current_epoch,
{
    lemma_listing_of::<(ValidatorIndex, EpochIndex), SlashingRecord>(e);
    lemma_map_size::<(ValidatorIndex, EpochIndex), SlashingRecord>(e);
    assert forall|i: int| 0 <= i < e.len() implies (#[trigger] e[i]).1.validator_index == e[i].0.0
        && e[i].1.epoch == e[i].0.1 && e[i].1.epoch <= t.current_epoch by {
        lemma_entry::<(ValidatorIndex, EpochIndex), SlashingRecord>(e, i);
    }
    lemma_entered_records(s, e);
}

/// The entry holds the latest epoch of its validator.
spec fn latest_entry(e: Seq<((ValidatorIndex, EpochIndex), SlashingRecord)>, i: int) -> bool {
    forall|j: int|
        0 <= j < e.len() && (#[trigger] e[j]).0.0 == e[i].0.0 ==> e[j].0.1 <= e[i].0.1
}

/// Entering ascending records tags every validator by its latest epoch.
proof fn lemma_entered_tags(
    s: StoreState,
    e: Seq<((ValidatorIndex, EpochIndex), SlashingRecord)>,
)
    requires
        s.tags == Map::<ValidatorIndex, GenerationalTag>::empty(),
        s.bits == Map::<ValidatorIndex, bool>::empty(),
        ascending::<(ValidatorIndex, EpochIndex), SlashingRecord>(e),
        forall|i: int|
            0 <= i < e.len() ==> (#[trigger] e[i]).1.validator_index == e[i].0.0 && e[i].1.epoch
                == e[i].0.1,
    ensures
        ({
            let t = entered_all(s, e.map_values(|x: ((u64, u64), SlashingRecord)| x.1));
            &&& forall|i: int|
                0 <= i < e.len() ==> t.tags.dom().contains((#[trigger] e[i]).0.0)
            &&& forall|v: ValidatorIndex| #[trigger]
                t.tags.dom().contains(v) ==> exists|i: int|
                    0 <= i < e.len() && (#[trigger] e[i]).0.0 == v && latest_entry(e, i)
            &&& forall|i: int|
                0 <= i < e.len() && #[trigger] latest_entry(e, i) ==> t.tags[e[i].0.0] == tag_of(
                    e[i].1,
                )
            &&& forall|v: ValidatorIndex| #[trigger]
                t.bits.dom().contains(v) <==> t.tags.dom().contains(v)
            &&& forall|v: ValidatorIndex| #[trigger] t.bits.dom().contains(v) ==> t.bits[v]
        }),
    decreases e.len(),
{
    let f = |x: ((u64, u64), SlashingRecord)| x.1;
    let rs = e.map_values(f);
    if e.len() > 0 {
        let n = e.len() - 1;
        let init = e.drop_last();
        let last = e[n];
        assert forall|i: int| 0 <= i < init.len() implies (#[trigger] init[i]).1.validator_index
            == init[i].0.0 && init[i].1.epoch == init[i].0.1 by {
            assert(e[i] == init[i]);
        }
        lemma_map_push::<(ValidatorIndex, EpochIndex), SlashingRecord>(e);
        lemma_entered_tags(s, init);
        assert(rs.drop_last() =~= init.map_values(f));
        assert(rs.last() == last.1);
        let u = entered_all(s, init.map_values(f));
        let t = entered_all(s, rs);
        assert(t == entered(u, last.1));
        assert(latest_entry(e, n));
        assert forall|i: int| 0 <= i < e.len() implies t.tags.dom().contains(
            (#[trigger] e[i]).0.0,
        ) by {
            if i < n {
                assert(u.tags.dom().contains(init[i].0.0));
            }
        }
        assert forall|v: ValidatorIndex| #[trigger] t.tags.dom().contains(v) implies exists|i: int|
            0 <= i < e.len() && (#[trigger] e[i]).0.0 == v && latest_entry(e, i) by {
            if v == last.0.0 {
                assert(e[n].0.0 == v);
            } else {
                assert(u.tags.dom().contains(v));
                let i = choose|i: int|
                    0 <= i < init.len() && (#[trigger] init[i]).0.0 == v && latest_entry(init, i);
                assert(e[i] == init[i]);
                assert forall|j: int|
                    0 <= j < e.len() && (#[trigger] e[j]).0.0 == e[i].0.0 implies e[j].0.1
                    <= e[i].0.1 by {
                    if j < n {
                        assert(init[j] == e[j]);
                    }
                }
                assert(latest_entry(e, i));
            }
        }
        assert forall|i: int| 0 <= i < e.len() && #[trigger] latest_entry(e, i) implies t.tags[e[i].0.0]
            == tag_of(e[i].1) by {
            if i < n {
                assert(e[n].0.0 != e[i].0.0);
                assert(init[i] == e[i]);
                assert forall|j: int|
                    0 <= j < init.len() && (#[trigger] init[j]).0.0 == init[i].0.0 implies init[j].0.1
                    <= init[i].0.1 by {
                    assert(e[j] == init[j]);
                }
                assert(latest_entry(init, i));
            }
        }
        assert forall|v: ValidatorIndex| #[trigger]
            t.bits.dom().contains(v) <==> t.tags.dom().contains(v) by {
            assert(u.bits.dom().contains(v) <==> u.tags.dom().contains(v));
        }
        assert forall|v: ValidatorIndex| #[trigger] t.bits.dom().contains(v) implies t.bits[v] by {
            if v != last.0.0 {
                assert(u.bits.dom().contains(v));
            }
        }
    }
}

/// No record of the validator is of a later epoch.
pub open spec fn not_older(s: StoreState, r: SlashingRecord) -> bool {
    forall|k: (ValidatorIndex, EpochIndex)| #[trigger]
        s.records.dom().contains(k) && k.0 == r.validator_index ==> k.1 <= r.epoch
}

/// Saving a record that is not older than those of its validator keeps the tags and bits in step.
pub proof fn law_saving_in_order_keeps_in_step(s: StoreState, r: SlashingRecord)
    requires
        s.records.dom().finite(),
        store_ok(s),
        in_step(s),
        not_older(s, r),
    ensures
        in_step(saved(s, r)),
{
    let t = saved(s, r);
    let v = r.validator_index;
    let key = (v, r.epoch);
    assert(t.records == s.records.insert(key, r));
    assert(t.records.dom() =~= s.records.dom().insert(key));
    lemma_listing_whole::<(ValidatorIndex, EpochIndex), SlashingRecord>(s.records);
    lemma_listing_whole::<(ValidatorIndex, EpochIndex), SlashingRecord>(t.records);
    let a = listing::<(ValidatorIndex, EpochIndex), SlashingRecord>(s.records);
    let b = listing::<(ValidatorIndex, EpochIndex), SlashingRecord>(t.records);
    assert forall|i: int| 0 <= i < a.len() implies (#[trigger] a[i]).1.validator_index == a[i].0.0
        && a[i].1.epoch == a[i].0.1 && s.records.dom().contains(a[i].0) && s.records[a[i].0]
        == a[i].1 by {
        lemma_entry::<(ValidatorIndex, EpochIndex), SlashingRecord>(a, i);
    }
    assert forall|i: int| 0 <= i < b.len() implies (#[trigger] b[i]).1.validator_index == b[i].0.0
        && b[i].1.epoch == b[i].0.1 && t.records.dom().contains(b[i].0) && t.records[b[i].0]
        == b[i].1 by {
        lemma_entry::<(ValidatorIndex, EpochIndex), SlashingRecord>(b, i);
        if b[i].0 != key {
            assert(s.records.dom().contains(b[i].0));
        }
    }
    let sa = empty_store(s.current_epoch, s.window_generation, s.window_size);
    let sb = empty_store(t.current_epoch, t.window_generation, t.window_size);
    lemma_entered_tags(sa, a);
    lemma_entered_tags(sb, b);
    let ta = entered_all(sa, record_list(s.records));
    let tb = entered_all(sb, record_list(t.records));
    assert(s.tags == ta.tags && s.bits == ta.bits);
    assert(t.records.dom().contains(key));
    assert(has_key(b, key));
    let p = place_of(b, key);
    assert(b[p].0 == key);
    assert(b[p].1 == r);
    assert(latest_entry(b, p)) by {
        assert forall|j: int| 0 <= j < b.len() && (#[trigger] b[j]).0.0 == b[p].0.0 implies b[j].0.1
            <= b[p].0.1 by {
            if b[j].0 != key {
                assert(s.records.dom().contains(b[j].0));
            }
        }
    }
    assert forall|w: ValidatorIndex| #[trigger]
        t.tags.dom().contains(w) <==> tb.tags.dom().contains(w) by {
        if t.tags.dom().contains(w) && w != v {
            assert(ta.tags.dom().contains(w));
            let i = choose|i: int|
                0 <= i < a.len() && (#[trigger] a[i]).0.0 == w && latest_entry(a, i);
            assert(t.records.dom().contains(a[i].0));
            assert(has_key(b, a[i].0));
            let q = place_of(b, a[i].0);
            assert(tb.tags.dom().contains(b[q].0.0));
        }
        if w == v {
            assert(tb.tags.dom().contains(b[p].0.0));
        }
        if tb.tags.dom().contains(w) && w != v {
            let q = choose|q: int|
                0 <= q < b.len() && (#[trigger] b[q]).0.0 == w && latest_entry(b, q);
            assert(s.records.dom().contains(b[q].0));
            assert(has_key(a, b[q].0));
            let i = place_of(a, b[q].0);
            assert(ta.tags.dom().contains(a[i].0.0));
        }
    }
    assert forall|w: ValidatorIndex| #[trigger] t.tags.dom().contains(w) implies t.tags[w]
        == tb.tags[w] by {
        if w == v {
            assert(tb.tags[b[p].0.0] == tag_of(b[p].1));
        } else {
            assert(ta.tags.dom().contains(w));
            let i = choose|i: int|
                0 <= i < a.len() && (#[trigger] a[i]).0.0 == w && latest_entry(a, i);
            assert(t.records.dom().contains(a[i].0));
            assert(has_key(b, a[i].0));
            let q = place_of(b, a[i].0);
            assert(b[q].0 == a[i].0 && b[q].1 == a[i].1);
            assert(latest_entry(b, q)) by {
                assert forall|j: int|
                    0 <= j < b.len() && (#[trigger] b[j]).0.0 == b[q].0.0 implies b[j].0.1
                    <= b[q].0.1 by {
                    assert(s.records.dom().contains(b[j].0));
                    assert(has_key(a, b[j].0));
                    let m = place_of(a, b[j].0);
                    assert(a[m].0 == b[j].0);
                    assert(a[m].0.0 == a[i].0.0);
                }
            }
            assert(ta.tags[a[i].0.0] == tag_of(a[i].1));
            assert(tb.tags[b[q].0.0] == tag_of(b[q].1));
        }
    }
    assert(t.tags =~= tb.tags);
    assert forall|w: ValidatorIndex| #[trigger]
        t.bits.dom().contains(w) <==> tb.bits.dom().contains(w) by {
        assert(ta.bits.dom().contains(w) <==> ta.tags.dom().contains(w));
        assert(tb.bits.dom().contains(w) <==> tb.tags.dom().contains(w));
        assert(t.tags.dom().contains(w) <==> tb.tags.dom().contains(w));
    }
    assert forall|w: ValidatorIndex| #[trigger] t.bits.dom().contains(w) implies t.bits[w]
        == tb.bits[w] by {
        assert(tb.bits.dom().contains(w));
        if w != v {
            assert(ta.bits.dom().contains(w));
        }
    }
    assert(t.bits =~= tb.bits);
}

/// An empty store is in step.
proof fn lemma_empty_in_step(current_epoch: EpochIndex, window_generation: u16, window_size: u16)
    ensures
        in_step(empty_store(current_epoch, window_generation, window_size)),
{
    let m = Map::<(ValidatorIndex, EpochIndex), SlashingRecord>::empty();
    let e = Seq::<((ValidatorIndex, EpochIndex), SlashingRecord)>::empty();
    assert(entries_map(e) =~= m);
    lemma_listing_of::<(ValidatorIndex, EpochIndex), SlashingRecord>(e);
    assert(record_list(m) =~= Seq::<SlashingRecord>::empty());
}

/// The epochs of each validator never decrease along some records.
pub open spec fn epochs_in_order(rs: Seq<SlashingRecord>) -> bool {
    forall|i: int, j: int|
        0 <= i < j < rs.len() && (#[trigger] rs[i]).validator_index == (
        #[trigger] rs[j]).validator_index ==> rs[i].epoch <= rs[j].epoch
}

proof fn lemma_saves_in_order(start: StoreState, rs: Seq<SlashingRecord>)
    requires
        start.records == Map::<(ValidatorIndex, EpochIndex), SlashingRecord>::empty(),
        in_step(start),
        epochs_in_order(rs),
    ensures
        ({
            let s = saved_all(start, rs);
            &&& s.records.dom().finite()
            &&& store_ok(s)
            &&& in_step(s)
            &&& s.window_size == start.window_size
            &&& forall|k: (ValidatorIndex, EpochIndex)| #[trigger]
                s.records.dom().contains(k) ==> exists|i: int|
                    0 <= i < rs.len() && (#[trigger] rs[i]).validator_index == k.0 && rs[i].epoch
                        == k.1
        }),
    decreases rs.len(),
{
    if rs.len() > 0 {
        let n = rs.len() - 1;
        let init = rs.drop_last();
        let r = rs[n];
        assert forall|i: int, j: int|
            0 <= i < j < init.len() && (#[trigger] init[i]).validator_index == (
            #[trigger] init[j]).validator_index implies init[i].epoch <= init[j].epoch by {
            assert(rs[i] == init[i] && rs[j] == init[j]);
        }
        lemma_saves_in_order(start, init);
        let u = saved_all(start, init);
        let s = saved_all(start, rs);
        assert(s == saved(u, r));
        assert(s.records == u.records.insert((r.validator_index, r.epoch), r));
        assert forall|k: (ValidatorIndex, EpochIndex)| #[trigger]
            u.records.dom().contains(k) && k.0 == r.validator_index implies k.1 <= r.epoch by {
            let i = choose|i: int|
                0 <= i < init.len() && (#[trigger] init[i]).validator_index == k.0
                    && init[i].epoch == k.1;
            assert(rs[i] == init[i]);
            assert(rs[i].validator_index == rs[n].validator_index);
        }
        law_saving_in_order_keeps_in_step(u, r);
        assert forall|k: (ValidatorIndex, EpochIndex)| #[trigger]
            s.records.dom().contains(k) implies s.records[k].validator_index == k.0
            && s.records[k].epoch == k.1 && k.1 <= s.current_epoch by {
            if k != (r.validator_index, r.epoch) {
                assert(u.records.dom().contains(k));
            }
        }
        assert forall|k: (ValidatorIndex, EpochIndex)| #[trigger]
            s.records.dom().contains(k) implies exists|i: int|
            0 <= i < rs.len() && (#[trigger] rs[i]).validator_index == k.0 && rs[i].epoch == k.1 by {
            if k == (r.validator_index, r.epoch) {
                assert(rs[n].validator_index == k.0);
            } else {
                assert(u.records.dom().contains(k));
                let i = choose|i: int|
                    0 <= i < init.len() && (#[trigger] init[i]).validator_index == k.0
                        && init[i].epoch == k.1;
                assert(rs[i] == init[i]);
            }
        }
    }
}

/// What is saved in order is read back as it is: a store made with a window, into which records
/// were saved whose epochs never decrease for one and the same validator, comes back whole from
/// its bytes, tags and bits included.
pub proof fn law_saves_in_order_round_trip(window_size: u16, rs: Seq<SlashingRecord>)
    requires
        window_size > 0,
        epochs_in_order(rs),
        saved_all(empty_store(0, 0, window_size), rs).records.dom().len() < 0x1_0000_0000,
    ensures
        ({
            let s = saved_all(empty_store(0, 0, window_size), rs);
            parsed(store_bytes(s)) == Ok::<_, SlashingStoreError>(s)
        }),
{
    let start = empty_store(0, 0, window_size);
    lemma_empty_in_step(0, 0, window_size);
    lemma_saves_in_order(start, rs);
    lemma_bytes_round_trip(saved_all(start, rs));
}

/// The bytes of a store are read back as its records, epoch, generation and window, with the tags
/// and bits of its records by validator and epoch.
proof fn lemma_bytes_round_trip(s: StoreState)
    requires
        s.records.dom().finite(),
        store_ok(s),
        s.records.dom().len() < 0x1_0000_0000,
        s.window_size > 0,
    ensures
        parsed(store_bytes(s)) == Ok::<_, SlashingStoreError>(
            entered_all(
                empty_store(s.current_epoch, s.window_generation, s.window_size),
                record_list(s.records),
            ),
        ),
        parsed(store_bytes(s))->Ok_0.records == s.records,
        parsed(store_bytes(s))->Ok_0.current_epoch == s.current_epoch,
        parsed(store_bytes(s))->Ok_0.window_generation == s.window_generation,
        parsed(store_bytes(s))->Ok_0.window_size == s.window_size,
        in_step(s) ==> parsed(store_bytes(s))->Ok_0 == s,
{
    let rs = record_list(s.records);
    let start = empty_store(s.current_epoch, s.window_generation, s.window_size);
    lemma_listing_whole::<(ValidatorIndex, EpochIndex), SlashingRecord>(s.records);
    lemma_records_rebuilt(
        listing::<(ValidatorIndex, EpochIndex), SlashingRecord>(s.records),
        s,
        start,
    );
    lemma_header(s, rs.len(), records_bytes(rs));
    lemma_parsed_records(s, rs);
    lemma_saved_is_entered(start, rs);
}

proof fn lemma_record_bytes(r: SlashingRecord)
    ensures
        record_bytes(r).len() == 20,
        be_value(record_bytes(r).subrange(0, 8)) == r.validator_index,
        be_value(record_bytes(r).subrange(8, 16)) == r.epoch,
        be_value(record_bytes(r).subrange(16, 18)) == r.window_generation,
        be_value(record_bytes(r).subrange(18, 20)) == r.offset.0,
{
    let b = record_bytes(r);
    lemma_radix_powers();
    lemma_be_value_of_digits(r.validator_index as nat, 8);
    lemma_be_value_of_digits(r.epoch as nat, 8);
    lemma_be_value_of_digits(r.window_generation as nat, 2);
    lemma_be_value_of_digits(r.offset.0 as nat, 2);
    assert(b.subrange(0, 8) =~= be_digits(r.validator_index as nat, 8));
    assert(b.subrange(8, 16) =~= be_digits(r.epoch as nat, 8));
    assert(b.subrange(16, 18) =~= be_digits(r.window_generation as nat, 2));
    assert(b.subrange(18, 20) =~= be_digits(r.offset.0 as nat, 2));
}

proof fn lemma_records_bytes(rs: Seq<SlashingRecord>, i: int)
    requires
        0 <= i < rs.len(),
    ensures
        records_bytes(rs).len() == 20 * rs.len(),
        records_bytes(rs).subrange(20 * i, 20 * i + 20) == record_bytes(rs[i]),
    decreases rs.len(),
{
    let init = rs.drop_last();
    let b = records_bytes(init);
    lemma_record_bytes(rs.last());
    if init.len() > 0 {
        let k = if i < init.len() {
            i
        } else {
            0
        };
        lemma_records_bytes(init, k);
    }
    if i < init.len() {
        assert(records_bytes(rs).subrange(20 * i, 20 * i + 20) =~= b.subrange(20 * i, 20 * i + 20));
    } else {
        assert(records_bytes(rs).subrange(20 * i, 20 * i + 20) =~= record_bytes(rs.last()));
    }
}

proof fn lemma_header(s: StoreState, count: nat, tail: Seq<u8>)
    ensures
        ({
            let b = header_bytes(s, count) + tail;
            &&& header_bytes(s, count).len() == 28
            &&& b.subrange(0, 8) == SLASHING_STORE_MAGIC@
            &&& number_at(b, 8, 4) == CURRENT_STORE_VERSION
            &&& number_at(b, 12, 8) == s.current_epoch
            &&& number_at(b, 20, 2) == s.window_generation
            &&& number_at(b, 22, 2) == s.window_size
            &&& number_at(b, 24, 4) == count % 0x1_0000_0000
        }),
{
    let b = header_bytes(s, count) + tail;
    lemma_radix_powers();
    lemma_be_value_of_digits(CURRENT_STORE_VERSION as nat, 4);
    lemma_be_value_of_digits(s.current_epoch as nat, 8);
    lemma_be_value_of_digits(s.window_generation as nat, 2);
    lemma_be_value_of_digits(s.window_size as nat, 2);
    lemma_be_value_of_digits(count % 0x1_0000_0000, 4);
    assert(b.subrange(0, 8) =~= SLASHING_STORE_MAGIC@);
    assert(b.subrange(8, 12) =~= be_digits(CURRENT_STORE_VERSION as nat, 4));
    assert(b.subrange(12, 20) =~= be_digits(s.current_epoch as nat, 8));
    assert(b.subrange(20, 22) =~= be_digits(s.window_generation as nat, 2));
    assert(b.subrange(22, 24) =~= be_digits(s.window_size as nat, 2));
    assert(b.subrange(24, 28) =~= be_digits(count % 0x1_0000_0000, 4));
}

proof fn lemma_parsed_records(s: StoreState, rs: Seq<SlashingRecord>)
    requires
        rs.len() < 0x1_0000_0000,
    ensures
        ({
            let b = header_bytes(s, rs.len()) + records_bytes(rs);
            &&& b.len() == 28 + 20 * rs.len()
            &&& records_at(b, rs.len()) == rs
        }),
{
    let h = header_bytes(s, rs.len());
    let t = records_bytes(rs);
    let b = h + t;
    lemma_header(s, rs.len(), t);
    if rs.len() > 0 {
        lemma_records_bytes(rs, 0);
    }
    assert forall|i: int| 0 <= i < rs.len() implies records_at(b, rs.len())[i] == rs[i] by {
        lemma_records_bytes(rs, i);
        lemma_record_bytes(rs[i]);
        let p = 28 + 20 * i;
        let q = 20 * i;
        let r = record_bytes(rs[i]);
        assert(b.subrange(p, p + 8) =~= r.subrange(0, 8)) by {
            assert(t.subrange(q, q + 20) == r);
            assert(b.subrange(p, p + 8) =~= t.subrange(q, q + 20).subrange(0, 8));
        }
        assert(b.subrange(p + 8, p + 16) =~= r.subrange(8, 16)) by {
            assert(b.subrange(p + 8, p + 16) =~= t.subrange(q, q + 20).subrange(8, 16));
        }
        assert(b.subrange(p + 16, p + 18) =~= r.subrange(16, 18)) by {
            assert(b.subrange(p + 16, p + 18) =~= t.subrange(q, q + 20).subrange(16, 18));
        }
        assert(b.subrange(p + 18, p + 20) =~= r.subrange(18, 20)) by {
            assert(b.subrange(p + 18, p + 20) =~= t.subrange(q, q + 20).subrange(18, 20));
        }
    }
    assert(records_at(b, rs.len()) =~= rs);
}

impl View for SlashingStore {
    type V = StoreState;

    closed spec fn view(&self) -> StoreState {
        StoreState {
            records: self.records@,
            tags: self.generational_tags@,
            bits: self.bit_states@,
            current_epoch: self.current_epoch,
            window_generation: self.window_generation,
            window_size: self.window_size,
        }
    }
}

impl SlashingStore {
    /// The tables are in order, every record stands under its validator and epoch, and none is
    /// later than the current epoch.
    pub closed spec fn wf(&self) -> bool {
        &&& self.records.wf()
        &&& self.generational_tags.wf()
        &&& self.bit_states.wf()
        &&& store_ok(self@)
    }

    /// What is written is what is read: the bytes of a store are read back as its records, epoch,
    /// generation and window, with the tags and bits of its records by validator and epoch; a
    /// store whose tags and bits are in step is read back as it is.
    pub proof fn law_bytes_round_trip(&self)
        requires
            self.wf(),
            self@.records.dom().len() < 0x1_0000_0000,
            self@.window_size > 0,
        ensures
            parsed(store_bytes(self@)) == Ok::<_, SlashingStoreError>(
                entered_all(
                    empty_store(
                        self@.current_epoch,
                        self@.window_generation,
                        self@.window_size,
                    ),
                    record_list(self@.records),
                ),
            ),
            parsed(store_bytes(self@))->Ok_0.records == self@.records,
            parsed(store_bytes(self@))->Ok_0.current_epoch == self@.current_epoch,
            parsed(store_bytes(self@))->Ok_0.window_generation == self@.window_generation,
            parsed(store_bytes(self@))->Ok_0.window_size == self@.window_size,
            in_step(self@) ==> parsed(store_bytes(self@))->Ok_0 == self@,
    {
        self.records.lemma_ascending();
        lemma_map_size::<(ValidatorIndex, EpochIndex), SlashingRecord>(self.records.entries());
        lemma_bytes_round_trip(self@);
    }

    /// Importing what was exported gives the records, epoch, generation and window back, and all of
    /// the store where its tags and bits are in step.
    pub proof fn law_snapshot_round_trip(&self)
        requires
            self.wf(),
        ensures
            ({
                let t = saved_all(
                    empty_store(
                        self@.current_epoch,
                        self@.window_generation,
                        self@.window_size,
                    ),
                    record_list(self@.records),
                );
                &&& t.records == self@.records
                &&& t.current_epoch == self@.current_epoch
                &&& t.window_generation == self@.window_generation
                &&& t.window_size == self@.window_size
                &&& in_step(self@) ==> t == self@
            }),
    {
        let s = self@;
        let start = empty_store(s.current_epoch, s.window_generation, s.window_size);
        self.records.lemma_ascending();
        lemma_records_rebuilt(self.records.entries(), s, start);
        lemma_saved_is_entered(start, record_list(s.records));
    }

    /// There are finitely many records, tags and bits; every record stands under its validator and
    /// epoch, and none is later than the current epoch.
    pub proof fn law_in_order(&self)
        requires
            self.wf(),
        ensures
            store_ok(self@),
            self@.records.dom().finite(),
            self@.tags.dom().finite(),
            self@.bits.dom().finite(),
    {
        self.records.lemma_finite();
        self.generational_tags.lemma_finite();
        self.bit_states.lemma_finite();
    }

    /// Create a new empty store with default window size.
    pub fn new() -> (r: Self)
        ensures
            r.wf(),
            r@ == empty_store(0, 0, DEFAULT_SLASHING_WINDOW as u16),
            in_step(r@),
    {
        Self::with_window_size(DEFAULT_SLASHING_WINDOW as u16)
    }

    /// Create a new empty store with specified window size.
    pub fn with_window_size(window_size: u16) -> (r: Self)
        ensures
            r.wf(),
            r@ == empty_store(0, 0, store_window(window_size)),
            in_step(r@),
    {
        proof {
            lemma_empty_in_step(0, 0, store_window(window_size));
        }
        let size: u16 = if window_size == 0 {
            DEFAULT_SLASHING_WINDOW as u16
        } else {
            window_size
        };
        SlashingStore {
            records: OrderedMap::new(),
            generational_tags: OrderedMap::new(),
            bit_states: OrderedMap::new(),
            current_epoch: 0,
            window_generation: 0,
            window_size: size,
        }
    }

    /// Takes a record in, the current epoch left as it is.
    fn enter(&mut self, record: SlashingRecord)
        requires
            old(self).wf(),
            record.epoch <= old(self)@.current_epoch,
        ensures
            final(self).wf(),
            final(self)@ == entered(old(self)@, record),
    {
        let ghost before = self@;
        self.generational_tags.insert(
            record.validator_index,
            GenerationalTag { window_generation: record.window_generation, offset: record.offset },
        );
        self.bit_states.insert(record.validator_index, true);
        self.records.insert((record.validator_index, record.epoch), record);
        proof {
            let key = (record.validator_index, record.epoch);
            assert(self@ == entered(before, record));
            assert forall|k: (ValidatorIndex, EpochIndex)| #[trigger]
                self@.records.dom().contains(k) implies self@.records[k].validator_index == k.0
                && self@.records[k].epoch == k.1 && k.1 <= self@.current_epoch by {
                if k != key {
                    assert(before.records.dom().contains(k));
                }
            }
        }
    }

    /// Save full accumulator state into the store.
    pub fn save_accumulator(&mut self, accumulator: &SlashingAccumulator)
        requires
            accumulator.wf(),
        ensures
            final(self).wf(),
            final(self)@ == accumulator_saved(accumulator@),
            final(self)@.records == accumulator@.records,
            final(self)@.current_epoch == accumulator@.current_epoch,
            final(self)@.window_size == accumulator@.window_size,
            in_step(final(self)@),
    {
        proof {
            accumulator.law_in_order();
        }
        self.current_epoch = accumulator.current_epoch();
        self.window_generation = accumulator.current_generation();
        self.window_size = accumulator.window_size() as u16;
        self.records.clear();
        self.generational_tags.clear();
        self.bit_states.clear();
        let all: Vec<SlashingRecord> = accumulator.iter_records();
        let ghost start = self@;
        let ghost rs = all@;
        proof {
            let e = accumulator.lemma_entries();
            lemma_records_rebuilt(e, StoreState { records: accumulator@.records, ..start }, start);
        }
        let mut i: usize = 0;
        assert(rs.take(0) =~= Seq::<SlashingRecord>::empty());
        while i < all.len()
            invariant
                self.wf(),
                rs == all@,
                i <= rs.len(),
                forall|j: int| 0 <= j < rs.len() ==> (#[trigger] rs[j]).epoch <= start.current_epoch,
                self@ == entered_all(start, rs.take(i as int)),
                self@.current_epoch == start.current_epoch,
            decreases rs.len() - i,
        {
            let record: SlashingRecord = all[i];
            proof {
                assert(rs[i as int] == record);
                assert(rs.take(i + 1).drop_last() =~= rs.take(i as int));
                assert(rs.take(i + 1).last() == record);
            }
            self.enter(record);
            i = i + 1;
        }
        proof {
            assert(rs.take(i as int) =~= rs);
            lemma_saved_is_entered(start, rs);
        }
    }

    /// Load accumulator from store state.
    pub fn load_accumulator(&self) -> (r: SlashingAccumulator)
        requires
            self.wf(),
        ensures
            r.wf(),
            r@ == loaded(self@),
    {
        let mut acc: SlashingAccumulator = SlashingAccumulator::with_window_size(
            self.window_size as usize,
        );
        let ghost e = self.records.entries();
        let n: usize = self.records.len();
        let mut i: usize = 0;
        while i < n
            invariant
                self.wf(),
                acc.wf(),
                e == self.records.entries(),
                n == e.len(),
                i <= n,
                acc@.window_size == usable_window(self@.window_size as usize),
                acc@.current_epoch <= self@.current_epoch,
                forall|k: (ValidatorIndex, EpochIndex)| #[trigger]
                    acc@.records.dom().contains(k) <==> exists|j: int|
                        0 <= j < i && (#[trigger] e[j]).0 == k,
            decreases n - i,
        {
            proof {
                self.records.lemma_at(i as int);
                let k = e[i as int].0;
                assert(self@.records.dom().contains(k));
                assert(k == (k.0, k.1));
            }
            let record: SlashingRecord = *self.records.value_at(i);
            let ghost before = acc@.records;
            acc.record_slashing(record.validator_index, record.epoch);
            proof {
                assert forall|k: (ValidatorIndex, EpochIndex)| #[trigger]
                    acc@.records.dom().contains(k) <==> exists|j: int|
                        0 <= j < i + 1 && (#[trigger] e[j]).0 == k by {
                    if before.dom().contains(k) {
                        let j = choose|j: int| 0 <= j < i && (#[trigger] e[j]).0 == k;
                        assert(e[j].0 == k);
                    }
                    if k == (record.validator_index, record.epoch) {
                        assert(e[i as int].0 == k);
                    }
                }
            }
            i = i + 1;
        }
        acc.advance_to_epoch(self.current_epoch);
        proof {
            acc.law_in_order();
            assert forall|k: (ValidatorIndex, EpochIndex)|
                acc@.records.dom().contains(k) <==> self@.records.dom().contains(k) by {
                if self@.records.dom().contains(k) {
                    let j = self.records.lemma_find(k);
                    assert(e[j].0 == k);
                }
                if acc@.records.dom().contains(k) {
                    let j = choose|j: int| 0 <= j < n && (#[trigger] e[j]).0 == k;
                    self.records.lemma_at(j);
                }
            }
            assert(acc@.records =~= loaded(self@).records);
        }
        acc
    }

    /// Save a single slashing record into the store.
    pub fn save_record(&mut self, record: SlashingRecord)
        requires
            old(self).wf(),
        ensures
            final(self).wf(),
            final(self)@ == saved(old(self)@, record),
            in_step(old(self)@) && not_older(old(self)@, record) ==> in_step(final(self)@),
    {
        let ghost before = self@;
        proof {
            self.records.lemma_ascending();
            lemma_map_size::<(ValidatorIndex, EpochIndex), SlashingRecord>(self.records.entries());
            if in_step(self@) && not_older(self@, record) {
                law_saving_in_order_keeps_in_step(self@, record);
            }
        }
        if record.epoch > self.current_epoch {
            self.current_epoch = record.epoch;
            self.window_generation = record.window_generation;
        }
        proof {
            assert forall|k: (ValidatorIndex, EpochIndex)| #[trigger]
                self@.records.dom().contains(k) implies self@.records[k].validator_index == k.0
                && self@.records[k].epoch == k.1 && k.1 <= self@.current_epoch by {
                assert(before.records.dom().contains(k));
            }
        }
        self.enter(record);
    }

    /// Retrieve a slashing record by validator index and epoch.
    pub fn get_record(&self, validator_index: ValidatorIndex, epoch: EpochIndex) -> (r: Option<
        &SlashingRecord,
    >)
        requires
            self.wf(),
        ensures
            r is Some <==> self@.records.dom().contains((validator_index, epoch)),
            r matches Some(x) ==> *x == self@.records[(validator_index, epoch)],
    {
        self.records.get(&(validator_index, epoch))
    }

    /// Retrieve the generational tag for a validator.
    pub fn get_generational_tag(&self, validator_index: ValidatorIndex) -> (r: Option<
        GenerationalTag,
    >)
        requires
            self.wf(),
        ensures
            r == if self@.tags.dom().contains(validator_index) {
                Some(self@.tags[validator_index])
            } else {
                None
            },
    {
        match self.generational_tags.get(&validator_index) {
            Some(tag) => Some(*tag),
            None => None,
        }
    }

    /// Check if a validator has bit state marked.
    pub fn is_slashed_bit(&self, validator_index: ValidatorIndex) -> (r: bool)
        requires
            self.wf(),
        ensures
            r == (self@.bits.dom().contains(validator_index) && self@.bits[validator_index]),
    {
        match self.bit_states.get(&validator_index) {
            Some(bit) => *bit,
            None => false,
        }
    }

    /// Current epoch recorded in store.
    pub fn current_epoch(&self) -> (r: EpochIndex)
        ensures
            r == self@.current_epoch,
    {
        self.current_epoch
    }

    /// Current window generation recorded in store.
    pub fn window_generation(&self) -> (r: u16)
        ensures
            r == self@.window_generation,
    {
        self.window_generation
    }

    /// Number of records in store.
    pub fn len(&self) -> (r: usize)
        requires
            self.wf(),
        ensures
            r == self@.records.dom().len(),
    {
        self.records.len()
    }

    /// Whether the store is empty.
    pub fn is_empty(&self) -> (r: bool)
        requires
            self.wf(),
        ensures
            r == (self@.records == Map::<
                (ValidatorIndex, EpochIndex),
                SlashingRecord,
            >::empty()),
    {
        self.records.is_empty()
    }

    /// Clear all records and state; the window size stays.
    pub fn clear(&mut self)
        ensures
            final(self).wf(),
            final(self)@ == empty_store(0, 0, old(self)@.window_size),
            in_step(final(self)@),
    {
        proof {
            lemma_empty_in_step(0, 0, self@.window_size);
        }
        self.records.clear();
        self.generational_tags.clear();
        self.bit_states.clear();
        self.current_epoch = 0;
        self.window_generation = 0;
    }

    /// Export snapshot of store state.
    pub fn export_snapshot(&self) -> (r: SlashingStoreSnapshot)
        requires
            self.wf(),
        ensures
            r.version == CURRENT_STORE_VERSION,
            r.current_epoch == self@.current_epoch,
            r.window_generation == self@.window_generation,
            r.window_size == self@.window_size,
            r.records@ == record_list(self@.records),
    {
        let ghost e = self.records.entries();
        let n: usize = self.records.len();
        let mut all: Vec<SlashingRecord> = Vec::new();
        let mut i: usize = 0;
        while i < n
            invariant
                self.wf(),
                e == self.records.entries(),
                n == e.len(),
                i <= n,
                all@.len() == i,
                forall|j: int| 0 <= j < i ==> #[trigger] all@[j] == e[j].1,
            decreases n - i,
        {
            all.push(*self.records.value_at(i));
            i = i + 1;
        }
        proof {
            self.records.lemma_listing();
            assert(all@ =~= record_list(self@.records));
        }
        SlashingStoreSnapshot {
            version: CURRENT_STORE_VERSION,
            current_epoch: self.current_epoch,
            window_generation: self.window_generation,
            window_size: self.window_size,
            records: all,
        }
    }

    /// Import snapshot into store.
    pub fn import_snapshot(&mut self, snapshot: SlashingStoreSnapshot)
        ensures
            final(self).wf(),
            final(self)@ == saved_all(
                empty_store(
                    snapshot.current_epoch,
                    snapshot.window_generation,
                    snapshot.window_size,
                ),
                snapshot.records@,
            ),
    {
        self.clear();
        self.current_epoch = snapshot.current_epoch;
        self.window_generation = snapshot.window_generation;
        self.window_size = snapshot.window_size;
        let ghost start = self@;
        let ghost rs = snapshot.records@;
        let mut i: usize = 0;
        assert(rs.take(0) =~= Seq::<SlashingRecord>::empty());
        while i < snapshot.records.len()
            invariant
                self.wf(),
                rs == snapshot.records@,
                i <= rs.len(),
                self@ == saved_all(start, rs.take(i as int)),
            decreases rs.len() - i,
        {
            proof {
                assert(rs.take(i + 1).drop_last() =~= rs.take(i as int));
                assert(rs.take(i + 1).last() == rs[i as int]);
            }
            self.save_record(snapshot.records[i]);
            i = i + 1;
        }
        assert(rs.take(i as int) =~= rs);
    }

    /// Serialize store state into deterministic binary bytes.
    pub fn to_bytes(&self) -> (r: Vec<u8>)
        requires
            self.wf(),
        ensures
            r@ == store_bytes(self@),
    {
        let magic: [u8; 8] = SLASHING_STORE_MAGIC;
        let n: usize = self.records.len();
        let mut bytes: Vec<u8> = to_vec(magic.as_slice());
        append(&mut bytes, u32_to_be(CURRENT_STORE_VERSION).as_slice());
        append(&mut bytes, u64_to_be(self.current_epoch).as_slice());
        append(&mut bytes, u16_to_be(self.window_generation).as_slice());
        append(&mut bytes, u16_to_be(self.window_size).as_slice());
        append(&mut bytes, u32_to_be((n as u64 % 0x1_0000_0000) as u32).as_slice());
        let ghost e = self.records.entries();
        let ghost rs = record_list(self@.records);
        proof {
            self.records.lemma_listing();
            assert(rs =~= e.map_values(|x: ((u64, u64), SlashingRecord)| x.1));
        }
        let ghost head = bytes@;
        let mut i: usize = 0;
        proof {
            assert(rs.take(0) =~= Seq::<SlashingRecord>::empty());
            assert(bytes@ =~= head + records_bytes(rs.take(0)));
        }
        while i < n
            invariant
                self.wf(),
                e == self.records.entries(),
                rs == e.map_values(|x: ((u64, u64), SlashingRecord)| x.1),
                n == e.len(),
                i <= n,
                bytes@ == head + records_bytes(rs.take(i as int)),
            decreases n - i,
        {
            let record: SlashingRecord = *self.records.value_at(i);
            let ghost before = bytes@;
            append(&mut bytes, u64_to_be(record.validator_index).as_slice());
            append(&mut bytes, u64_to_be(record.epoch).as_slice());
            append(&mut bytes, u16_to_be(record.window_generation).as_slice());
            append(&mut bytes, u16_to_be(record.offset.0).as_slice());
            proof {
                assert(rs.take(i + 1).drop_last() =~= rs.take(i as int));
                assert(rs.take(i + 1).last() == record);
                assert(bytes@ =~= before + record_bytes(record));
                assert(bytes@ =~= head + records_bytes(rs.take(i + 1)));
            }
            i = i + 1;
        }
        assert(rs.take(n as int) =~= rs);
        bytes
    }

    /// Deserialize store from binary bytes. Bytes behind the records are ignored.
    pub fn from_bytes(bytes: &[u8]) -> (r: Result<Self, SlashingStoreError>)
        ensures
            r matches Ok(store) ==> store.wf() && parsed(bytes@) == Ok::<_, SlashingStoreError>(
                store@,
            ),
            r matches Err(e) ==> parsed(bytes@) == Err::<StoreState, _>(e),
    {
        if bytes.len() < HEADER_LEN {
            return Err(SlashingStoreError::PayloadTruncated);
        }
        let magic: [u8; 8] = SLASHING_STORE_MAGIC;
        if !slices_equal(vstd::slice::slice_subrange(bytes, 0, 8), magic.as_slice()) {
            return Err(SlashingStoreError::InvalidMagic);
        }
        proof {
            lemma_radix_powers();
        }
        let version: u32 = read_be(bytes, 8, 4) as u32;
        if version != CURRENT_STORE_VERSION {
            return Err(SlashingStoreError::UnsupportedVersion(version));
        }
        let current_epoch: u64 = read_be(bytes, 12, 8);
        let window_generation: u16 = read_be(bytes, 20, 2) as u16;
        let window_size: u16 = read_be(bytes, 22, 2) as u16;
        let record_count: u64 = read_be(bytes, 24, 4);
        if (bytes.len() as u64) < HEADER_LEN as u64 + record_count * RECORD_LEN as u64 {
            return Err(SlashingStoreError::PayloadTruncated);
        }
        let mut store: SlashingStore = SlashingStore::with_window_size(window_size);
        store.current_epoch = current_epoch;
        store.window_generation = window_generation;
        let ghost start = store@;
        let ghost rs = records_at(bytes@, record_count as nat);
        let mut offset: usize = HEADER_LEN;
        let mut i: u64 = 0;
        assert(rs.take(0) =~= Seq::<SlashingRecord>::empty());
        while i < record_count
            invariant
                store.wf(),
                rs == records_at(bytes@, record_count as nat),
                i <= record_count,
                offset == 28 + 20 * i,
                28 + 20 * record_count <= bytes.len(),
                store@ == saved_all(start, rs.take(i as int)),
            decreases record_count - i,
        {
            proof {
                lemma_radix_powers();
            }
            let record: SlashingRecord = SlashingRecord {
                validator_index: read_be(bytes, offset, 8),
                epoch: read_be(bytes, offset + 8, 8),
                window_generation: read_be(bytes, offset + 16, 2) as u16,
                offset: WindowOffset(read_be(bytes, offset + 18, 2) as u16),
            };
            proof {
                assert(rs[i as int] == record);
                assert(rs.take(i + 1).drop_last() =~= rs.take(i as int));
                assert(rs.take(i + 1).last() == record);
            }
            store.save_record(record);
            offset = offset + RECORD_LEN;
            i = i + 1;
        }
        assert(rs.take(i as int) =~= rs);
        Ok(store)
    }
}

impl Default for SlashingStore {
    fn default() -> (r: Self)
        ensures
            r.wf(),
            r@ == empty_store(0, 0, DEFAULT_SLASHING_WINDOW as u16),
            in_step(r@),
    {
        Self::new()
    }
}

/// Loading what was saved of an accumulator gives it back.
pub proof fn law_accumulator_round_trip(acc: &SlashingAccumulator)
    requires
        acc.wf(),
    ensures
        loaded(accumulator_saved(acc@)) == acc@,
{
    let a = acc@;
    acc.law_in_order();
    let e = acc.lemma_entries();
    let start = empty_store(
        a.current_epoch,
        generation_of(a.current_epoch, a.window_size as int),
        a.window_size as u16,
    );
    let s = StoreState { records: a.records, ..start };
    lemma_records_rebuilt(e, s, start);
    lemma_saved_is_entered(start, record_list(a.records));
    assert(loaded(accumulator_saved(a)).records =~= a.records);
}

/// A record that is saved stands under its validator and epoch as it is; the validator carries its
/// tag and counts as slashed. A later epoch than the current one becomes the current one and
/// brings its generation; no other record and no other validator is touched.
pub proof fn law_record_is_saved_as_it_is(
    s: StoreState,
    r: SlashingRecord,
    other: (ValidatorIndex, EpochIndex),
    validator: ValidatorIndex,
)
    requires
        other != (r.validator_index, r.epoch),
        validator != r.validator_index,
    ensures
        ({
            let t = saved(s, r);
            let k = (r.validator_index, r.epoch);
            &&& t.records.dom().contains(k)
            &&& t.records[k] == r
            &&& t.tags.dom().contains(r.validator_index)
            &&& t.tags[r.validator_index].window_generation == r.window_generation
            &&& t.tags[r.validator_index].offset == r.offset
            &&& t.bits.dom().contains(r.validator_index)
            &&& t.bits[r.validator_index]
            &&& r.epoch > s.current_epoch ==> t.current_epoch == r.epoch && t.window_generation
                == r.window_generation
            &&& r.epoch <= s.current_epoch ==> t.current_epoch == s.current_epoch
                && t.window_generation == s.window_generation
            &&& t.window_size == s.window_size
            &&& t.records.dom().contains(other) == s.records.dom().contains(other)
            &&& t.records[other] == s.records[other]
            &&& t.tags.dom().contains(validator) == s.tags.dom().contains(validator)
            &&& t.tags[validator] == s.tags[validator]
            &&& t.bits.dom().contains(validator) == s.bits.dom().contains(validator)
            &&& t.bits[validator] == s.bits[validator]
        }),
{
}

/// A store without a window size takes 8,192 epochs, any other the size given, and an empty store
/// has slashed nobody.
pub proof fn law_empty_store(window_size: u16, validator: ValidatorIndex, epoch: EpochIndex)
    ensures
        store_window(0) == 8_192,
        window_size > 0 ==> store_window(window_size) == window_size,
        !empty_store(epoch, 0, window_size).records.dom().contains((validator, epoch)),
        !empty_store(epoch, 0, window_size).tags.dom().contains(validator),
        !empty_store(epoch, 0, window_size).bits.dom().contains(validator),
        empty_store(epoch, 0, window_size).current_epoch == epoch,
        empty_store(epoch, 0, window_size).window_size == window_size,
{
}

/// Loading keeps the current epoch and the slashings of a store, and tags each anew by its epoch,
/// so that its offset is the distance from the start of its window.
pub proof fn law_loading_keeps_the_slashings(
    s: StoreState,
    k: (ValidatorIndex, EpochIndex),
)
    requires
        s.window_size > 0,
    ensures
        ({
            let a = loaded(s);
            let w = s.window_size as int;
            &&& a.current_epoch == s.current_epoch
            &&& a.window_size == s.window_size
            &&& a.records.dom().contains(k) <==> s.records.dom().contains(k)
            &&& a.records.dom().contains(k) ==> {
                &&& a.records[k].validator_index == k.0
                &&& a.records[k].epoch == k.1
                &&& a.records[k].offset.0 == k.1 as int % w
                &&& a.records[k].window_generation == (k.1 as int / w) % 65_536
            }
        }),
{
    let w = s.window_size as int;
    vstd::arithmetic::div_mod::lemma_mod_bound(k.1 as int, w);
    vstd::arithmetic::div_mod::lemma_mod_bound(k.1 as int / w, 65_536);
}

/// The bytes of a store begin with the letters VNSLASH1 and version 1; then come the current epoch,
/// its generation, the window size and the number of records, and then the records, twenty bytes
/// each, all numbers most significant byte first.
pub proof fn law_store_layout(s: StoreState, i: int)
    requires
        record_list(s.records).len() < 0x1_0000_0000,
        0 <= i < record_list(s.records).len(),
    ensures
        ({
            let b = store_bytes(s);
            let rs = record_list(s.records);
            let p = 28 + 20 * i;
            &&& b.len() == 28 + 20 * rs.len()
            &&& b.subrange(0, 8) == seq![
                0x56u8,
                0x4eu8,
                0x53u8,
                0x4cu8,
                0x41u8,
                0x53u8,
                0x48u8,
                0x31u8,
            ]
            &&& be_value(b.subrange(8, 12)) == 1
            &&& be_value(b.subrange(12, 20)) == s.current_epoch
            &&& be_value(b.subrange(20, 22)) == s.window_generation
            &&& be_value(b.subrange(22, 24)) == s.window_size
            &&& be_value(b.subrange(24, 28)) == rs.len()
            &&& be_value(b.subrange(p, p + 8)) == rs[i].validator_index
            &&& be_value(b.subrange(p + 8, p + 16)) == rs[i].epoch
            &&& be_value(b.subrange(p + 16, p + 18)) == rs[i].window_generation
            &&& be_value(b.subrange(p + 18, p + 20)) == rs[i].offset.0
        }),
{
    let rs = record_list(s.records);
    let t = records_bytes(rs);
    let b = store_bytes(s);
    let p = 28 + 20 * i;
    lemma_header(s, rs.len(), t);
    lemma_records_bytes(rs, i);
    lemma_record_bytes(rs[i]);
    let r = record_bytes(rs[i]);
    assert(b.subrange(p, p + 20) =~= t.subrange(20 * i, 20 * i + 20));
    assert(b.subrange(p, p + 8) =~= r.subrange(0, 8));
    assert(b.subrange(p + 8, p + 16) =~= r.subrange(8, 16));
    assert(b.subrange(p + 16, p + 18) =~= r.subrange(16, 18));
    assert(b.subrange(p + 18, p + 20) =~= r.subrange(18, 20));
    assert(SLASHING_STORE_MAGIC@ =~= seq![
        0x56u8,
        0x4eu8,
        0x53u8,
        0x4cu8,
        0x41u8,
        0x53u8,
        0x48u8,
        0x31u8,
    ]);
}

/// Bytes are refused that are shorter than the head, do not begin with the letters, have another
/// version, or end before the number of records they announce; nothing else is.
pub proof fn law_what_bytes_are_refused(bytes: Seq<u8>)
    ensures
        ({
            let p = parsed(bytes);
            let a = bytes.len() >= 28;
            let b = a && bytes.subrange(0, 8) == seq![
                0x56u8,
                0x4eu8,
                0x53u8,
                0x4cu8,
                0x41u8,
                0x53u8,
                0x48u8,
                0x31u8,
            ];
            let c = b && be_value(bytes.subrange(8, 12)) == 1;
            let d = c && bytes.len() >= 28 + 20 * be_value(bytes.subrange(24, 28));
            &&& p == Err::<StoreState, _>(SlashingStoreError::PayloadTruncated) <==> !a || (c && !d)
            &&& p == Err::<StoreState, _>(SlashingStoreError::InvalidMagic) <==> a && !b
            &&& (p is Err && p->Err_0 is UnsupportedVersion) <==> b && !c
            &&& p is Ok <==> d
        }),
{
    assert(SLASHING_STORE_MAGIC@ =~= seq![
        0x56u8,
        0x4eu8,
        0x53u8,
        0x4cu8,
        0x41u8,
        0x53u8,
        0x48u8,
        0x31u8,
    ]);
}

} // verus!
