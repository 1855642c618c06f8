//! Slashing records with window generation tags.
//!
//! Epochs are grouped into windows; a record is tagged with the generation of its window, which
//! rolls over, and its offset within the window.

use vstd::prelude::*;

verus! {

/// Index of a validator.
pub type ValidatorIndex = u64;

/// Index of an epoch.
pub type EpochIndex = u64;

/// Default number of epochs in a slashing window.
pub const DEFAULT_SLASHING_WINDOW: usize = 8_192;

/// Offset of an epoch within its window.
#[derive(Clone, Copy, Debug, PartialEq, Eq)]
pub struct WindowOffset(pub u16);

/// The window generation and the offset of an epoch.
#[derive(Clone, Copy, Debug, PartialEq, Eq)]
pub struct GenerationalTag {
    pub window_generation: u16,
    pub offset: WindowOffset,
}

/// A slashing of a validator.
#[derive(Clone, Copy, Debug, PartialEq, Eq)]
pub struct SlashingRecord {
    pub validator_index: ValidatorIndex,
    pub epoch: EpochIndex,
    pub window_generation: u16,
    pub offset: WindowOffset,
}

/// The generation of an epoch's window, rolling over.
pub open spec fn generation_of(epoch: EpochIndex, window: int) -> u16 {
    ((epoch as int / window) % 0x1_0000) as u16
}

/// The record of a slashing, tagged by its epoch.
pub open spec fn tagged_record(validator_index: ValidatorIndex, epoch: EpochIndex, window: int) -> SlashingRecord {
    SlashingRecord {
        validator_index,
        epoch,
        window_generation: generation_of(epoch, window),
        offset: WindowOffset((epoch as int % window) as u16),
    }
}

/// The tag of a record.
pub open spec fn tag_of(r: SlashingRecord) -> GenerationalTag {
    GenerationalTag { window_generation: r.window_generation, offset: r.offset }
}

/// A window has 8,192 epochs where nothing else is configured. The generation counts the windows
/// before an epoch and rolls over after 65,536 of them; the tag of a record is its generation and
/// its offset.
pub proof fn law_generation_counts_windows(epoch: EpochIndex, window: int, r: SlashingRecord)
    requires
        0 < window,
        epoch + window <= u64::MAX,
    ensures
        DEFAULT_SLASHING_WINDOW == 8_192,
        epoch < window ==> generation_of(epoch, window) == 0,
        generation_of((epoch + window) as u64, window) == (generation_of(epoch, window) + 1)
            % 65_536,
        tag_of(r).window_generation == r.window_generation,
        tag_of(r).offset == r.offset,
{
    let e = epoch as int;
    let q = e / window;
    vstd::arithmetic::div_mod::lemma_fundamental_div_mod(e, window);
    vstd::arithmetic::div_mod::lemma_mod_bound(e, window);
    assert(e + window == (q + 1) * window + e % window) by (nonlinear_arith)
        requires
            e == window * q + e % window,
    ;
    vstd::arithmetic::div_mod::lemma_fundamental_div_mod_converse(
        e + window,
        window,
        q + 1,
        e % window,
    );
    assert(q >= 0) by (nonlinear_arith)
        requires
            e >= 0,
            window > 0,
            q == e / window,
    ;
    if e < window {
        vstd::arithmetic::div_mod::lemma_basic_div(e, window);
    }
}

} // verus!
