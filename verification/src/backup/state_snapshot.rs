//! Scheduled state snapshot, backup verification, and restore testing.
//!
//! Snapshots are scoped by epoch; a newly-created snapshot computes an integrity hash from the
//! supplied state chunks so that restore verification can re-derive the hash and detect
//! discrepancies.

use vstd::prelude::*;

use crate::byte_order::{append, arrays_equal, to_vec};
use crate::crypto::merkle::Hash256;
use crate::crypto::sha256::{sha256, sha256_digest};
use crate::ordered_map::{lemma_mapped_insert, lemma_mapped_remove, mapped, OrderedMap};

verus! {

/// How often (in seconds) a scheduled snapshot should be taken.
pub const SNAPSHOT_INTERVAL_SECONDS: u64 = 21_600;

/// Maximum number of snapshots to retain in the cache.
pub const MAX_SNAPSHOT_COUNT: usize = 256;

/// Maximum number of state chunks a single snapshot may reference.
pub const MAX_CHUNKS_PER_SNAPSHOT: usize = 128;

/// Describes whether a backup snapshot is healthy.
#[derive(Clone, Copy, Debug, PartialEq, Eq)]
pub enum SnapshotHealth {
    /// The snapshot hashes match: state passed integrity verification.
    Healthy,
    /// The snapshot hashes do not match: possible corruption.
    Corrupted,
    /// The snapshot was never created (epoch not found).
    Missing,
}

/// A single state-chunk record paired with its integrity hash.
#[derive(Debug, PartialEq, Eq)]
pub struct StateChunk {
    /// Opaque chunk identifier assigned by the caller (e.g., a storage-slot ordinal).
    pub chunk_id: u64,
    /// Raw data whose integrity must be verified.
    pub data: Vec<u8>,
    /// SHA-256 digest of `data`, computed at snapshot time.
    pub hash: Hash256,
}

/// What a chunk says.
pub struct ChunkModel {
    pub chunk_id: u64,
    pub data: Seq<u8>,
    pub hash: Seq<u8>,
}

impl View for StateChunk {
    type V = ChunkModel;

    open spec fn view(&self) -> ChunkModel {
        ChunkModel { chunk_id: self.chunk_id, data: self.data@, hash: self.hash@ }
    }
}

/// The chunk's hash is that of its data.
pub open spec fn chunk_intact(c: ChunkModel) -> bool {
    sha256_digest(c.data) == c.hash
}

/// The chunk of some data.
pub open spec fn chunk_of(chunk_id: u64, data: Seq<u8>) -> ChunkModel {
    ChunkModel { chunk_id, data, hash: sha256_digest(data) }
}

impl Clone for StateChunk {
    fn clone(&self) -> (r: Self)
        ensures
            r@ == self@,
    {
        StateChunk {
            chunk_id: self.chunk_id,
            data: to_vec(self.data.as_slice()),
            hash: self.hash,
        }
    }
}

impl StateChunk {
    /// Create a new state chunk, computing its hash from `data`.
    pub fn new(chunk_id: u64, data: &[u8]) -> (r: Self)
        ensures
            r@ == chunk_of(chunk_id, data@),
    {
        StateChunk { chunk_id, data: to_vec(data), hash: sha256(data) }
    }

    /// Verify this chunk's integrity: re-hash `data` and compare.
    pub fn verify(&self) -> (r: bool)
        ensures
            r == chunk_intact(self@),
    {
        arrays_equal(&sha256(self.data.as_slice()), &self.hash)
    }
}

/// What some chunks say.
pub open spec fn chunks_model(chunks: Seq<StateChunk>) -> Seq<ChunkModel> {
    chunks.map_values(|c: StateChunk| c@)
}

/// A complete state snapshot taken at a specific epoch.
#[derive(Debug, PartialEq, Eq)]
pub struct StateSnapshot {
    /// Epoch at which the snapshot was taken.
    pub epoch: u64,
    /// Wall-clock timestamp when the snapshot was created.
    pub created_at: u64,
    /// Root hash over all chunk hashes for quick comparison.
    pub root_hash: Hash256,
    /// Individual state chunks covered by this snapshot.
    pub chunks: Vec<StateChunk>,
}

/// What a snapshot says.
pub struct SnapshotModel {
    pub epoch: u64,
    pub created_at: u64,
    pub root_hash: Seq<u8>,
    pub chunks: Seq<ChunkModel>,
}

impl View for StateSnapshot {
    type V = SnapshotModel;

    open spec fn view(&self) -> SnapshotModel {
        SnapshotModel {
            epoch: self.epoch,
            created_at: self.created_at,
            root_hash: self.root_hash@,
            chunks: chunks_model(self.chunks@),
        }
    }
}

/// The hashes of some chunks, one behind the other.
pub open spec fn joined_hashes(chunks: Seq<ChunkModel>) -> Seq<u8>
    decreases chunks.len(),
{
    if chunks.len() == 0 {
        Seq::empty()
    } else {
        joined_hashes(chunks.drop_last()) + chunks.last().hash
    }
}

/// The root hash of some chunks: the hash of their hashes, one behind the other.
pub open spec fn root_of(chunks: Seq<ChunkModel>) -> Seq<u8> {
    sha256_digest(joined_hashes(chunks))
}

/// The chunks of some raw data.
pub open spec fn chunks_of(raw: Seq<(u64, &[u8])>) -> Seq<ChunkModel> {
    Seq::new(raw.len(), |i: int| chunk_of(raw[i].0, raw[i].1@))
}

/// The snapshot of some raw data.
pub open spec fn snapshot_of(epoch: u64, created_at: u64, raw: Seq<(u64, &[u8])>) -> SnapshotModel {
    SnapshotModel {
        epoch,
        created_at,
        root_hash: root_of(chunks_of(raw)),
        chunks: chunks_of(raw),
    }
}

/// Every chunk is intact, and so is the root.
pub open spec fn snapshot_intact(s: SnapshotModel) -> bool {
    &&& forall|i: int| 0 <= i < s.chunks.len() ==> chunk_intact(#[trigger] s.chunks[i])
    &&& root_of(s.chunks) == s.root_hash
}

/// A snapshot is intact when it has just been created.
pub proof fn law_fresh_snapshot_is_intact(epoch: u64, created_at: u64, raw: Seq<(u64, &[u8])>)
    ensures
        snapshot_intact(snapshot_of(epoch, created_at, raw)),
{
}

/// Data whose hash differs from the recorded one is detected, wherever in the snapshot it stands.
pub proof fn law_tampering_is_detected(s: SnapshotModel, i: int, data: Seq<u8>)
    requires
        0 <= i < s.chunks.len(),
        sha256_digest(data) != s.chunks[i].hash,
    ensures
        !snapshot_intact(
            SnapshotModel {
                chunks: s.chunks.update(i, ChunkModel { data, ..s.chunks[i] }),
                ..s
            },
        ),
{
    let t = s.chunks.update(i, ChunkModel { data, ..s.chunks[i] });
    assert(!chunk_intact(t[i]));
}

/// The first chunk of an identifier among some chunks.
pub open spec fn is_first_chunk(chunks: Seq<ChunkModel>, i: int, chunk_id: u64) -> bool {
    &&& 0 <= i < chunks.len()
    &&& chunks[i].chunk_id == chunk_id
    &&& forall|j: int| 0 <= j < i ==> (#[trigger] chunks[j]).chunk_id != chunk_id
}

impl Clone for StateSnapshot {
    fn clone(&self) -> (r: Self)
        ensures
            r@ == self@,
    {
        let mut chunks: Vec<StateChunk> = Vec::new();
        let mut i: usize = 0;
        while i < self.chunks.len()
            invariant
                i <= self.chunks@.len(),
                chunks@.len() == i,
                forall|j: int| 0 <= j < i ==> (#[trigger] chunks@[j])@ == self.chunks@[j]@,
            decreases self.chunks@.len() - i,
        {
            chunks.push(self.chunks[i].clone());
            i = i + 1;
        }
        assert(chunks_model(chunks@) =~= chunks_model(self.chunks@));
        StateSnapshot {
            epoch: self.epoch,
            created_at: self.created_at,
            root_hash: self.root_hash,
            chunks,
        }
    }
}

impl StateSnapshot {
    /// Build a snapshot from an epoch, timestamp, and a list of `(chunk_id, data)` pairs.
    pub fn create(epoch: u64, created_at: u64, raw_chunks: &[(u64, &[u8])]) -> (r: Self)
        ensures
            r@ == snapshot_of(epoch, created_at, raw_chunks@),
    {
        let mut chunks: Vec<StateChunk> = Vec::new();
        let mut i: usize = 0;
        while i < raw_chunks.len()
            invariant
                i <= raw_chunks@.len(),
                chunks@.len() == i,
                forall|j: int|
                    0 <= j < i ==> (#[trigger] chunks@[j])@ == chunks_of(raw_chunks@)[j],
            decreases raw_chunks@.len() - i,
        {
            let (id, data) = raw_chunks[i];
            chunks.push(StateChunk::new(id, data));
            i = i + 1;
        }
        assert(chunks_model(chunks@) =~= chunks_of(raw_chunks@));
        let root_hash: Hash256 = compute_root_hash(chunks.as_slice());
        StateSnapshot { epoch, created_at, root_hash, chunks }
    }

    /// Verify every chunk in the snapshot, then confirm the root hash.
    pub fn verify_integrity(&self) -> (r: SnapshotHealth)
        ensures
            r == if snapshot_intact(self@) {
                SnapshotHealth::Healthy
            } else {
                SnapshotHealth::Corrupted
            },
    {
        let mut i: usize = 0;
        while i < self.chunks.len()
            invariant
                i <= self.chunks@.len(),
                forall|j: int| 0 <= j < i ==> chunk_intact(#[trigger] self@.chunks[j]),
            decreases self.chunks@.len() - i,
        {
            assert(self@.chunks[i as int] == self.chunks@[i as int]@);
            if !self.chunks[i].verify() {
                assert(!chunk_intact(self@.chunks[i as int]));
                return SnapshotHealth::Corrupted;
            }
            i = i + 1;
        }
        if arrays_equal(&compute_root_hash(self.chunks.as_slice()), &self.root_hash) {
            SnapshotHealth::Healthy
        } else {
            SnapshotHealth::Corrupted
        }
    }

    /// Number of chunks in this snapshot.
    pub fn chunk_count(&self) -> (r: usize)
        ensures
            r == self@.chunks.len(),
    {
        self.chunks.len()
    }

    /// Retrieve a specific chunk by id: the first one that has it.
    pub fn get_chunk(&self, chunk_id: u64) -> (r: Option<&StateChunk>)
        ensures
            r matches Some(c) ==> exists|i: int| #[trigger]
                is_first_chunk(self@.chunks, i, chunk_id) && c@ == self@.chunks[i],
            r is None ==> forall|i: int|
                0 <= i < self@.chunks.len() ==> (#[trigger] self@.chunks[i]).chunk_id != chunk_id,
    {
        let mut i: usize = 0;
        while i < self.chunks.len()
            invariant
                i <= self.chunks@.len(),
                forall|j: int| 0 <= j < i ==> (#[trigger] self@.chunks[j]).chunk_id != chunk_id,
            decreases self.chunks@.len() - i,
        {
            assert(self@.chunks[i as int] == self.chunks@[i as int]@);
            if self.chunks[i].chunk_id == chunk_id {
                assert(is_first_chunk(self@.chunks, i as int, chunk_id));
                return Some(&self.chunks[i]);
            }
            i = i + 1;
        }
        None
    }
}

/// The backup scheduler tracks when the next snapshot is due and manages the cache of stored
/// snapshots.
#[derive(Clone, Debug)]
pub struct BackupScheduler {
    /// Last time (wall-clock seconds) a snapshot was taken.
    pub last_snapshot_time: u64,
    /// Interval between scheduled snapshots.
    pub interval_seconds: u64,
    snapshots: OrderedMap<u64, StateSnapshot>,
}

/// What a scheduler holds.
pub struct SchedulerState {
    pub last_snapshot_time: u64,
    pub interval_seconds: u64,
    pub snapshots: Map<u64, SnapshotModel>,
}

/// What a snapshot is known to say.
pub open spec fn snapshot_model() -> spec_fn(StateSnapshot) -> SnapshotModel {
    |s: StateSnapshot| s@
}

/// The earliest epoch of some snapshots.
pub open spec fn is_earliest(m: Map<u64, SnapshotModel>, e: u64) -> bool {
    m.dom().contains(e) && forall|o: u64| #[trigger] m.dom().contains(o) ==> e <= o
}

/// The snapshots without the one of the earliest epoch, where there are too many.
pub open spec fn evicted(m: Map<u64, SnapshotModel>) -> Map<u64, SnapshotModel> {
    if m.dom().len() > MAX_SNAPSHOT_COUNT {
        m.remove(choose|e: u64| is_earliest(m, e))
    } else {
        m
    }
}

/// The scheduler after a snapshot.
pub open spec fn snapshot_taken(
    s: SchedulerState,
    epoch: u64,
    now: u64,
    raw: Seq<(u64, &[u8])>,
) -> SchedulerState {
    SchedulerState {
        last_snapshot_time: now,
        snapshots: evicted(s.snapshots.insert(epoch, snapshot_of(epoch, now, raw))),
        ..s
    }
}

/// The time for the next snapshot has come.
pub open spec fn snapshot_due(s: SchedulerState, now: u64) -> bool {
    now >= s.last_snapshot_time + s.interval_seconds
}

/// The health of the snapshot of an epoch.
pub open spec fn health_of(s: SchedulerState, epoch: u64) -> SnapshotHealth {
    if !s.snapshots.dom().contains(epoch) {
        SnapshotHealth::Missing
    } else if snapshot_intact(s.snapshots[epoch]) {
        SnapshotHealth::Healthy
    } else {
        SnapshotHealth::Corrupted
    }
}

impl View for BackupScheduler {
    type V = SchedulerState;

    closed spec fn view(&self) -> SchedulerState {
        SchedulerState {
            last_snapshot_time: self.last_snapshot_time,
            interval_seconds: self.interval_seconds,
            snapshots: mapped(self.snapshots@, snapshot_model()),
        }
    }
}

impl BackupScheduler {
    /// There are no more snapshots than may be kept.
    pub closed spec fn wf(&self) -> bool {
        &&& self.snapshots.wf()
        &&& self.snapshots.count() <= MAX_SNAPSHOT_COUNT
    }

    proof fn lemma_size(&self)
        requires
            self.snapshots.wf(),
        ensures
            self@.snapshots.dom().finite(),
            self@.snapshots.dom().len() == self.snapshots.count(),
    {
        self.snapshots.lemma_ascending();
        crate::ordered_map::lemma_map_size::<u64, StateSnapshot>(self.snapshots.entries());
        assert(self@.snapshots.dom() =~= self.snapshots@.dom());
    }

    /// The scheduler never keeps more snapshots than it may.
    pub proof fn law_bounded(&self)
        requires
            self.wf(),
        ensures
            self@.snapshots.dom().finite(),
            self@.snapshots.dom().len() <= MAX_SNAPSHOT_COUNT,
    {
        self.lemma_size();
    }

    /// Create a new scheduler with the standard interval.
    pub fn new() -> (r: Self)
        ensures
            r.wf(),
            r@ == (SchedulerState {
                last_snapshot_time: 0,
                interval_seconds: SNAPSHOT_INTERVAL_SECONDS,
                snapshots: Map::empty(),
            }),
    {
        Self::with_interval(SNAPSHOT_INTERVAL_SECONDS)
    }

    /// Create a scheduler with a custom interval.
    pub fn with_interval(interval_seconds: u64) -> (r: Self)
        ensures
            r.wf(),
            r@ == (SchedulerState {
                last_snapshot_time: 0,
                interval_seconds,
                snapshots: Map::empty(),
            }),
    {
        let r = BackupScheduler {
            last_snapshot_time: 0,
            interval_seconds,
            snapshots: OrderedMap::new(),
        };
        assert(r@.snapshots =~= Map::empty());
        r
    }

    /// Whether a snapshot is due given the current wall-clock time.
    pub fn is_due(&self, current_time: u64) -> (r: bool)
        requires
            self@.last_snapshot_time + self@.interval_seconds <= u64::MAX,
        ensures
            r == snapshot_due(self@, current_time),
    {
        current_time >= self.last_snapshot_time + self.interval_seconds
    }

    /// Take a snapshot and store it. Returns `None` if the chunk list exceeds
    /// [`MAX_CHUNKS_PER_SNAPSHOT`].
    pub fn take_snapshot(
        &mut self,
        epoch: u64,
        current_time: u64,
        raw_chunks: &[(u64, &[u8])],
    ) -> (r: Option<StateSnapshot>)
        requires
            old(self).wf(),
        ensures
            final(self).wf(),
            r is Some <==> raw_chunks@.len() <= MAX_CHUNKS_PER_SNAPSHOT,
            r matches Some(s) ==> {
                &&& s@ == snapshot_of(epoch, current_time, raw_chunks@)
                &&& final(self)@ == snapshot_taken(old(self)@, epoch, current_time, raw_chunks@)
            },
            r is None ==> final(self)@ == old(self)@,
    {
        if raw_chunks.len() > MAX_CHUNKS_PER_SNAPSHOT {
            return None;
        }
        let snapshot: StateSnapshot = StateSnapshot::create(epoch, current_time, raw_chunks);
        self.last_snapshot_time = current_time;
        let stored: StateSnapshot = snapshot.clone();
        proof {
            lemma_mapped_insert(self.snapshots@, epoch, stored, snapshot_model());
        }
        self.snapshots.insert(epoch, stored);
        self.evict_oldest_if_needed();
        Some(snapshot)
    }

    /// Retrieve a stored snapshot by epoch.
    pub fn get_snapshot(&self, epoch: u64) -> (r: Option<&StateSnapshot>)
        requires
            self.wf(),
        ensures
            r is Some <==> self@.snapshots.dom().contains(epoch),
            r matches Some(s) ==> s@ == self@.snapshots[epoch],
    {
        self.snapshots.get(&epoch)
    }

    /// Verify the integrity of the snapshot stored at `epoch`.
    pub fn verify_snapshot(&self, epoch: u64) -> (r: SnapshotHealth)
        requires
            self.wf(),
        ensures
            r == health_of(self@, epoch),
    {
        match self.snapshots.get(&epoch) {
            Some(s) => s.verify_integrity(),
            None => SnapshotHealth::Missing,
        }
    }

    /// Number of stored snapshots.
    pub fn len(&self) -> (r: usize)
        requires
            self.wf(),
        ensures
            r == self@.snapshots.dom().len(),
    {
        proof {
            self.lemma_size();
        }
        self.snapshots.len()
    }

    /// Whether the cache is empty.
    pub fn is_empty(&self) -> (r: bool)
        requires
            self.wf(),
        ensures
            r == (self@.snapshots.dom().len() == 0),
    {
        proof {
            self.lemma_size();
        }
        self.snapshots.is_empty()
    }

    fn evict_oldest_if_needed(&mut self)
        requires
            old(self).snapshots.wf(),
            old(self).snapshots.count() <= MAX_SNAPSHOT_COUNT + 1,
        ensures
            final(self).wf(),
            final(self)@ == (SchedulerState {
                snapshots: evicted(old(self)@.snapshots),
                ..old(self)@
            }),
    {
        proof {
            self.lemma_size();
        }
        if self.snapshots.len() > MAX_SNAPSHOT_COUNT {
            proof {
                let m = self@.snapshots;
                let s = self.snapshots.entries();
                self.snapshots.lemma_at(0);
                self.snapshots.lemma_ascending();
                assert forall|o: u64| #[trigger] m.dom().contains(o) implies s[0].0 <= o by {
                    let j = self.snapshots.lemma_find(o);
                    if j > 0 {
                        assert(s[0].0 < s[j].0);
                    }
                }
                assert(is_earliest(m, s[0].0));
                let e = choose|e: u64| is_earliest(m, e);
                assert(is_earliest(m, e));
                assert(e == s[0].0);
                lemma_mapped_remove(self.snapshots@, s[0].0, snapshot_model());
            }
            self.snapshots.remove_at(0);
        }
    }
}

impl Default for BackupScheduler {
    fn default() -> (r: Self)
        ensures
            r.wf(),
            r@ == (SchedulerState {
                last_snapshot_time: 0,
                interval_seconds: SNAPSHOT_INTERVAL_SECONDS,
                snapshots: Map::empty(),
            }),
    {
        Self::new()
    }
}

/// Compute the deterministic root hash from a slice of state chunks.
fn compute_root_hash(chunks: &[StateChunk]) -> (r: Hash256)
    ensures
        r@ == root_of(chunks_model(chunks@)),
{
    let ghost model = chunks_model(chunks@);
    let mut buf: Vec<u8> = Vec::new();
    let mut i: usize = 0;
    assert(model.take(0) =~= Seq::<ChunkModel>::empty());
    while i < chunks.len()
        invariant
            model == chunks_model(chunks@),
            i <= chunks@.len(),
            buf@ == joined_hashes(model.take(i as int)),
        decreases chunks@.len() - i,
    {
        append(&mut buf, chunks[i].hash.as_slice());
        proof {
            assert(model.take(i + 1).drop_last() =~= model.take(i as int));
            assert(model.take(i + 1).last() == chunks@[i as int]@);
        }
        i = i + 1;
    }
    assert(model.take(i as int) =~= model);
    sha256(buf.as_slice())
}

/// Result of a restore test: either success or a description of what mismatched.
#[derive(Clone, Debug, PartialEq, Eq)]
pub enum RestoreResult {
    /// The restored state matches the snapshot.
    Success,
    /// Mismatch found in the given chunk.
    ChunkMismatch { chunk_id: u64, expected_hash: Hash256, actual_hash: Hash256 },
    /// The expected snapshot was not found.
    SnapshotMissing,
}

/// The first restored piece of an identifier.
pub open spec fn is_first_restored(raw: Seq<(u64, &[u8])>, i: int, chunk_id: u64) -> bool {
    &&& 0 <= i < raw.len()
    &&& raw[i].0 == chunk_id
    &&& forall|j: int| 0 <= j < i ==> (#[trigger] raw[j]).0 != chunk_id
}

/// The first restored piece of the chunk's identifier hashes to what the chunk records.
pub open spec fn restores(raw: Seq<(u64, &[u8])>, c: ChunkModel) -> bool {
    exists|i: int| #[trigger]
        is_first_restored(raw, i, c.chunk_id) && sha256_digest(raw[i].1@) == c.hash
}

/// The hash of what was restored for a chunk: zeros, where nothing was.
pub open spec fn restored_hash(raw: Seq<(u64, &[u8])>, chunk_id: u64) -> Seq<u8> {
    if exists|i: int| is_first_restored(raw, i, chunk_id) {
        sha256_digest(raw[choose|i: int| is_first_restored(raw, i, chunk_id)].1@)
    } else {
        Seq::new(32, |i: int| 0u8)
    }
}

/// The chunk at place `k` is the first one that is not restored.
pub open spec fn is_first_mismatch(chunks: Seq<ChunkModel>, raw: Seq<(u64, &[u8])>, k: int) -> bool {
    &&& 0 <= k < chunks.len()
    &&& !restores(raw, chunks[k])
    &&& forall|j: int| 0 <= j < k ==> restores(raw, #[trigger] chunks[j])
}

/// Restoring exactly what a snapshot was taken of succeeds, when no chunk identifier occurs twice.
pub proof fn law_restore_of_the_source_succeeds(raw: Seq<(u64, &[u8])>, k: int)
    requires
        forall|i: int, j: int|
            0 <= i < raw.len() && 0 <= j < raw.len() && (#[trigger] raw[i]).0 == (
            #[trigger] raw[j]).0 ==> i == j,
        0 <= k < raw.len(),
    ensures
        restores(raw, chunks_of(raw)[k]),
{
    let c = chunks_of(raw)[k];
    assert(c == chunk_of(raw[k].0, raw[k].1@));
    assert(is_first_restored(raw, k, c.chunk_id));
}

/// Simulate a restore by comparing `restored_chunks` against the snapshot stored at `epoch`: every
/// chunk in the snapshot must have an exact match in the restored data; more than that is fine.
pub fn test_restore(
    scheduler: &BackupScheduler,
    epoch: u64,
    restored_chunks: &[(u64, &[u8])],
) -> (r: RestoreResult)
    requires
        scheduler.wf(),
    ensures
        !scheduler@.snapshots.dom().contains(epoch) <==> r is SnapshotMissing,
        scheduler@.snapshots.dom().contains(epoch) ==> ({
            let chunks = scheduler@.snapshots[epoch].chunks;
            &&& r is Success <==> forall|i: int|
                0 <= i < chunks.len() ==> restores(restored_chunks@, #[trigger] chunks[i])
            &&& r matches RestoreResult::ChunkMismatch { chunk_id, expected_hash, actual_hash }
                ==> exists|k: int| #[trigger]
                is_first_mismatch(chunks, restored_chunks@, k) && chunk_id == chunks[k].chunk_id
                    && expected_hash@ == chunks[k].hash && actual_hash@ == restored_hash(
                    restored_chunks@,
                    chunk_id,
                )
        }),
{
    let snapshot: &StateSnapshot = match scheduler.get_snapshot(epoch) {
        Some(s) => s,
        None => return RestoreResult::SnapshotMissing,
    };
    let ghost raw = restored_chunks@;
    let ghost chunks = snapshot@.chunks;
    let mut k: usize = 0;
    while k < snapshot.chunks.len()
        invariant
            raw == restored_chunks@,
            chunks == snapshot@.chunks,
            scheduler@.snapshots.dom().contains(epoch),
            chunks == scheduler@.snapshots[epoch].chunks,
            k <= chunks.len(),
            forall|j: int| 0 <= j < k ==> restores(raw, #[trigger] chunks[j]),
        decreases chunks.len() - k,
    {
        let chunk: &StateChunk = &snapshot.chunks[k];
        assert(chunks[k as int] == chunk@);
        let found: Option<usize> = find_restored(restored_chunks, chunk.chunk_id);
        match found {
            Some(i) => {
                let actual: Hash256 = sha256(restored_chunks[i].1);
                proof {
                    assert forall|j: int| #[trigger]
                        is_first_restored(raw, j, chunk.chunk_id) implies j == i by {
                        if i < j {
                            assert(raw[i as int].0 == chunk.chunk_id);
                        }
                    }
                }
                if !arrays_equal(&actual, &chunk.hash) {
                    proof {
                        assert(!restores(raw, chunks[k as int]));
                        assert(is_first_mismatch(chunks, raw, k as int));
                    }
                    return RestoreResult::ChunkMismatch {
                        chunk_id: chunk.chunk_id,
                        expected_hash: chunk.hash,
                        actual_hash: actual,
                    };
                }
                assert(is_first_restored(raw, i as int, chunks[k as int].chunk_id));
                assert(restores(raw, chunks[k as int]));
            },
            None => {
                let zeros: Hash256 = [0u8; 32];
                proof {
                    assert forall|j: int| !(#[trigger] is_first_restored(
                        raw,
                        j,
                        chunk.chunk_id,
                    )) by {}
                    assert(!restores(raw, chunks[k as int]));
                    assert(is_first_mismatch(chunks, raw, k as int));
                    assert(zeros@ =~= Seq::new(32, |i: int| 0u8));
                }
                return RestoreResult::ChunkMismatch {
                    chunk_id: chunk.chunk_id,
                    expected_hash: chunk.hash,
                    actual_hash: zeros,
                };
            },
        }
        k = k + 1;
    }
    RestoreResult::Success
}

/// The place of the first restored piece of an identifier.
fn find_restored(raw: &[(u64, &[u8])], chunk_id: u64) -> (r: Option<usize>)
    ensures
        r matches Some(i) ==> is_first_restored(raw@, i as int, chunk_id),
        r is None ==> forall|i: int| 0 <= i < raw@.len() ==> (#[trigger] raw@[i]).0 != chunk_id,
{
    let mut i: usize = 0;
    while i < raw.len()
        invariant
            i <= raw@.len(),
            forall|j: int| 0 <= j < i ==> (#[trigger] raw@[j]).0 != chunk_id,
        decreases raw@.len() - i,
    {
        if raw[i].0 == chunk_id {
            return Some(i);
        }
        i = i + 1;
    }
    None
}

proof fn lemma_earliest_exists(m: Map<u64, SnapshotModel>)
    requires
        m.dom().finite(),
        m.dom().len() > 0,
    ensures
        exists|e: u64| is_earliest(m, e),
    decreases m.dom().len(),
{
    let k = m.dom().choose();
    let rest = m.remove(k);
    assert(rest.dom() =~= m.dom().remove(k));
    if rest.dom().len() == 0 {
        assert forall|o: u64| #[trigger] m.dom().contains(o) implies k <= o by {
            if o != k {
                assert(rest.dom().contains(o));
            }
        }
        assert(is_earliest(m, k));
    } else {
        lemma_earliest_exists(rest);
        let e = choose|e: u64| is_earliest(rest, e);
        assert(rest.dom().contains(e));
        let first = if k < e {
            k
        } else {
            e
        };
        assert forall|o: u64| #[trigger] m.dom().contains(o) implies first <= o by {
            if o != k {
                assert(rest.dom().contains(o));
            }
        }
        assert(is_earliest(m, first));
    }
}

/// Once a snapshot has been taken, the next one is due when the interval is over, and not before.
pub proof fn law_next_snapshot_is_due_after_the_interval(
    s: SchedulerState,
    epoch: u64,
    now: u64,
    raw: Seq<(u64, &[u8])>,
    later: u64,
)
    ensures
        snapshot_due(snapshot_taken(s, epoch, now, raw), later) <==> later >= now
            + s.interval_seconds,
        snapshot_taken(s, epoch, now, raw).last_snapshot_time == now,
        snapshot_taken(s, epoch, now, raw).interval_seconds == s.interval_seconds,
{
}

/// A snapshot holds each chunk with its number, its data and the digest of its data, in their
/// order, and the digest of all these digests.
pub proof fn law_snapshot_holds_every_chunk(
    epoch: u64,
    created_at: u64,
    raw: Seq<(u64, &[u8])>,
    i: int,
)
    requires
        0 <= i < raw.len(),
    ensures
        ({
            let t = snapshot_of(epoch, created_at, raw);
            &&& t.epoch == epoch
            &&& t.created_at == created_at
            &&& t.chunks.len() == raw.len()
            &&& t.chunks[i].chunk_id == raw[i].0
            &&& t.chunks[i].data == raw[i].1@
            &&& t.chunks[i].hash == sha256_digest(raw[i].1@)
            &&& t.root_hash == root_of(t.chunks)
        }),
{
}

/// The root is the digest of the chunks' digests, one behind the other: one more chunk adds its own
/// at the end.
pub proof fn law_root_takes_in_every_hash(chunks: Seq<ChunkModel>, c: ChunkModel)
    ensures
        root_of(Seq::<ChunkModel>::empty()) == sha256_digest(Seq::<u8>::empty()),
        joined_hashes(chunks.push(c)) == joined_hashes(chunks) + c.hash,
        root_of(chunks.push(c)) == sha256_digest(joined_hashes(chunks) + c.hash),
{
    assert(chunks.push(c).drop_last() =~= chunks);
}

/// Up to 256 snapshots are kept. Beyond that a new one drives out the one of the earliest epoch,
/// and no other; the others stay as they are.
pub proof fn law_earliest_snapshot_makes_room(
    s: SchedulerState,
    epoch: u64,
    now: u64,
    raw: Seq<(u64, &[u8])>,
    other: u64,
)
    requires
        s.snapshots.dom().finite(),
        s.snapshots.dom().len() <= 256,
    ensures
        ({
            let t = snapshot_taken(s, epoch, now, raw);
            let room = s.snapshots.dom().contains(epoch) || s.snapshots.dom().len() < 256;
            &&& room ==> t.snapshots.dom() == s.snapshots.dom().insert(epoch)
            &&& !room ==> t.snapshots.dom().len() == 256
            &&& t.snapshots.dom().contains(epoch) ==> t.snapshots[epoch] == snapshot_of(
                epoch,
                now,
                raw,
            )
            &&& other != epoch && t.snapshots.dom().contains(other) ==> s.snapshots.dom().contains(
                other,
            ) && t.snapshots[other] == s.snapshots[other]
            &&& (other == epoch || s.snapshots.dom().contains(other))
                && !t.snapshots.dom().contains(other) ==> {
                &&& !room
                &&& other <= epoch
                &&& forall|e: u64| #[trigger] s.snapshots.dom().contains(e) ==> other <= e
            }
        }),
{
    let m = s.snapshots.insert(epoch, snapshot_of(epoch, now, raw));
    assert(m.dom() =~= s.snapshots.dom().insert(epoch));
    if m.dom().len() > 256 {
        lemma_earliest_exists(m);
        let e = choose|e: u64| is_earliest(m, e);
        assert(evicted(m).dom() =~= m.dom().remove(e));
        assert forall|o: u64| #[trigger] s.snapshots.dom().contains(o) implies e <= o by {
            assert(m.dom().contains(o));
        }
        assert(m.dom().contains(epoch));
    }
}

/// A snapshot is healthy exactly where every chunk has the digest of its data and the root is that
/// of the chunks' digests.
pub proof fn law_health_is_integrity(s: SchedulerState, epoch: u64)
    ensures
        ({
            let snapshot = s.snapshots[epoch];
            let intact = (forall|i: int|
                0 <= i < snapshot.chunks.len() ==> sha256_digest(
                    (#[trigger] snapshot.chunks[i]).data,
                ) == snapshot.chunks[i].hash) && sha256_digest(joined_hashes(snapshot.chunks))
                == snapshot.root_hash;
            &&& health_of(s, epoch) is Missing <==> !s.snapshots.dom().contains(epoch)
            &&& health_of(s, epoch) is Healthy <==> s.snapshots.dom().contains(epoch) && intact
            &&& health_of(s, epoch) is Corrupted <==> s.snapshots.dom().contains(epoch) && !intact
        }),
{
    let snapshot = s.snapshots[epoch];
    if snapshot_intact(snapshot) {
        assert forall|i: int| 0 <= i < snapshot.chunks.len() implies sha256_digest(
            (#[trigger] snapshot.chunks[i]).data,
        ) == snapshot.chunks[i].hash by {
            assert(chunk_intact(snapshot.chunks[i]));
        }
    }
}

/// A chunk is restored by the first data under its number: it has to have the digest that was
/// kept. Without data under the number the chunk is not restored, and a digest of zeros stands for
/// it.
pub proof fn law_first_data_restores_a_chunk(raw: Seq<(u64, &[u8])>, c: ChunkModel, i: int)
    requires
        0 <= i < raw.len(),
        forall|j: int| 0 <= j < i ==> (#[trigger] raw[j]).0 != c.chunk_id,
    ensures
        raw[i].0 == c.chunk_id ==> {
            &&& restores(raw, c) <==> sha256_digest(raw[i].1@) == c.hash
            &&& restored_hash(raw, c.chunk_id) == sha256_digest(raw[i].1@)
        },
        i == raw.len() - 1 && raw[i].0 != c.chunk_id ==> {
            &&& !restores(raw, c)
            &&& restored_hash(raw, c.chunk_id).len() == 32
            &&& forall|j: int| 0 <= j < 32 ==> #[trigger] restored_hash(raw, c.chunk_id)[j] == 0
        },
{
    if raw[i].0 == c.chunk_id {
        assert(is_first_restored(raw, i, c.chunk_id));
        assert forall|k: int| is_first_restored(raw, k, c.chunk_id) implies k == i by {
            if i < k {
                assert(raw[i].0 != c.chunk_id);
            }
            if k < i {
                assert(raw[k].0 != c.chunk_id);
            }
        }
    }
}

/// A snapshot is taken every six hours, has up to 128 chunks, and 256 of them are kept.
pub proof fn law_limits_in_numbers()
    ensures
        SNAPSHOT_INTERVAL_SECONDS == 6 * 60 * 60,
        MAX_CHUNKS_PER_SNAPSHOT == 128,
        MAX_SNAPSHOT_COUNT == 256,
{
}

} // verus!
