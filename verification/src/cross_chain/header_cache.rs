//! Bounded cache of recently observed chain headers.
//!
//! A light client retains the [`HEADER_CACHE_CAPACITY`] most recent headers per chain. The cache
//! is ordered by insertion; when it overflows, the oldest header is evicted from the front.

use vstd::prelude::*;

use crate::cross_chain::types::HEADER_CACHE_CAPACITY;

verus! {

/// A recently observed chain header together with the committee weight that has attested to it
/// and the local time at which it was first seen.
#[derive(Clone, Copy, Debug, Eq, PartialEq)]
pub struct RecentHeader {
    /// Block height.
    pub height: u64,
    /// Block production timestamp on the source chain, in milliseconds.
    pub timestamp_ms: u64,
    /// Total committee weight eligible to attest to this header.
    pub committee_weight: u64,
    /// Committee weight that has attested to this header so far.
    pub attesting_weight: u64,
    /// Local time at which the light client first observed this header, in milliseconds.
    pub observed_at_ms: u64,
    /// Whether this header has crossed the finality threshold locally.
    pub finalized: bool,
}

impl RecentHeader {
    /// Creates a new, not-yet-finalized header observation.
    pub fn new(
        height: u64,
        timestamp_ms: u64,
        committee_weight: u64,
        attesting_weight: u64,
        observed_at_ms: u64,
    ) -> (r: Self)
        ensures
            r == (RecentHeader {
                height,
                timestamp_ms,
                committee_weight,
                attesting_weight,
                observed_at_ms,
                finalized: false,
            }),
    {
        RecentHeader {
            height,
            timestamp_ms,
            committee_weight,
            attesting_weight,
            observed_at_ms,
            finalized: false,
        }
    }
}

/// Bounded, insertion-ordered cache of recent headers for one chain.
#[derive(Clone, Debug)]
pub struct HeaderCache {
    headers: Vec<RecentHeader>,
}

/// A header at this height is cached.
pub open spec fn has_height(s: Seq<RecentHeader>, height: u64) -> bool {
    exists|i: int| 0 <= i < s.len() && (#[trigger] s[i]).height == height
}

/// The place of the header at this height.
pub open spec fn height_place(s: Seq<RecentHeader>, height: u64) -> int {
    choose|i: int| 0 <= i < s.len() && (#[trigger] s[i]).height == height
}

/// No height occurs twice.
pub open spec fn heights_distinct(s: Seq<RecentHeader>) -> bool {
    forall|i: int, j: int|
        0 <= i < s.len() && 0 <= j < s.len() && (#[trigger] s[i]).height == (
        #[trigger] s[j]).height ==> i == j
}

/// The cache after a header has come in: it takes the place of the one at its height, or goes to
/// the end, and the oldest goes where there are too many.
pub open spec fn header_inserted(s: Seq<RecentHeader>, header: RecentHeader) -> Seq<RecentHeader> {
    if has_height(s, header.height) {
        s.update(height_place(s, header.height), header)
    } else if s.len() >= HEADER_CACHE_CAPACITY {
        s.push(header).drop_first()
    } else {
        s.push(header)
    }
}

/// The cache after the header at a height has been marked finalized.
pub open spec fn header_finalized(s: Seq<RecentHeader>, height: u64) -> Seq<RecentHeader> {
    if has_height(s, height) {
        let i = height_place(s, height);
        s.update(i, RecentHeader { finalized: true, ..s[i] })
    } else {
        s
    }
}

/// `h` is the cached finalized header of greatest height.
pub open spec fn is_finalized_tip(s: Seq<RecentHeader>, h: RecentHeader) -> bool {
    &&& s.contains(h)
    &&& h.finalized
    &&& forall|i: int|
        0 <= i < s.len() && (#[trigger] s[i]).finalized ==> s[i].height <= h.height
}

/// Some cached header is finalized.
pub open spec fn has_finalized(s: Seq<RecentHeader>) -> bool {
    exists|i: int| 0 <= i < s.len() && (#[trigger] s[i]).finalized
}

/// The cached finalized header of greatest height, if there is one.
pub open spec fn finalized_tip(s: Seq<RecentHeader>) -> Option<RecentHeader> {
    if has_finalized(s) {
        Some(choose|h: RecentHeader| is_finalized_tip(s, h))
    } else {
        None
    }
}

/// A header is in the cache right after it has been inserted.
pub proof fn law_inserted_header_is_cached(s: Seq<RecentHeader>, header: RecentHeader)
    ensures
        header_inserted(s, header).contains(header),
{
    let t = header_inserted(s, header);
    if has_height(s, header.height) {
        assert(t[height_place(s, header.height)] == header);
    } else {
        assert(t[t.len() - 1] == header);
    }
}

/// When headers come in by ascending height, the last one of the cache is the highest, and it
/// stays so.
pub proof fn law_ascending_headers_end_with_the_highest(s: Seq<RecentHeader>, header: RecentHeader)
    requires
        forall|i: int, j: int|
            0 <= i < j < s.len() ==> (#[trigger] s[i]).height < (#[trigger] s[j]).height,
        s.len() > 0 ==> s.last().height < header.height,
    ensures
        ({
            let t = header_inserted(s, header);
            &&& t.last() == header
            &&& forall|i: int, j: int|
                0 <= i < j < t.len() ==> (#[trigger] t[i]).height < (#[trigger] t[j]).height
        }),
{
    if has_height(s, header.height) {
        let p = height_place(s, header.height);
        if p < s.len() - 1 {
            assert(s[p].height < s[s.len() - 1].height);
        }
    }
    let t = header_inserted(s, header);
    let full = s.push(header);
    assert forall|i: int, j: int| 0 <= i < j < full.len() implies (#[trigger] full[i]).height < (
    #[trigger] full[j]).height by {
        if j == s.len() {
            if i < s.len() - 1 {
                assert(s[i].height < s[s.len() - 1].height);
            }
        } else {
            assert(s[i].height < s[j].height);
        }
    }
    if s.len() >= HEADER_CACHE_CAPACITY {
        assert forall|i: int, j: int| 0 <= i < j < t.len() implies (#[trigger] t[i]).height < (
        #[trigger] t[j]).height by {
            assert(t[i] == full[i + 1] && t[j] == full[j + 1]);
        }
    }
}

/// The cached finalized header of greatest height is unique where heights are.
pub proof fn lemma_finalized_tip_unique(s: Seq<RecentHeader>, h: RecentHeader)
    requires
        heights_distinct(s),
        is_finalized_tip(s, h),
    ensures
        finalized_tip(s) == Some(h),
{
    let i = choose|i: int| 0 <= i < s.len() && s[i] == h;
    assert(s[i].finalized);
    let g = choose|g: RecentHeader| is_finalized_tip(s, g);
    assert(is_finalized_tip(s, g));
    let j = choose|j: int| 0 <= j < s.len() && s[j] == g;
    assert(s[i].height <= g.height);
    assert(s[j].height <= h.height);
    assert(s[i].height == s[j].height);
}

impl View for HeaderCache {
    type V = Seq<RecentHeader>;

    closed spec fn view(&self) -> Seq<RecentHeader> {
        self.headers@
    }
}

impl Default for HeaderCache {
    fn default() -> (r: Self)
        ensures
            r.wf(),
            r@ == Seq::<RecentHeader>::empty(),
    {
        Self::new()
    }
}

impl HeaderCache {
    /// No height occurs twice, and there are no more headers than the cache may hold.
    pub open spec fn wf(&self) -> bool {
        &&& heights_distinct(self@)
        &&& self@.len() <= HEADER_CACHE_CAPACITY
    }

    /// Creates an empty header cache.
    pub fn new() -> (r: Self)
        ensures
            r.wf(),
            r@ == Seq::<RecentHeader>::empty(),
    {
        HeaderCache { headers: Vec::new() }
    }

    /// The place of the header at a height.
    fn position(&self, height: u64) -> (r: Option<usize>)
        requires
            self.wf(),
        ensures
            r is Some <==> has_height(self@, height),
            r matches Some(i) ==> i == height_place(self@, height) && i < self@.len()
                && self@[i as int].height == height,
    {
        let mut i: usize = 0;
        while i < self.headers.len()
            invariant
                i <= self.headers@.len(),
                self.wf(),
                forall|j: int| 0 <= j < i ==> (#[trigger] self.headers@[j]).height != height,
            decreases self.headers@.len() - i,
        {
            if self.headers[i].height == height {
                assert(self@[i as int].height == height);
                return Some(i);
            }
            i = i + 1;
        }
        None
    }

    /// Inserts or updates a header.
    ///
    /// If a header at the same height already exists it is replaced in place; otherwise the
    /// header is appended. When the cache exceeds [`HEADER_CACHE_CAPACITY`] the oldest header is
    /// evicted from the front.
    pub fn insert(&mut self, header: RecentHeader)
        requires
            old(self).wf(),
        ensures
            final(self).wf(),
            final(self)@ == header_inserted(old(self)@, header),
    {
        let ghost s = self@;
        if let Some(i) = self.position(header.height) {
            self.headers.set(i, header);
            return;
        }
        self.headers.push(header);
        if self.headers.len() > HEADER_CACHE_CAPACITY {
            self.headers.remove(0);
            assert(self@ =~= s.push(header).drop_first());
        }
    }

    /// Marks the header at `height` finalized. Returns `true` if it was found.
    pub fn mark_finalized(&mut self, height: u64) -> (r: bool)
        requires
            old(self).wf(),
        ensures
            final(self).wf(),
            r == has_height(old(self)@, height),
            final(self)@ == header_finalized(old(self)@, height),
    {
        match self.position(height) {
            Some(i) => {
                let mut h: RecentHeader = self.headers[i];
                h.finalized = true;
                self.headers.set(i, h);
                true
            },
            None => false,
        }
    }

    /// Returns the most recently appended header, if any.
    pub fn latest(&self) -> (r: Option<&RecentHeader>)
        ensures
            r is Some <==> self@.len() > 0,
            r matches Some(h) ==> *h == self@.last(),
    {
        if self.headers.len() == 0 {
            None
        } else {
            Some(&self.headers[self.headers.len() - 1])
        }
    }

    /// Returns the highest-height header that has been finalized, if any.
    pub fn latest_finalized(&self) -> (r: Option<&RecentHeader>)
        requires
            self.wf(),
        ensures
            r is Some <==> has_finalized(self@),
            r matches Some(h) ==> is_finalized_tip(self@, *h) && finalized_tip(self@) == Some(*h),
    {
        let mut best: Option<usize> = None;
        let mut i: usize = 0;
        while i < self.headers.len()
            invariant
                self.wf(),
                i <= self.headers@.len(),
                match best {
                    Some(b) => {
                        &&& b < i
                        &&& self.headers@[b as int].finalized
                        &&& forall|j: int|
                            0 <= j < i && (#[trigger] self.headers@[j]).finalized
                                ==> self.headers@[j].height <= self.headers@[b as int].height
                    },
                    None => forall|j: int|
                        0 <= j < i ==> !(#[trigger] self.headers@[j]).finalized,
                },
            decreases self.headers@.len() - i,
        {
            if self.headers[i].finalized {
                match best {
                    Some(b) => {
                        if self.headers[i].height > self.headers[b].height {
                            best = Some(i);
                        }
                    },
                    None => {
                        best = Some(i);
                    },
                }
            }
            i = i + 1;
        }
        match best {
            Some(b) => {
                proof {
                    assert(self@[b as int].finalized);
                    assert(is_finalized_tip(self@, self@[b as int]));
                    lemma_finalized_tip_unique(self@, self@[b as int]);
                }
                Some(&self.headers[b])
            },
            None => {
                assert(!has_finalized(self@));
                None
            },
        }
    }

    /// Returns the header at the given height, if cached.
    pub fn get(&self, height: u64) -> (r: Option<&RecentHeader>)
        requires
            self.wf(),
        ensures
            r is Some <==> has_height(self@, height),
            r matches Some(h) ==> self@.contains(*h) && h.height == height,
    {
        match self.position(height) {
            Some(i) => Some(&self.headers[i]),
            None => None,
        }
    }

    /// Number of headers currently cached.
    pub fn len(&self) -> (r: usize)
        ensures
            r == self@.len(),
    {
        self.headers.len()
    }

    /// Returns `true` when no headers are cached.
    pub fn is_empty(&self) -> (r: bool)
        ensures
            r == (self@.len() == 0),
    {
        self.headers.len() == 0
    }

    /// Maximum number of headers the cache retains.
    pub fn capacity(&self) -> (r: usize)
        ensures
            r == HEADER_CACHE_CAPACITY,
    {
        HEADER_CACHE_CAPACITY
    }
}

/// Inserting a header puts it at its height and changes no other: it takes the place of the one at
/// its height, or comes last, and then the first goes where 256 were held.
pub proof fn law_insert_changes_one_height(s: Seq<RecentHeader>, header: RecentHeader)
    requires
        heights_distinct(s),
        s.len() <= 256,
    ensures
        ({
            let t = header_inserted(s, header);
            let known = exists|i: int| 0 <= i < s.len() && (#[trigger] s[i]).height == header.height;
            &&& t.contains(header)
            &&& known ==> t.len() == s.len() && forall|i: int|
                0 <= i < s.len() ==> #[trigger] t[i] == if s[i].height == header.height {
                    header
                } else {
                    s[i]
                }
            &&& !known ==> t.last() == header
            &&& !known && s.len() < 256 ==> t.len() == s.len() + 1 && forall|i: int|
                0 <= i < s.len() ==> #[trigger] t[i] == s[i]
            &&& !known && s.len() == 256 ==> t.len() == 256 && forall|i: int|
                0 <= i < 255 ==> #[trigger] t[i] == s[i + 1]
        }),
{
    let t = header_inserted(s, header);
    if has_height(s, header.height) {
        let k = height_place(s, header.height);
        assert(t[k] == header);
    } else {
        assert(t[t.len() - 1] == header);
    }
}

/// Marking a height finalized sets the mark of the header at that height and changes nothing else.
pub proof fn law_marking_touches_one_header(s: Seq<RecentHeader>, height: u64, i: int)
    requires
        heights_distinct(s),
        0 <= i < s.len(),
    ensures
        ({
            let t = header_finalized(s, height);
            &&& t.len() == s.len()
            &&& s[i].height != height ==> t[i] == s[i]
            &&& s[i].height == height ==> t[i].finalized && t[i].height == s[i].height
                && t[i].timestamp_ms == s[i].timestamp_ms && t[i].committee_weight
                == s[i].committee_weight && t[i].attesting_weight == s[i].attesting_weight
                && t[i].observed_at_ms == s[i].observed_at_ms
        }),
{
    if has_height(s, height) {
        let k = height_place(s, height);
        assert(s[k].height == height);
    }
}

/// The finalized tip is a cached, finalized header that no finalized one exceeds in height; there
/// is one exactly where some cached header is finalized.
pub proof fn law_finalized_tip_is_the_highest(s: Seq<RecentHeader>)
    requires
        heights_distinct(s),
    ensures
        finalized_tip(s) is Some <==> exists|i: int|
            0 <= i < s.len() && (#[trigger] s[i]).finalized,
        finalized_tip(s) matches Some(h) ==> s.contains(h) && h.finalized && forall|i: int|
            0 <= i < s.len() && (#[trigger] s[i]).finalized ==> s[i].height <= h.height,
    decreases s.len(),
{
    if has_finalized(s) {
        let h = lemma_tip_exists(s);
        lemma_finalized_tip_unique(s, h);
    }
}

proof fn lemma_tip_exists(s: Seq<RecentHeader>) -> (h: RecentHeader)
    requires
        has_finalized(s),
    ensures
        is_finalized_tip(s, h),
    decreases s.len(),
{
    let init = s.drop_last();
    let n = s.len() - 1;
    if has_finalized(init) {
        let g = lemma_tip_exists(init);
        let k = choose|k: int| 0 <= k < init.len() && init[k] == g;
        assert(s[k] == g);
        let h = if s[n].finalized && s[n].height > g.height {
            s[n]
        } else {
            g
        };
        assert forall|i: int| 0 <= i < s.len() && (#[trigger] s[i]).finalized implies s[i].height
            <= h.height by {
            if i < n {
                assert(init[i] == s[i]);
            }
        }
        assert(s.contains(h));
        h
    } else {
        let k = choose|k: int| 0 <= k < s.len() && (#[trigger] s[k]).finalized;
        if k < n {
            assert(init[k].finalized);
        }
        assert forall|i: int| 0 <= i < s.len() && (#[trigger] s[i]).finalized implies s[i].height
            <= s[k].height by {
            if i < n {
                assert(init[i].finalized);
            }
        }
        assert(s.contains(s[k]));
        s[k]
    }
}

} // verus!
