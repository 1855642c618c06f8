//! A map that keeps its entries in key order.

use vstd::prelude::*;

use crate::byte_order::{
    bytes_before, lemma_bytes_before_irreflexive, lemma_bytes_before_total,
    lemma_bytes_before_transitive, lemma_encoding_injective, slice_before, text_before,
};

verus! {

/// A key with a strict total order on what it stands for.
pub trait OrderedKey: Sized {
    /// The mathematical value that identifies the key.
    type Model;

    spec fn model(&self) -> Self::Model;

    /// The strict order of the keys.
    spec fn before(a: Self::Model, b: Self::Model) -> bool;

    proof fn before_irreflexive(a: Self::Model)
        ensures
            !Self::before(a, a),
    ;

    proof fn before_transitive(a: Self::Model, b: Self::Model, c: Self::Model)
        requires
            Self::before(a, b),
            Self::before(b, c),
        ensures
            Self::before(a, c),
    ;

    proof fn before_total(a: Self::Model, b: Self::Model)
        ensures
            a == b || Self::before(a, b) || Self::before(b, a),
    ;

    fn precedes(&self, other: &Self) -> (r: bool)
        ensures
            r == Self::before(self.model(), other.model()),
    ;
}

impl OrderedKey for u64 {
    type Model = u64;

    open spec fn model(&self) -> u64 {
        *self
    }

    open spec fn before(a: u64, b: u64) -> bool {
        a < b
    }

    proof fn before_irreflexive(a: u64) {
    }

    proof fn before_transitive(a: u64, b: u64, c: u64) {
    }

    proof fn before_total(a: u64, b: u64) {
    }

    fn precedes(&self, other: &u64) -> (r: bool) {
        *self < *other
    }
}

impl OrderedKey for [u8; 32] {
    type Model = Seq<u8>;

    open spec fn model(&self) -> Seq<u8> {
        self@
    }

    open spec fn before(a: Seq<u8>, b: Seq<u8>) -> bool {
        bytes_before(a, b)
    }

    proof fn before_irreflexive(a: Seq<u8>) {
        lemma_bytes_before_irreflexive(a);
    }

    proof fn before_transitive(a: Seq<u8>, b: Seq<u8>, c: Seq<u8>) {
        lemma_bytes_before_transitive(a, b, c);
    }

    proof fn before_total(a: Seq<u8>, b: Seq<u8>) {
        lemma_bytes_before_total(a, b);
    }

    fn precedes(&self, other: &[u8; 32]) -> (r: bool) {
        slice_before(self.as_slice(), other.as_slice())
    }
}

impl OrderedKey for (u64, [u8; 32]) {
    type Model = (u64, Seq<u8>);

    open spec fn model(&self) -> (u64, Seq<u8>) {
        (self.0, self.1@)
    }

    open spec fn before(a: (u64, Seq<u8>), b: (u64, Seq<u8>)) -> bool {
        a.0 < b.0 || (a.0 == b.0 && bytes_before(a.1, b.1))
    }

    proof fn before_irreflexive(a: (u64, Seq<u8>)) {
        lemma_bytes_before_irreflexive(a.1);
    }

    proof fn before_transitive(a: (u64, Seq<u8>), b: (u64, Seq<u8>), c: (u64, Seq<u8>)) {
        if a.0 == b.0 && b.0 == c.0 {
            lemma_bytes_before_transitive(a.1, b.1, c.1);
        }
    }

    proof fn before_total(a: (u64, Seq<u8>), b: (u64, Seq<u8>)) {
        lemma_bytes_before_total(a.1, b.1);
    }

    fn precedes(&self, other: &(u64, [u8; 32])) -> (r: bool) {
        self.0 < other.0 || (self.0 == other.0 && slice_before(
            self.1.as_slice(),
            other.1.as_slice(),
        ))
    }
}

impl OrderedKey for (u64, u64) {
    type Model = (u64, u64);

    open spec fn model(&self) -> (u64, u64) {
        *self
    }

    open spec fn before(a: (u64, u64), b: (u64, u64)) -> bool {
        a.0 < b.0 || (a.0 == b.0 && a.1 < b.1)
    }

    proof fn before_irreflexive(a: (u64, u64)) {
    }

    proof fn before_transitive(a: (u64, u64), b: (u64, u64), c: (u64, u64)) {
    }

    proof fn before_total(a: (u64, u64), b: (u64, u64)) {
    }

    fn precedes(&self, other: &(u64, u64)) -> (r: bool) {
        self.0 < other.0 || (self.0 == other.0 && self.1 < other.1)
    }
}

impl OrderedKey for (u8, u64, u64) {
    type Model = (u8, u64, u64);

    open spec fn model(&self) -> (u8, u64, u64) {
        *self
    }

    open spec fn before(a: (u8, u64, u64), b: (u8, u64, u64)) -> bool {
        a.0 < b.0 || (a.0 == b.0 && (a.1 < b.1 || (a.1 == b.1 && a.2 < b.2)))
    }

    proof fn before_irreflexive(a: (u8, u64, u64)) {
    }

    proof fn before_transitive(a: (u8, u64, u64), b: (u8, u64, u64), c: (u8, u64, u64)) {
    }

    proof fn before_total(a: (u8, u64, u64), b: (u8, u64, u64)) {
    }

    fn precedes(&self, other: &(u8, u64, u64)) -> (r: bool) {
        self.0 < other.0 || (self.0 == other.0 && (self.1 < other.1 || (self.1 == other.1 && self.2
            < other.2)))
    }
}

impl OrderedKey for String {
    type Model = Seq<char>;

    open spec fn model(&self) -> Seq<char> {
        self@
    }

    open spec fn before(a: Seq<char>, b: Seq<char>) -> bool {
        text_before(a, b)
    }

    proof fn before_irreflexive(a: Seq<char>) {
        lemma_bytes_before_irreflexive(vstd::utf8::encode_utf8(a));
    }

    proof fn before_transitive(a: Seq<char>, b: Seq<char>, c: Seq<char>) {
        lemma_bytes_before_transitive(
            vstd::utf8::encode_utf8(a),
            vstd::utf8::encode_utf8(b),
            vstd::utf8::encode_utf8(c),
        );
    }

    proof fn before_total(a: Seq<char>, b: Seq<char>) {
        lemma_bytes_before_total(vstd::utf8::encode_utf8(a), vstd::utf8::encode_utf8(b));
        lemma_encoding_injective(a, b);
    }

    fn precedes(&self, other: &String) -> (r: bool) {
        slice_before(self.as_str().as_bytes(), other.as_str().as_bytes())
    }
}

impl<'a> OrderedKey for &'a str {
    type Model = Seq<char>;

    open spec fn model(&self) -> Seq<char> {
        self@
    }

    open spec fn before(a: Seq<char>, b: Seq<char>) -> bool {
        text_before(a, b)
    }

    proof fn before_irreflexive(a: Seq<char>) {
        lemma_bytes_before_irreflexive(vstd::utf8::encode_utf8(a));
    }

    proof fn before_transitive(a: Seq<char>, b: Seq<char>, c: Seq<char>) {
        lemma_bytes_before_transitive(
            vstd::utf8::encode_utf8(a),
            vstd::utf8::encode_utf8(b),
            vstd::utf8::encode_utf8(c),
        );
    }

    proof fn before_total(a: Seq<char>, b: Seq<char>) {
        lemma_bytes_before_total(vstd::utf8::encode_utf8(a), vstd::utf8::encode_utf8(b));
        lemma_encoding_injective(a, b);
    }

    fn precedes(&self, other: &&'a str) -> (r: bool) {
        slice_before(self.as_bytes(), other.as_bytes())
    }
}

/// The entries stand in strictly ascending key order.
pub open spec fn ascending<K: OrderedKey, V>(s: Seq<(K::Model, V)>) -> bool {
    forall|i: int, j: int| 0 <= i < j < s.len() ==> K::before(#[trigger] s[i].0, #[trigger] s[j].0)
}

/// Some entry has the key `k`.
pub open spec fn has_key<M, V>(s: Seq<(M, V)>, k: M) -> bool {
    exists|i: int| 0 <= i < s.len() && #[trigger] s[i].0 == k
}

/// The place of an entry with the key `k`.
pub open spec fn place_of<M, V>(s: Seq<(M, V)>, k: M) -> int {
    choose|i: int| 0 <= i < s.len() && #[trigger] s[i].0 == k
}

/// The map that a list of entries stands for.
pub open spec fn entries_map<M, V>(s: Seq<(M, V)>) -> Map<M, V> {
    Map::new(|k: M| has_key(s, k), |k: M| s[place_of(s, k)].1)
}

/// The part of a map whose values satisfy `p`.
pub open spec fn kept<M, V>(m: Map<M, V>, p: spec_fn(V) -> bool) -> Map<M, V> {
    Map::new(|k: M| m.dom().contains(k) && p(m[k]), |k: M| m[k])
}

/// The map with `f` applied to every value.
pub open spec fn mapped<M, V, W>(m: Map<M, V>, f: spec_fn(V) -> W) -> Map<M, W> {
    Map::new(|k: M| m.dom().contains(k), |k: M| f(m[k]))
}

/// The entries of a map in key order.
pub open spec fn listing<K: OrderedKey, V>(m: Map<K::Model, V>) -> Seq<(K::Model, V)> {
    choose|s: Seq<(K::Model, V)>| #[trigger] ascending::<K, V>(s) && entries_map(s) == m
}

/// Map with its entries in ascending key order, each key once.
#[derive(Clone, Debug, PartialEq, Eq)]
pub struct OrderedMap<K, V> {
    keys: Vec<K>,
    values: Vec<V>,
}

impl<K: OrderedKey, V> OrderedMap<K, V> {
    /// The entries in key order.
    pub closed spec fn entries(&self) -> Seq<(K::Model, V)> {
        Seq::new(self.keys@.len(), |i: int| (self.keys@[i].model(), self.values@[i]))
    }

    /// The keys ascend, and each has its value.
    pub closed spec fn wf(&self) -> bool {
        &&& self.keys@.len() == self.values@.len()
        &&& ascending::<K, V>(self.entries())
    }

    /// The map itself.
    pub open spec fn view(&self) -> Map<K::Model, V> {
        entries_map(self.entries())
    }

    /// The number of entries.
    pub open spec fn count(&self) -> nat {
        self.entries().len()
    }

    /// An empty map.
    pub fn new() -> (r: Self)
        ensures
            r.wf(),
            r.entries() == Seq::<(K::Model, V)>::empty(),
            r@ == Map::<K::Model, V>::empty(),
    {
        let r = OrderedMap { keys: Vec::new(), values: Vec::new() };
        proof {
            assert(r.entries() =~= Seq::<(K::Model, V)>::empty());
            assert(r@ =~= Map::<K::Model, V>::empty());
        }
        r
    }

    /// The entries ascend.
    pub proof fn lemma_ascending(&self)
        requires
            self.wf(),
        ensures
            ascending::<K, V>(self.entries()),
    {
    }

    /// The number of entries.
    pub fn len(&self) -> (r: usize)
        requires
            self.wf(),
        ensures
            r == self.count(),
            r == self@.dom().len(),
            self@.dom().finite(),
    {
        proof {
            lemma_map_size::<K, V>(self.entries());
        }
        self.keys.len()
    }

    /// Whether the map has no entry.
    pub fn is_empty(&self) -> (r: bool)
        requires
            self.wf(),
        ensures
            r == (self.count() == 0),
            r == (self@ == Map::<K::Model, V>::empty()),
    {
        proof {
            if self.entries().len() > 0 {
                assert(has_key(self.entries(), self.entries()[0].0));
                assert(self@.dom().contains(self.entries()[0].0));
            } else {
                assert(self@ =~= Map::<K::Model, V>::empty());
            }
        }
        self.keys.len() == 0
    }

    /// The first place whose key is not before `key`.
    fn lower_bound(&self, key: &K) -> (r: usize)
        requires
            self.wf(),
        ensures
            0 <= r <= self.count(),
            forall|i: int| 0 <= i < r ==> K::before(#[trigger] self.entries()[i].0, key.model()),
            forall|i: int|
                r <= i < self.count() ==> !K::before(#[trigger] self.entries()[i].0, key.model()),
    {
        let mut lo: usize = 0;
        let mut hi: usize = self.keys.len();
        while lo < hi
            invariant
                self.wf(),
                lo <= hi <= self.count(),
                self.count() == self.keys@.len(),
                forall|i: int|
                    0 <= i < lo ==> K::before(#[trigger] self.entries()[i].0, key.model()),
                forall|i: int|
                    hi <= i < self.count() ==> !K::before(
                        #[trigger] self.entries()[i].0,
                        key.model(),
                    ),
            decreases hi - lo,
        {
            let mid: usize = lo + (hi - lo) / 2;
            assert(self.entries()[mid as int].0 == self.keys@[mid as int].model());
            if self.keys[mid].precedes(key) {
                proof {
                    assert forall|i: int| 0 <= i < mid + 1 implies K::before(
                        #[trigger] self.entries()[i].0,
                        key.model(),
                    ) by {
                        if i < mid {
                            K::before_transitive(
                                self.entries()[i].0,
                                self.entries()[mid as int].0,
                                key.model(),
                            );
                        }
                    }
                }
                lo = mid + 1;
            } else {
                proof {
                    assert forall|i: int| mid <= i < self.count() implies !K::before(
                        #[trigger] self.entries()[i].0,
                        key.model(),
                    ) by {
                        if mid < i && K::before(self.entries()[i].0, key.model()) {
                            K::before_transitive(
                                self.entries()[mid as int].0,
                                self.entries()[i].0,
                                key.model(),
                            );
                        }
                    }
                }
                hi = mid;
            }
        }
        lo
    }

    /// The place of `key`, if the map has it.
    pub fn position(&self, key: &K) -> (r: Option<usize>)
        requires
            self.wf(),
        ensures
            r is Some <==> self@.dom().contains(key.model()),
            r matches Some(i) ==> {
                &&& i < self.count()
                &&& self.entries()[i as int].0 == key.model()
                &&& self.entries()[i as int].1 == self@[key.model()]
            },
    {
        let i: usize = self.lower_bound(key);
        if i < self.keys.len() {
            assert(self.entries()[i as int].0 == self.keys@[i as int].model());
            if !key.precedes(&self.keys[i]) {
                proof {
                    K::before_total(self.entries()[i as int].0, key.model());
                    lemma_entry::<K, V>(self.entries(), i as int);
                }
                return Some(i);
            }
        }
        proof {
            if has_key(self.entries(), key.model()) {
                let j = place_of(self.entries(), key.model());
                K::before_irreflexive(key.model());
                assert(j >= i);
                if j > i {
                    K::before_transitive(
                        key.model(),
                        self.entries()[i as int].0,
                        self.entries()[j].0,
                    );
                }
            }
        }
        None
    }

    /// Whether the map has `key`.
    pub fn contains_key(&self, key: &K) -> (r: bool)
        requires
            self.wf(),
        ensures
            r == self@.dom().contains(key.model()),
    {
        self.position(key).is_some()
    }

    /// The value under `key`.
    pub fn get(&self, key: &K) -> (r: Option<&V>)
        requires
            self.wf(),
        ensures
            r is Some <==> self@.dom().contains(key.model()),
            r matches Some(v) ==> *v == self@[key.model()],
    {
        match self.position(key) {
            Some(i) => Some(&self.values[i]),
            None => None,
        }
    }

    /// The value under `key`, to be changed in place.
    pub fn get_mut(&mut self, key: &K) -> (r: Option<&mut V>)
        requires
            old(self).wf(),
        ensures
            r is Some <==> old(self)@.dom().contains(key.model()),
            final(self).wf(),
            match r {
                Some(v) => {
                    &&& *v == old(self)@[key.model()]
                    &&& final(self)@ == old(self)@.insert(key.model(), *final(v))
                    &&& final(self).count() == old(self).count()
                    &&& exists|i: int| 0 <= i < old(self).count() && #[trigger] old(
                        self,
                    ).entries()[i].0 == key.model() && final(self).entries() == old(
                        self,
                    ).entries().update(i, (key.model(), *final(v)))
                },
                None => *final(self) == *old(self),
            },
    {
        match self.position(key) {
            Some(i) => {
                let ghost s = self.entries();
                let r = &mut self.values[i];
                proof {
                    lemma_map_update::<K, V>(s, i as int, *final(r));
                    assert(after_borrow(self).entries() =~= s.update(
                        i as int,
                        (key.model(), *final(r)),
                    ));
                }
                Some(r)
            },
            None => None,
        }
    }

    /// The key at a place.
    pub fn key_at(&self, i: usize) -> (r: &K)
        requires
            self.wf(),
            i < self.count(),
        ensures
            r.model() == self.entries()[i as int].0,
    {
        &self.keys[i]
    }

    /// The value at a place.
    pub fn value_at(&self, i: usize) -> (r: &V)
        requires
            self.wf(),
            i < self.count(),
        ensures
            *r == self.entries()[i as int].1,
    {
        &self.values[i]
    }

    /// The value at a place, to be changed in place.
    pub fn value_at_mut(&mut self, i: usize) -> (r: &mut V)
        requires
            old(self).wf(),
            i < old(self).count(),
        ensures
            *r == old(self).entries()[i as int].1,
            final(self).wf(),
            final(self).entries() == old(self).entries().update(
                i as int,
                (old(self).entries()[i as int].0, *final(r)),
            ),
            final(self)@ == old(self)@.insert(old(self).entries()[i as int].0, *final(r)),
    {
        let ghost s = self.entries();
        let r = &mut self.values[i];
        proof {
            lemma_map_update::<K, V>(s, i as int, *final(r));
            assert(after_borrow(self).entries() =~= s.update(i as int, (s[i as int].0, *final(r))));
        }
        r
    }

    /// The entry at a place is the one under its key.
    pub proof fn lemma_at(&self, i: int)
        requires
            self.wf(),
            0 <= i < self.count(),
        ensures
            self@.dom().contains(self.entries()[i].0),
            self@[self.entries()[i].0] == self.entries()[i].1,
    {
        lemma_entry::<K, V>(self.entries(), i);
    }

    /// The map is finite, with as many keys as there are entries.
    pub proof fn lemma_finite(&self)
        requires
            self.wf(),
        ensures
            self@.dom().finite(),
            self@.dom().len() == self.count(),
    {
        lemma_map_size::<K, V>(self.entries());
    }

    /// The entries are the listing of the map.
    pub proof fn lemma_listing(&self)
        requires
            self.wf(),
        ensures
            self.entries() == listing::<K, V>(self@),
    {
        lemma_listing_of::<K, V>(self.entries());
    }

    /// Every key has its place.
    pub proof fn lemma_find(&self, k: K::Model) -> (i: int)
        requires
            self.wf(),
            self@.dom().contains(k),
        ensures
            0 <= i < self.count(),
            self.entries()[i].0 == k,
            self.entries()[i].1 == self@[k],
    {
        place_of(self.entries(), k)
    }

    /// Puts `value` under `key`, in place of an earlier value.
    pub fn insert(&mut self, key: K, value: V)
        requires
            old(self).wf(),
        ensures
            final(self).wf(),
            final(self)@ == old(self)@.insert(key.model(), value),
            final(self).count() == old(self).count() + (if old(self)@.dom().contains(
                key.model(),
            ) {
                0nat
            } else {
                1nat
            }),
    {
        match self.position(&key) {
            Some(i) => {
                let ghost s = self.entries();
                self.values.set(i, value);
                proof {
                    lemma_map_update::<K, V>(s, i as int, value);
                    assert(self.entries() =~= s.update(i as int, (key.model(), value)));
                }
            },
            None => {
                let i: usize = self.lower_bound(&key);
                let ghost s = self.entries();
                let ghost m = key.model();
                self.keys.insert(i, key);
                self.values.insert(i, value);
                proof {
                    assert(self.entries() =~= s.insert(i as int, (m, value)));
                    lemma_map_insert::<K, V>(s, i as int, m, value);
                }
            },
        }
    }

    /// Takes the entry at a place out of the map.
    pub fn remove_at(&mut self, i: usize) -> (r: V)
        requires
            old(self).wf(),
            i < old(self).count(),
        ensures
            final(self).wf(),
            r == old(self).entries()[i as int].1,
            final(self).entries() == old(self).entries().remove(i as int),
            final(self)@ == old(self)@.remove(old(self).entries()[i as int].0),
    {
        let ghost s = self.entries();
        self.keys.remove(i);
        let r = self.values.remove(i);
        proof {
            assert(self.entries() =~= s.remove(i as int));
            lemma_map_remove::<K, V>(s, i as int);
        }
        r
    }

    /// Takes the entry under `key` out of the map.
    pub fn remove(&mut self, key: &K) -> (r: Option<V>)
        requires
            old(self).wf(),
        ensures
            final(self).wf(),
            final(self)@ == old(self)@.remove(key.model()),
            r is Some <==> old(self)@.dom().contains(key.model()),
            r matches Some(v) ==> v == old(self)@[key.model()],
            final(self).count() == old(self).count() - (if old(self)@.dom().contains(
                key.model(),
            ) {
                1int
            } else {
                0int
            }),
    {
        match self.position(key) {
            Some(i) => Some(self.remove_at(i)),
            None => {
                assert(self@ =~= self@.remove(key.model()));
                None
            },
        }
    }

    /// Keeps the entries whose value satisfies `keep`.
    pub fn retain<F: Fn(&V) -> bool>(&mut self, keep: F, p: Ghost<spec_fn(V) -> bool>)
        requires
            old(self).wf(),
            forall|v: &V| call_requires(keep, (v,)),
            forall|v: &V, b: bool| call_ensures(keep, (v,), b) ==> b == p@(*v),
        ensures
            final(self).wf(),
            final(self)@ == kept(old(self)@, p@),
            final(self).entries() == old(self).entries().filter(|e: (K::Model, V)| p@(e.1)),
            final(self).count() <= old(self).count(),
    {
        let ghost s = self.entries();
        let ghost m = self@;
        let ghost q = |e: (K::Model, V)| p@(e.1);
        let ghost mut k: int = 0;
        let mut i: usize = 0;
        proof {
            reveal(Seq::filter);
            assert(s.take(0) =~= Seq::<(K::Model, V)>::empty());
            assert(s =~= s.take(0).filter(q) + s.skip(0));
        }
        while i < self.keys.len()
            invariant
                self.wf(),
                self.keys@.len() == self.entries().len(),
                0 <= k <= s.len(),
                q == (|e: (K::Model, V)| p@(e.1)),
                forall|v: &V| call_requires(keep, (v,)),
                forall|v: &V, b: bool| call_ensures(keep, (v,), b) ==> b == p@(*v),
                i == s.take(k).filter(q).len(),
                self.entries() == s.take(k).filter(q) + s.skip(k),
            decreases s.len() - k,
        {
            proof {
                crate::seqs::lemma_filter_step(s, k, q);
                assert(self.entries()[i as int] == s[k]);
                assert(self.values@[i as int] == s[k].1);
            }
            if keep(&self.values[i]) {
                proof {
                    assert(self.entries() =~= s.take(k + 1).filter(q) + s.skip(k + 1));
                }
                i = i + 1;
            } else {
                let ghost before = self.entries();
                self.remove_at(i);
                proof {
                    assert(self.entries() =~= s.take(k + 1).filter(q) + s.skip(k + 1));
                }
            }
            proof {
                k = k + 1;
            }
        }
        proof {
            assert(s.take(k) =~= s);
            assert(self.entries() =~= s.filter(q));
            s.lemma_filter_len(q);
            lemma_filtered_map::<K, V>(s, self.entries(), p@);
        }
    }

    /// Takes all entries out of the map.
    pub fn clear(&mut self)
        ensures
            final(self).wf(),
            final(self).entries() == Seq::<(K::Model, V)>::empty(),
            final(self)@ == Map::<K::Model, V>::empty(),
    {
        self.keys.clear();
        self.values.clear();
        proof {
            assert(self.entries() =~= Seq::<(K::Model, V)>::empty());
            assert(self@ =~= Map::<K::Model, V>::empty());
        }
    }
}

impl<V> OrderedMap<String, V> {
    /// The value under the key that reads `key`, to be changed in place.
    pub fn get_mut_text(&mut self, key: &str) -> (r: Option<&mut V>)
        requires
            old(self).wf(),
        ensures
            r is Some <==> old(self)@.dom().contains(key@),
            final(self).wf(),
            match r {
                Some(v) => {
                    &&& *v == old(self)@[key@]
                    &&& final(self)@ == old(self)@.insert(key@, *final(v))
                    &&& final(self).count() == old(self).count()
                },
                None => *final(self) == *old(self),
            },
    {
        self.get_mut(&key.to_owned())
    }

    /// The place of the key that reads `key`, if the map has it.
    pub fn position_text(&self, key: &str) -> (r: Option<usize>)
        requires
            self.wf(),
        ensures
            r is Some <==> self@.dom().contains(key@),
            r matches Some(i) ==> {
                &&& i < self.count()
                &&& self.entries()[i as int].0 == key@
                &&& self.entries()[i as int].1 == self@[key@]
            },
    {
        self.position(&key.to_owned())
    }

    /// The value under the key that reads `key`.
    pub fn get_text(&self, key: &str) -> (r: Option<&V>)
        requires
            self.wf(),
        ensures
            r is Some <==> self@.dom().contains(key@),
            r matches Some(v) ==> *v == self@[key@],
    {
        self.get(&key.to_owned())
    }
}

/// The value at a place is the one under its key.
pub proof fn lemma_entry<K: OrderedKey, V>(s: Seq<(K::Model, V)>, i: int)
    requires
        ascending::<K, V>(s),
        0 <= i < s.len(),
    ensures
        entries_map(s).dom().contains(s[i].0),
        entries_map(s)[s[i].0] == s[i].1,
        place_of(s, s[i].0) == i,
{
    assert(has_key(s, s[i].0));
    let j = place_of(s, s[i].0);
    K::before_irreflexive(s[i].0);
}

proof fn lemma_map_update<K: OrderedKey, V>(s: Seq<(K::Model, V)>, i: int, v: V)
    requires
        ascending::<K, V>(s),
        0 <= i < s.len(),
    ensures
        ascending::<K, V>(s.update(i, (s[i].0, v))),
        entries_map(s.update(i, (s[i].0, v))) == entries_map(s).insert(s[i].0, v),
{
    let t = s.update(i, (s[i].0, v));
    let k = s[i].0;
    assert forall|a: int, b: int| 0 <= a < b < t.len() implies K::before(
        #[trigger] t[a].0,
        #[trigger] t[b].0,
    ) by {
        assert(t[a].0 == s[a].0 && t[b].0 == s[b].0);
    }
    assert forall|m: K::Model| has_key(t, m) <==> has_key(s, m) by {
        if has_key(t, m) {
            assert(s[place_of(t, m)].0 == m);
        }
        if has_key(s, m) {
            assert(t[place_of(s, m)].0 == m);
        }
    }
    lemma_entry::<K, V>(t, i);
    lemma_entry::<K, V>(s, i);
    assert forall|m: K::Model| has_key(t, m) && m != k implies entries_map(t)[m] == entries_map(
        s,
    )[m] by {
        let p = place_of(t, m);
        lemma_entry::<K, V>(t, p);
        assert(s[p].0 == m);
        lemma_entry::<K, V>(s, p);
    }
    assert(entries_map(t) =~= entries_map(s).insert(k, v));
}

proof fn lemma_map_insert<K: OrderedKey, V>(s: Seq<(K::Model, V)>, i: int, k: K::Model, v: V)
    requires
        ascending::<K, V>(s),
        0 <= i <= s.len(),
        !entries_map(s).dom().contains(k),
        forall|j: int| 0 <= j < i ==> K::before(#[trigger] s[j].0, k),
        forall|j: int| i <= j < s.len() ==> !K::before(#[trigger] s[j].0, k),
    ensures
        ascending::<K, V>(s.insert(i, (k, v))),
        entries_map(s.insert(i, (k, v))) == entries_map(s).insert(k, v),
{
    let t = s.insert(i, (k, v));
    assert forall|a: int, b: int| 0 <= a < b < t.len() implies K::before(
        #[trigger] t[a].0,
        #[trigger] t[b].0,
    ) by {
        if a == i {
            assert(t[b] == s[b - 1]);
            K::before_total(s[b - 1].0, k);
            assert(has_key(s, s[b - 1].0));
        } else if b == i {
            assert(t[a] == s[a]);
        } else {
            let a2 = if a < i { a } else { a - 1 };
            let b2 = if b < i { b } else { b - 1 };
            assert(t[a] == s[a2] && t[b] == s[b2]);
        }
    }
    assert forall|m: K::Model| has_key(t, m) <==> has_key(s, m) || m == k by {
        if has_key(t, m) && m != k {
            let p = place_of(t, m);
            assert(t[p] == s[if p < i { p } else { p - 1 }]);
            assert(s[if p < i { p } else { p - 1 }].0 == m);
        }
        if has_key(s, m) {
            let p = place_of(s, m);
            assert(t[if p < i { p } else { p + 1 }] == s[p]);
            assert(t[if p < i { p } else { p + 1 }].0 == m);
        }
        if m == k {
            assert(t[i].0 == m);
        }
    }
    lemma_entry::<K, V>(t, i);
    assert forall|m: K::Model| has_key(s, m) implies entries_map(t)[m] == entries_map(s)[m] by {
        let p = place_of(s, m);
        let q = if p < i { p } else { p + 1 };
        assert(t[q] == s[p]);
        lemma_entry::<K, V>(t, q);
        lemma_entry::<K, V>(s, p);
    }
    assert(entries_map(t) =~= entries_map(s).insert(k, v));
}

/// One more entry at the end is one more entry of the map.
pub proof fn lemma_map_push<K: OrderedKey, V>(s: Seq<(K::Model, V)>)
    requires
        ascending::<K, V>(s),
        s.len() > 0,
    ensures
        ascending::<K, V>(s.drop_last()),
        entries_map(s) == entries_map(s.drop_last()).insert(s.last().0, s.last().1),
{
    let n = s.len() - 1;
    lemma_map_remove::<K, V>(s, n);
    assert(s.remove(n) =~= s.drop_last());
    lemma_entry::<K, V>(s, n);
    assert(entries_map(s) =~= entries_map(s).remove(s[n].0).insert(s[n].0, s[n].1));
}

proof fn lemma_map_remove<K: OrderedKey, V>(s: Seq<(K::Model, V)>, i: int)
    requires
        ascending::<K, V>(s),
        0 <= i < s.len(),
    ensures
        ascending::<K, V>(s.remove(i)),
        entries_map(s.remove(i)) == entries_map(s).remove(s[i].0),
{
    let t = s.remove(i);
    let k = s[i].0;
    assert forall|a: int, b: int| 0 <= a < b < t.len() implies K::before(
        #[trigger] t[a].0,
        #[trigger] t[b].0,
    ) by {
        let a2 = if a < i { a } else { a + 1 };
        let b2 = if b < i { b } else { b + 1 };
        assert(t[a] == s[a2] && t[b] == s[b2]);
    }
    assert forall|m: K::Model| has_key(t, m) <==> has_key(s, m) && m != k by {
        if has_key(t, m) {
            let p = place_of(t, m);
            let q = if p < i { p } else { p + 1 };
            assert(t[p] == s[q]);
            assert(s[q].0 == m);
            lemma_entry::<K, V>(s, q);
            lemma_entry::<K, V>(s, i);
        }
        if has_key(s, m) && m != k {
            let p = place_of(s, m);
            let q = if p < i { p } else { p - 1 };
            assert(t[q] == s[p]);
            assert(t[q].0 == m);
        }
    }
    assert forall|m: K::Model| has_key(t, m) implies entries_map(t)[m] == entries_map(s)[m] by {
        let p = place_of(t, m);
        let q = if p < i { p } else { p + 1 };
        assert(t[p] == s[q]);
        lemma_entry::<K, V>(t, p);
        lemma_entry::<K, V>(s, q);
    }
    assert(entries_map(t) =~= entries_map(s).remove(k));
}

/// Filtering the entries by their values keeps the matching part of the map.
pub proof fn lemma_filtered_map<K: OrderedKey, V>(
    s: Seq<(K::Model, V)>,
    t: Seq<(K::Model, V)>,
    p: spec_fn(V) -> bool,
)
    requires
        ascending::<K, V>(s),
        ascending::<K, V>(t),
        t == s.filter(|e: (K::Model, V)| p(e.1)),
    ensures
        entries_map(t) == kept(entries_map(s), p),
{
    broadcast use vstd::seq_lib::group_filter_ensures;

    let q = |e: (K::Model, V)| p(e.1);
    assert forall|k: K::Model| entries_map(t).dom().contains(k) <==> kept(
        entries_map(s),
        p,
    ).dom().contains(k) by {
        if entries_map(t).dom().contains(k) {
            let i = place_of(t, k);
            crate::seqs::lemma_filter_source(s, q, i);
            let j = choose|j: int| 0 <= j < s.len() && s[j] == t[i];
            lemma_entry::<K, V>(s, j);
        }
        if kept(entries_map(s), p).dom().contains(k) {
            let j = place_of(s, k);
            assert(q(s[j]));
            assert(t.contains(s[j]));
            let i = choose|i: int| 0 <= i < t.len() && t[i] == s[j];
            lemma_entry::<K, V>(t, i);
        }
    }
    assert forall|k: K::Model| entries_map(t).dom().contains(k) implies entries_map(t)[k]
        == entries_map(s)[k] by {
        let i = place_of(t, k);
        crate::seqs::lemma_filter_source(s, q, i);
        let j = choose|j: int| 0 <= j < s.len() && s[j] == t[i];
        lemma_entry::<K, V>(s, j);
        lemma_entry::<K, V>(t, i);
    }
    assert(entries_map(t) =~= kept(entries_map(s), p));
}

/// The entries that satisfy a predicate ascend too, and there are as many as the matching part of
/// the map has keys.
pub proof fn lemma_filter_ascending<K: OrderedKey, V>(s: Seq<(K::Model, V)>, p: spec_fn(V) -> bool)
    requires
        ascending::<K, V>(s),
    ensures
        ascending::<K, V>(s.filter(|e: (K::Model, V)| p(e.1))),
        kept(entries_map(s), p).dom().len() == s.filter(|e: (K::Model, V)| p(e.1)).len(),
{
    let q = |e: (K::Model, V)| p(e.1);
    lemma_filter_keeps_order::<K, V>(s, q);
    lemma_filtered_map::<K, V>(s, s.filter(q), p);
    lemma_map_size::<K, V>(s.filter(q));
}

/// A filter keeps the order of the entries.
pub proof fn lemma_filter_keeps_order<K: OrderedKey, V>(
    s: Seq<(K::Model, V)>,
    q: spec_fn((K::Model, V)) -> bool,
)
    requires
        ascending::<K, V>(s),
    ensures
        ascending::<K, V>(s.filter(q)),
    decreases s.len(),
{
    reveal(Seq::filter);
    if s.len() > 0 {
        let init = s.drop_last();
        assert(ascending::<K, V>(init)) by {
            assert forall|i: int, j: int| 0 <= i < j < init.len() implies K::before(
                #[trigger] init[i].0,
                #[trigger] init[j].0,
            ) by {
                assert(init[i] == s[i] && init[j] == s[j]);
            }
        }
        lemma_filter_keeps_order::<K, V>(init, q);
        let t = s.filter(q);
        let f = init.filter(q);
        assert forall|i: int, j: int| 0 <= i < j < t.len() implies K::before(
            #[trigger] t[i].0,
            #[trigger] t[j].0,
        ) by {
            if j < f.len() {
                assert(t[i] == f[i] && t[j] == f[j]);
            } else {
                assert(t[i] == f[i]);
                crate::seqs::lemma_filter_source(init, q, i);
                let a = choose|a: int| 0 <= a < init.len() && init[a] == f[i];
                assert(s[a] == t[i]);
                assert(t[j] == s[s.len() - 1]);
                assert(K::before(s[a].0, s[s.len() - 1].0));
            }
        }
    }
}

/// Ascending entries are the listing of their map.
pub proof fn lemma_listing_of<K: OrderedKey, V>(s: Seq<(K::Model, V)>)
    requires
        ascending::<K, V>(s),
    ensures
        listing::<K, V>(entries_map(s)) == s,
{
    let t = listing::<K, V>(entries_map(s));
    assert(ascending::<K, V>(s) && entries_map(s) == entries_map(s));
    lemma_same_map_same_entries::<K, V>(s, t);
}

/// The place at which a key goes among ascending entries.
proof fn lemma_place_for<K: OrderedKey, V>(s: Seq<(K::Model, V)>, k: K::Model) -> (i: int)
    requires
        ascending::<K, V>(s),
    ensures
        0 <= i <= s.len(),
        forall|j: int| 0 <= j < i ==> K::before(#[trigger] s[j].0, k),
        forall|j: int| i <= j < s.len() ==> !K::before(#[trigger] s[j].0, k),
    decreases s.len(),
{
    if s.len() == 0 {
        0
    } else if K::before(s.last().0, k) {
        assert forall|j: int| 0 <= j < s.len() implies K::before(#[trigger] s[j].0, k) by {
            if j < s.len() - 1 {
                K::before_transitive(s[j].0, s[s.len() - 1].0, k);
            }
        }
        s.len() as int
    } else {
        let init = s.drop_last();
        let i = lemma_place_for::<K, V>(init, k);
        assert forall|j: int| 0 <= j < i implies K::before(#[trigger] s[j].0, k) by {
            assert(init[j] == s[j]);
        }
        assert forall|j: int| i <= j < s.len() implies !K::before(#[trigger] s[j].0, k) by {
            if j < init.len() {
                assert(init[j] == s[j]);
            }
        }
        i
    }
}

/// The listing of a finite map ascends and holds the whole map.
pub proof fn lemma_listing_whole<K: OrderedKey, V>(m: Map<K::Model, V>)
    requires
        m.dom().finite(),
    ensures
        ascending::<K, V>(listing::<K, V>(m)),
        entries_map(listing::<K, V>(m)) == m,
    decreases m.dom().len(),
{
    if m.dom().len() == 0 {
        let s = Seq::<(K::Model, V)>::empty();
        assert(m.dom() =~= Set::empty());
        assert(entries_map(s) =~= m);
        assert(ascending::<K, V>(s) && entries_map(s) == m);
    } else {
        let k = m.dom().choose();
        let rest = m.remove(k);
        assert(rest.dom() =~= m.dom().remove(k));
        lemma_listing_whole::<K, V>(rest);
        let s = listing::<K, V>(rest);
        let i = lemma_place_for::<K, V>(s, k);
        lemma_map_insert::<K, V>(s, i, k, m[k]);
        let t = s.insert(i, (k, m[k]));
        assert(rest.insert(k, m[k]) =~= m);
        assert(ascending::<K, V>(t) && entries_map(t) == m);
    }
}

/// The listing of a mapped map is the mapped listing.
pub proof fn lemma_listing_mapped<K: OrderedKey, V, W>(s: Seq<(K::Model, V)>, f: spec_fn(V) -> W)
    requires
        ascending::<K, V>(s),
    ensures
        listing::<K, W>(mapped(entries_map(s), f)) == s.map_values(
            |e: (K::Model, V)| (e.0, f(e.1)),
        ),
{
    let t = s.map_values(|e: (K::Model, V)| (e.0, f(e.1)));
    assert(ascending::<K, W>(t)) by {
        assert forall|i: int, j: int| 0 <= i < j < t.len() implies K::before(
            #[trigger] t[i].0,
            #[trigger] t[j].0,
        ) by {
            assert(t[i].0 == s[i].0 && t[j].0 == s[j].0);
        }
    }
    assert forall|k: K::Model| entries_map(t).dom().contains(k) <==> entries_map(s).dom().contains(
        k,
    ) by {
        if has_key(t, k) {
            assert(s[place_of(t, k)].0 == k);
        }
        if has_key(s, k) {
            assert(t[place_of(s, k)].0 == k);
        }
    }
    assert forall|k: K::Model| entries_map(s).dom().contains(k) implies entries_map(t)[k] == f(
        entries_map(s)[k],
    ) by {
        let i = place_of(s, k);
        assert(t[i].0 == k);
        lemma_entry::<K, V>(s, i);
        lemma_entry::<K, W>(t, i);
    }
    assert(entries_map(t) =~= mapped(entries_map(s), f));
    lemma_listing_of::<K, W>(t);
}

/// Mapping and inserting go together.
pub proof fn lemma_mapped_insert<M, V, W>(m: Map<M, V>, k: M, v: V, f: spec_fn(V) -> W)
    ensures
        mapped(m.insert(k, v), f) == mapped(m, f).insert(k, f(v)),
{
    assert(mapped(m.insert(k, v), f) =~= mapped(m, f).insert(k, f(v)));
}

/// Mapping and removing go together.
pub proof fn lemma_mapped_remove<M, V, W>(m: Map<M, V>, k: M, f: spec_fn(V) -> W)
    ensures
        mapped(m.remove(k), f) == mapped(m, f).remove(k),
{
    assert(mapped(m.remove(k), f) =~= mapped(m, f).remove(k));
}

/// The map of ascending entries has as many keys as there are entries.
pub proof fn lemma_map_size<K: OrderedKey, V>(s: Seq<(K::Model, V)>)
    requires
        ascending::<K, V>(s),
    ensures
        entries_map(s).dom().finite(),
        entries_map(s).dom().len() == s.len(),
    decreases s.len(),
{
    if s.len() == 0 {
        assert(entries_map(s).dom() =~= Set::<K::Model>::empty());
    } else {
        let i = s.len() - 1;
        lemma_map_remove::<K, V>(s, i);
        lemma_map_size::<K, V>(s.remove(i));
        lemma_entry::<K, V>(s, i);
        assert(entries_map(s).remove(s[i].0).dom() =~= entries_map(s).dom().remove(s[i].0));
        assert(entries_map(s).dom() =~= entries_map(s.remove(i)).dom().insert(s[i].0));
    }
}

proof fn lemma_same_map_same_entries<K: OrderedKey, V>(
    s: Seq<(K::Model, V)>,
    t: Seq<(K::Model, V)>,
)
    requires
        ascending::<K, V>(s),
        ascending::<K, V>(t),
        entries_map(s) == entries_map(t),
    ensures
        s == t,
    decreases s.len(),
{
    lemma_map_size::<K, V>(s);
    lemma_map_size::<K, V>(t);
    if s.len() == 0 {
        assert(s =~= t);
    } else {
        let n = s.len() - 1;
        lemma_entry::<K, V>(s, n);
        lemma_entry::<K, V>(t, n);
        let p = place_of(t, s[n].0);
        let q = place_of(s, t[n].0);
        assert(has_key(t, s[n].0));
        assert(has_key(s, t[n].0));
        if p != n {
            assert(K::before(t[p].0, t[n].0));
            if q != n {
                K::before_transitive(s[q].0, s[n].0, t[n].0);
            }
            K::before_irreflexive(t[n].0);
        }
        lemma_map_remove::<K, V>(s, n);
        lemma_map_remove::<K, V>(t, n);
        lemma_same_map_same_entries::<K, V>(s.remove(n), t.remove(n));
        assert(s =~= s.remove(n).push(s[n]));
        assert(t =~= t.remove(n).push(t[n]));
    }
}

} // verus!
