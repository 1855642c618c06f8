//! Facts about sequences that several modules share.

use vstd::prelude::*;

use crate::byte_order::{
    bytes_before, lemma_bytes_before_asymmetric, lemma_bytes_before_irreflexive,
};

verus! {

/// Filtering one more element of a prefix.
pub proof fn lemma_filter_step<A>(s: Seq<A>, k: int, p: spec_fn(A) -> bool)
    requires
        0 <= k < s.len(),
    ensures
        s.take(k + 1).filter(p) == if p(s[k]) {
            s.take(k).filter(p).push(s[k])
        } else {
            s.take(k).filter(p)
        },
{
    reveal(Seq::filter);
    assert(s.take(k + 1).drop_last() =~= s.take(k));
}

/// What a filter lets through was there before, and satisfies the predicate.
pub proof fn lemma_filter_source<A>(s: Seq<A>, p: spec_fn(A) -> bool, i: int)
    requires
        0 <= i < s.filter(p).len(),
    ensures
        s.contains(s.filter(p)[i]),
        p(s.filter(p)[i]),
    decreases s.len(),
{
    reveal(Seq::filter);
    if s.len() > 0 {
        let init = s.drop_last();
        if i < init.filter(p).len() {
            lemma_filter_source(init, p, i);
            let j = choose|j: int| 0 <= j < init.len() && init[j] == init.filter(p)[i];
            assert(s[j] == s.filter(p)[i]);
        } else {
            assert(s[s.len() - 1] == s.filter(p)[i]);
        }
    }
}

/// Mapping a sequence with one more element.
pub proof fn lemma_map_values_push<A, B>(s: Seq<A>, x: A, f: spec_fn(A) -> B)
    ensures
        s.push(x).map_values(f) == s.map_values(f).push(f(x)),
{
    assert(s.push(x).map_values(f) =~= s.map_values(f).push(f(x)));
}

/// Byte strings in strictly ascending order.
pub open spec fn bytes_ascend(s: Seq<Seq<u8>>) -> bool {
    forall|i: int, j: int| 0 <= i < j < s.len() ==> bytes_before(#[trigger] s[i], #[trigger] s[j])
}

/// A strictly ascending list is determined by the set of its elements.
pub proof fn lemma_ascending_list_unique(s: Seq<Seq<u8>>, t: Seq<Seq<u8>>)
    requires
        bytes_ascend(s),
        bytes_ascend(t),
        forall|x: Seq<u8>| s.contains(x) <==> t.contains(x),
    ensures
        s == t,
    decreases s.len(),
{
    if s.len() == 0 {
        if t.len() > 0 {
            assert(t.contains(t[0]));
            assert(s.contains(t[0]));
        }
        assert(s =~= t);
    } else if t.len() == 0 {
        assert(s.contains(s[0]));
        assert(t.contains(s[0]));
    } else {
        let m = s.len() - 1;
        let n = t.len() - 1;
        assert(s.contains(s[m]));
        assert(t.contains(t[n]));
        let p = choose|p: int| 0 <= p < t.len() && t[p] == s[m];
        let q = choose|q: int| 0 <= q < s.len() && s[q] == t[n];
        if p < n {
            assert(bytes_before(t[p], t[n]));
            lemma_bytes_before_asymmetric(t[p], t[n]);
            if q < m {
                assert(bytes_before(s[q], s[m]));
            }
            lemma_bytes_before_irreflexive(t[n]);
        }
        assert(s[m] == t[n]);
        assert forall|x: Seq<u8>| s.drop_last().contains(x) <==> t.drop_last().contains(x) by {
            if s.drop_last().contains(x) {
                let i = choose|i: int| 0 <= i < s.drop_last().len() && s.drop_last()[i] == x;
                assert(s[i] == x);
                assert(bytes_before(s[i], s[m]));
                lemma_bytes_before_irreflexive(x);
                assert(t.contains(x));
                let j = choose|j: int| 0 <= j < t.len() && t[j] == x;
                assert(t.drop_last()[j] == x);
            }
            if t.drop_last().contains(x) {
                let i = choose|i: int| 0 <= i < t.drop_last().len() && t.drop_last()[i] == x;
                assert(t[i] == x);
                assert(bytes_before(t[i], t[n]));
                lemma_bytes_before_irreflexive(x);
                assert(s.contains(x));
                let j = choose|j: int| 0 <= j < s.len() && s[j] == x;
                assert(s.drop_last()[j] == x);
            }
        }
        lemma_ascending_list_unique(s.drop_last(), t.drop_last());
        assert(s =~= s.drop_last().push(s[m]));
        assert(t =~= t.drop_last().push(t[n]));
    }
}

/// The byte strings of a list, one behind the other.
pub open spec fn joined(s: Seq<Seq<u8>>) -> Seq<u8>
    decreases s.len(),
{
    if s.len() == 0 {
        Seq::empty()
    } else {
        joined(s.drop_last()) + s.last()
    }
}

} // verus!
