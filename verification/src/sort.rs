//! A small stable sorting theory: an insertion sort as a spec
//! function, with the lemmas the executable sorts use to prove their
//! results equal to it, sorted, and a permutation of their input.

use vstd::prelude::*;

verus! {

use vstd::seq_lib::group_to_multiset_ensures;

/// `x` inserted into `s` from the right, moving past exactly the
/// elements strictly greater than it: after all elements it does not
/// precede, before all it does.  Inserting after equal elements is
/// what makes the sort stable.
pub open spec fn insert_by<T>(s: Seq<T>, x: T, lt: spec_fn(T, T) -> bool) -> Seq<T>
    decreases s.len(),
{
    if s.len() > 0 && lt(x, s.last()) {
        insert_by(s.drop_last(), x, lt).push(s.last())
    } else {
        s.push(x)
    }
}

/// `s` sorted stably by the strict order `lt`: each element, in input
/// order, inserted into the sorted prefix.
pub open spec fn sort_by_insertion<T>(s: Seq<T>, lt: spec_fn(T, T) -> bool) -> Seq<T>
    decreases s.len(),
{
    if s.len() == 0 {
        Seq::empty()
    } else {
        insert_by(sort_by_insertion(s.drop_last(), lt), s.last(), lt)
    }
}

/// No element is strictly before its left neighbour.
pub open spec fn sorted_adjacent<T>(s: Seq<T>, lt: spec_fn(T, T) -> bool) -> bool {
    forall|i: int| #![trigger s[i]] 0 <= i < s.len() - 1 ==> !lt(s[i + 1], s[i])
}

/// Where the insertion lands: if everything from position `k` on is
/// strictly greater than `x` and the element before `k` (when there
/// is one) is not, then `x` ends up exactly at position `k`.
pub proof fn lemma_insert_by_position<T>(s: Seq<T>, x: T, lt: spec_fn(T, T) -> bool, k: int)
    requires
        0 <= k <= s.len(),
        forall|i: int| k <= i < s.len() ==> lt(x, #[trigger] s[i]),
        k > 0 ==> !lt(x, s[k - 1]),
    ensures
        insert_by(s, x, lt) == s.subrange(0, k) + seq![x] + s.subrange(k, s.len() as int),
    decreases s.len(),
{
    if s.len() > 0 && lt(x, s.last()) {
        assert(k < s.len());
        assert(forall|i: int| k <= i < s.drop_last().len() ==> lt(x, #[trigger] s.drop_last()[i]));
        lemma_insert_by_position(s.drop_last(), x, lt, k);
        assert(s.drop_last().subrange(0, k) =~= s.subrange(0, k));
        assert((s.subrange(0, k) + seq![x] + s.drop_last().subrange(
            k,
            s.len() - 1,
        )).push(s.last()) =~= s.subrange(0, k) + seq![x] + s.subrange(k, s.len() as int));
    } else {
        if k < s.len() {
            assert(lt(x, s[s.len() - 1]));
            assert(false);
        }
        assert(s.push(x) =~= s.subrange(0, k) + seq![x] + s.subrange(k, s.len() as int));
    }
}

/// Inserting into a sorted sequence keeps it sorted, provided the
/// order is asymmetric.
pub proof fn lemma_insert_by_sorted<T>(s: Seq<T>, x: T, lt: spec_fn(T, T) -> bool)
    requires
        sorted_adjacent(s, lt),
        forall|a: T, b: T| #[trigger] lt(a, b) ==> !lt(b, a),
    ensures
        sorted_adjacent(insert_by(s, x, lt), lt),
    decreases s.len(),
{
    if s.len() > 0 && lt(x, s.last()) {
        assert(sorted_adjacent(s.drop_last(), lt)) by {
            assert(forall|i: int|
                0 <= i < s.drop_last().len() - 1 ==> s.drop_last()[i] == s[i]
                    && #[trigger] s.drop_last()[i + 1] == s[i + 1]);
        }
        lemma_insert_by_sorted(s.drop_last(), x, lt);
        let r0 = insert_by(s.drop_last(), x, lt);
        let r = r0.push(s.last());
        assert(r0.len() > 0);
        // the element now adjacent to `s.last()` is either `x` or the
        // old neighbour of `s.last()`; neither comes after it
        if s.drop_last().len() > 0 && lt(x, s.drop_last().last()) {
            assert(r0.last() == s.drop_last().last());
            assert(!lt(s.last(), r0.last())) by {
                assert(s[s.len() - 1] == s.last());
                assert(s[s.len() - 2] == s.drop_last().last());
            }
        } else {
            assert(r0.last() == x);
        }
        assert forall|i: int| #![trigger r[i]] 0 <= i < r.len() - 1 implies !lt(r[i + 1], r[i]) by {
            if i < r0.len() - 1 {
                assert(!lt(r0[i + 1], r0[i]));
            }
        }
    } else {
        let r = s.push(x);
        assert forall|i: int| #![trigger r[i]] 0 <= i < r.len() - 1 implies !lt(r[i + 1], r[i]) by {
            if i < s.len() - 1 {
                assert(!lt(s[i + 1], s[i]));
            }
        }
    }
}

/// Insertion adds exactly one occurrence of the inserted element.
pub proof fn lemma_insert_by_multiset<T>(s: Seq<T>, x: T, lt: spec_fn(T, T) -> bool)
    ensures
        insert_by(s, x, lt).to_multiset() == s.to_multiset().insert(x),
    decreases s.len(),
{
    broadcast use group_to_multiset_ensures;

    if s.len() > 0 && lt(x, s.last()) {
        lemma_insert_by_multiset(s.drop_last(), x, lt);
        assert(s.drop_last().push(s.last()) =~= s);
        assert(s.drop_last().to_multiset().insert(x).insert(s.last())
            =~= s.drop_last().to_multiset().insert(s.last()).insert(x));
    }
}

/// The sorted sequence is sorted and holds exactly the input's
/// elements.
pub proof fn lemma_sort_by_insertion_ensures<T>(s: Seq<T>, lt: spec_fn(T, T) -> bool)
    requires
        forall|a: T, b: T| #[trigger] lt(a, b) ==> !lt(b, a),
    ensures
        sorted_adjacent(sort_by_insertion(s, lt), lt),
        sort_by_insertion(s, lt).to_multiset() == s.to_multiset(),
        sort_by_insertion(s, lt).len() == s.len(),
    decreases s.len(),
{
    broadcast use group_to_multiset_ensures;

    if s.len() == 0 {
        assert(sort_by_insertion(s, lt) =~= Seq::<T>::empty());
        assert(Seq::<T>::empty().to_multiset() =~= s.to_multiset());
    } else {
        lemma_sort_by_insertion_ensures(s.drop_last(), lt);
        let sorted_prefix = sort_by_insertion(s.drop_last(), lt);
        lemma_insert_by_sorted(sorted_prefix, s.last(), lt);
        lemma_insert_by_multiset(sorted_prefix, s.last(), lt);
        assert(s.drop_last().push(s.last()) =~= s);
        assert(sort_by_insertion(s, lt).to_multiset() == s.to_multiset()) by {
            assert(insert_by(sorted_prefix, s.last(), lt).to_multiset() == sorted_prefix
                .to_multiset()
                .insert(s.last()));
        }
        assert(sort_by_insertion(s, lt).len() == sort_by_insertion(s, lt).to_multiset().len());
        assert(s.len() == s.to_multiset().len());
    }
}

} // verus!
