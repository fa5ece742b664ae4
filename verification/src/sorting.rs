//! Stable insertion sort, stated as a fold: each element in turn goes
//! before the first element it precedes.
use vstd::prelude::*;

verus! {

/// Where `e` goes in `s`: before the first element it precedes.
pub open spec fn insert_index<T>(s: Seq<T>, e: T, before: spec_fn(T, T) -> bool) -> int
    decreases s.len(),
{
    if s.len() == 0 {
        0
    } else if before(e, s[0]) {
        0
    } else {
        1 + insert_index(s.drop_first(), e, before)
    }
}

/// `s` sorted by `before`, each element inserted in turn.
pub open spec fn insertion_sort<T>(s: Seq<T>, before: spec_fn(T, T) -> bool) -> Seq<T>
    decreases s.len(),
{
    if s.len() == 0 {
        Seq::empty()
    } else {
        let r = insertion_sort(s.drop_last(), before);
        r.insert(insert_index(r, s.last(), before), s.last())
    }
}

pub proof fn lemma_insert_index_bounds<T>(s: Seq<T>, e: T, before: spec_fn(T, T) -> bool)
    ensures
        0 <= insert_index(s, e, before) <= s.len(),
    decreases s.len(),
{
    if s.len() > 0 && !before(e, s[0]) {
        lemma_insert_index_bounds(s.drop_first(), e, before);
    }
}

/// Sorting keeps the number of elements.
pub proof fn lemma_sort_len<T>(s: Seq<T>, before: spec_fn(T, T) -> bool)
    ensures
        insertion_sort(s, before).len() == s.len(),
    decreases s.len(),
{
    if s.len() > 0 {
        lemma_sort_len(s.drop_last(), before);
        lemma_insert_index_bounds(insertion_sort(s.drop_last(), before), s.last(), before);
    }
}

/// Sorting keeps the elements, each as often as it occurs.
pub proof fn lemma_sort_permutes<T>(s: Seq<T>, before: spec_fn(T, T) -> bool)
    ensures
        insertion_sort(s, before).to_multiset() == s.to_multiset(),
    decreases s.len(),
{
    broadcast use vstd::seq_lib::group_to_multiset_ensures;

    if s.len() > 0 {
        let r = insertion_sort(s.drop_last(), before);
        lemma_sort_permutes(s.drop_last(), before);
        lemma_insert_index_bounds(r, s.last(), before);
        let k = insert_index(r, s.last(), before);
        r.to_multiset_ensures();
        assert(r.insert(k, s.last()) == r.take(k) + seq![s.last()] + r.skip(k));
        assert(r == r.take(k) + r.skip(k));
        vstd::seq_lib::lemma_multiset_commutative(r.take(k), r.skip(k));
        vstd::seq_lib::lemma_multiset_commutative(r.take(k) + seq![s.last()], r.skip(k));
        vstd::seq_lib::lemma_multiset_commutative(r.take(k), seq![s.last()]);
        assert(s == s.drop_last().push(s.last()));
    }
}

/// In a sequence sorted by a strict total order, `before` never puts a
/// later element ahead of an earlier one.
pub open spec fn sorted_by<T>(s: Seq<T>, before: spec_fn(T, T) -> bool) -> bool {
    forall|i: int, j: int| 0 <= i < j < s.len() ==> !before(#[trigger] s[j], #[trigger] s[i])
}

/// `before` is a strict total order:
/// irreflexive, transitive, and total on distinct values.
pub open spec fn strict_total<T>(before: spec_fn(T, T) -> bool) -> bool {
    &&& forall|a: T| !#[trigger] before(a, a)
    &&& forall|a: T, b: T, c: T| #[trigger] before(a, b) && #[trigger] before(b, c) ==> before(a, c)
    &&& forall|a: T, b: T| a != b ==> #[trigger] before(a, b) || before(b, a)
}

proof fn lemma_insert_keeps_sorted<T>(r: Seq<T>, e: T, before: spec_fn(T, T) -> bool)
    requires
        strict_total(before),
        sorted_by(r, before),
    ensures
        sorted_by(r.insert(insert_index(r, e, before), e), before),
        forall|j: int| 0 <= j < insert_index(r, e, before) ==> !before(e, #[trigger] r[j]),
        insert_index(r, e, before) < r.len() ==> before(e, r[insert_index(r, e, before)]),
    decreases r.len(),
{
    lemma_insert_index_bounds(r, e, before);
    let k = insert_index(r, e, before);
    if r.len() == 0 {
    } else if before(e, r[0]) {
        let t = r.insert(0, e);
        assert forall|i: int, j: int| 0 <= i < j < t.len() implies !before(
            #[trigger] t[j],
            #[trigger] t[i],
        ) by {
            if i == 0 {
                if before(t[j], e) {
                    assert(t[j] == r[j - 1]);
                    if j - 1 > 0 {
                        assert(!before(r[j - 1], r[0]));
                        assert(before(r[j - 1], r[0]));
                    } else {
                        assert(!before(e, e));
                    }
                }
            } else {
                assert(t[i] == r[i - 1] && t[j] == r[j - 1]);
            }
        }
    } else {
        let tail = r.drop_first();
        assert(sorted_by(tail, before)) by {
            assert forall|i: int, j: int| 0 <= i < j < tail.len() implies !before(
                #[trigger] tail[j],
                #[trigger] tail[i],
            ) by {
                assert(tail[i] == r[i + 1] && tail[j] == r[j + 1]);
            }
        }
        lemma_insert_keeps_sorted(tail, e, before);
        lemma_insert_index_bounds(tail, e, before);
        let k1 = insert_index(tail, e, before);
        assert(k == 1 + k1);
        let t1 = tail.insert(k1, e);
        let t = r.insert(k, e);
        assert(t =~= seq![r[0]] + t1);
        assert forall|j: int| 0 <= j < k implies !before(e, #[trigger] r[j]) by {
            if j > 0 {
                assert(r[j] == tail[j - 1]);
            }
        }
        assert forall|i: int, j: int| 0 <= i < j < t.len() implies !before(
            #[trigger] t[j],
            #[trigger] t[i],
        ) by {
            if i == 0 {
                assert(t[0] == r[0]);
                if j == k {
                    assert(t[j] == e);
                } else if j < k {
                    assert(t[j] == r[j]);
                } else {
                    assert(t[j] == r[j - 1]);
                }
            } else {
                assert(t[i] == t1[i - 1] && t[j] == t1[j - 1]);
            }
        }
        if k < r.len() {
            assert(k1 < tail.len());
            assert(tail[k1] == r[k1 + 1]);
        }
    }
}

/// Insertion sort by a strict total order gives a sorted sequence.
pub proof fn lemma_sort_sorted<T>(s: Seq<T>, before: spec_fn(T, T) -> bool)
    requires
        strict_total(before),
    ensures
        sorted_by(insertion_sort(s, before), before),
    decreases s.len(),
{
    if s.len() > 0 {
        lemma_sort_sorted(s.drop_last(), before);
        lemma_insert_keeps_sorted(insertion_sort(s.drop_last(), before), s.last(), before);
    }
}

} // verus!
