//! Stable insertion order, stated once for every ordering the library sorts by.
use vstd::prelude::*;

verus! {

/// `s` with `x` inserted after every element `e` with `le(e, x)` counted from the end:
/// for a sorted `s`, at its place after its equals.
pub open spec fn insert_by<A>(s: Seq<A>, x: A, le: spec_fn(A, A) -> bool) -> Seq<A>
    decreases s.len(),
{
    if s.len() == 0 {
        seq![x]
    } else if le(s.last(), x) {
        s.push(x)
    } else {
        insert_by(s.drop_last(), x, le).push(s.last())
    }
}

/// Stable sort: the elements of `s` inserted one after the other, in order.
pub open spec fn sort_by<A>(s: Seq<A>, le: spec_fn(A, A) -> bool) -> Seq<A>
    decreases s.len(),
{
    if s.len() == 0 {
        s
    } else {
        insert_by(sort_by(s.drop_last(), le), s.last(), le)
    }
}

/// `le` is a total preorder.
pub open spec fn total_preorder<A>(le: spec_fn(A, A) -> bool) -> bool {
    &&& forall|a: A, b: A| #[trigger] le(a, b) || #[trigger] le(b, a)
    &&& forall|a: A, b: A, c: A| #[trigger] le(a, b) && #[trigger] le(b, c) ==> le(a, c)
}

/// Every element is ordered before or together with every later one.
pub open spec fn sorted_by<A>(s: Seq<A>, le: spec_fn(A, A) -> bool) -> bool {
    forall|i: int, j: int| 0 <= i < j < s.len() ==> le(#[trigger] s[i], #[trigger] s[j])
}

/// Inserting after position `j` when `s[j - 1]` is not greater than `x` and everything
/// from `j` on is.
pub proof fn lemma_insert_by_at<A>(s: Seq<A>, x: A, le: spec_fn(A, A) -> bool, j: int)
    requires
        0 <= j <= s.len(),
        j == 0 || le(s[j - 1], x),
        forall|k: int| j <= k < s.len() ==> !le(#[trigger] s[k], x),
    ensures
        insert_by(s, x, le) == s.take(j).push(x) + s.skip(j),
    decreases s.len(),
{
    if s.len() == j {
        assert(s.take(j) =~= s);
        assert(s.skip(j) =~= Seq::<A>::empty());
        if j == 0 {
            assert(s.take(j).push(x) =~= seq![x]);
        }
        assert(s.take(j).push(x) + s.skip(j) =~= s.push(x));
    } else {
        let t = s.drop_last();
        assert(!le(s[s.len() - 1], x));
        lemma_insert_by_at(t, x, le, j);
        assert(t.take(j) =~= s.take(j));
        assert(t.skip(j).push(s.last()) =~= s.skip(j));
        assert((t.take(j).push(x) + t.skip(j)).push(s.last()) =~= s.take(j).push(x) + s.skip(j));
    }
}

/// Insertion keeps the elements.
pub proof fn lemma_insert_by_multiset<A>(s: Seq<A>, x: A, le: spec_fn(A, A) -> bool)
    ensures
        insert_by(s, x, le).to_multiset() == s.to_multiset().insert(x),
    decreases s.len(),
{
    broadcast use vstd::seq_lib::group_to_multiset_ensures;

    if s.len() == 0 {
        assert(seq![x] =~= Seq::<A>::empty().push(x));
    } else if le(s.last(), x) {
    } else {
        let t = s.drop_last();
        lemma_insert_by_multiset(t, x, le);
        assert(s =~= t.push(s.last()));
        assert(s.to_multiset() == t.to_multiset().insert(s.last()));
        assert(insert_by(s, x, le).to_multiset() =~= s.to_multiset().insert(x));
    }
}

/// Insertion into a sorted sequence keeps it sorted.
pub proof fn lemma_insert_by_sorted<A>(s: Seq<A>, x: A, le: spec_fn(A, A) -> bool)
    requires
        total_preorder(le),
        sorted_by(s, le),
    ensures
        sorted_by(insert_by(s, x, le), le),
        insert_by(s, x, le).len() == s.len() + 1,
        forall|k: int|
            0 <= k < insert_by(s, x, le).len() ==> #[trigger] insert_by(s, x, le)[k] == x
                || s.contains(insert_by(s, x, le)[k]),
    decreases s.len(),
{
    let r = insert_by(s, x, le);
    if s.len() == 0 {
    } else if le(s.last(), x) {
        assert forall|i: int, j: int| 0 <= i < j < r.len() implies le(
            #[trigger] r[i],
            #[trigger] r[j],
        ) by {
            if j == r.len() - 1 {
                if i < s.len() - 1 {
                    assert(le(s[i], s[s.len() - 1]));
                }
            }
        }
        assert forall|k: int| 0 <= k < r.len() implies #[trigger] r[k] == x || s.contains(r[k]) by {
            if k < s.len() {
                assert(s[k] == r[k]);
            }
        }
    } else {
        let t = s.drop_last();
        assert(sorted_by(t, le)) by {
            assert forall|i: int, j: int| 0 <= i < j < t.len() implies le(
                #[trigger] t[i],
                #[trigger] t[j],
            ) by {
                assert(t[i] == s[i] && t[j] == s[j]);
            }
        }
        lemma_insert_by_sorted(t, x, le);
        let q = insert_by(t, x, le);
        assert(le(x, s.last()));
        assert forall|k: int| 0 <= k < q.len() implies le(#[trigger] q[k], s.last()) by {
            if q[k] == x {
            } else {
                assert(t.contains(q[k]));
                let m = choose|m: int| 0 <= m < t.len() && t[m] == q[k];
                assert(le(s[m], s[s.len() - 1]));
            }
        }
        assert forall|i: int, j: int| 0 <= i < j < r.len() implies le(
            #[trigger] r[i],
            #[trigger] r[j],
        ) by {
            if j == r.len() - 1 {
                assert(r[i] == q[i]);
            } else {
                assert(r[i] == q[i] && r[j] == q[j]);
            }
        }
        assert forall|k: int| 0 <= k < r.len() implies #[trigger] r[k] == x || s.contains(r[k]) by {
            if k == r.len() - 1 {
                assert(s[s.len() - 1] == r[k]);
            } else {
                assert(r[k] == q[k]);
                if q[k] != x {
                    let m = choose|m: int| 0 <= m < t.len() && t[m] == q[k];
                    assert(s[m] == t[m]);
                }
            }
        }
    }
}

/// Law: the stable sort of `s` holds the elements of `s`, each as often as `s` does.
pub proof fn lemma_sort_by_permutation<A>(s: Seq<A>, le: spec_fn(A, A) -> bool)
    ensures
        sort_by(s, le).to_multiset() == s.to_multiset(),
        sort_by(s, le).len() == s.len(),
    decreases s.len(),
{
    broadcast use vstd::seq_lib::group_to_multiset_ensures;

    if s.len() > 0 {
        let t = s.drop_last();
        lemma_sort_by_permutation(t, le);
        lemma_insert_by_multiset(sort_by(t, le), s.last(), le);
        assert(s =~= t.push(s.last()));
        assert(sort_by(s, le).len() == sort_by(s, le).to_multiset().len());
    }
}

/// Law: for a total preorder, the stable sort is ordered.
pub proof fn lemma_sort_by_sorted<A>(s: Seq<A>, le: spec_fn(A, A) -> bool)
    requires
        total_preorder(le),
    ensures
        sorted_by(sort_by(s, le), le),
    decreases s.len(),
{
    if s.len() > 0 {
        lemma_sort_by_sorted(s.drop_last(), le);
        lemma_insert_by_sorted(sort_by(s.drop_last(), le), s.last(), le);
    }
}

} // verus!
