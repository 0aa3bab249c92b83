//! Spec-level helpers for describing slot sequences: a storage backend is
//! modelled as a sequence of slots, each either holding an element (`Some`)
//! or vacant (`None`).

use vstd::prelude::*;

verus! {

/// Every slot in `[a, b)` holds an element.
pub open spec fn filled<T>(s: Seq<Option<T>>, a: int, b: int) -> bool {
    forall|i: int| a <= i < b ==> s[i] is Some
}

/// Every slot in `[a, b)` is vacant.
pub open spec fn vacant<T>(s: Seq<Option<T>>, a: int, b: int) -> bool {
    forall|i: int| a <= i < b ==> s[i] is None
}

/// The elements held by the slots `[a, b)`, in order.
pub open spec fn extract<T>(s: Seq<Option<T>>, a: int, b: int) -> Seq<T> {
    Seq::new(if a <= b { (b - a) as nat } else { 0 }, |i: int| s[a + i]->0)
}

/// The subsequence of `s` at the positions where `keep` is true, in order.
pub open spec fn filter_by<T>(s: Seq<T>, keep: Seq<bool>) -> Seq<T>
    recommends
        s.len() == keep.len(),
    decreases s.len(),
{
    if s.len() == 0 {
        Seq::empty()
    } else {
        filter_by(s.drop_last(), keep.drop_last()) + if keep.last() {
            seq![s.last()]
        } else {
            Seq::empty()
        }
    }
}

/// The subsequence of `s` at the positions where `keep` is false, in order.
pub open spec fn reject_by<T>(s: Seq<T>, keep: Seq<bool>) -> Seq<T>
    recommends
        s.len() == keep.len(),
    decreases s.len(),
{
    if s.len() == 0 {
        Seq::empty()
    } else {
        reject_by(s.drop_last(), keep.drop_last()) + if keep.last() {
            Seq::empty()
        } else {
            seq![s.last()]
        }
    }
}

/// The sequence left after removing consecutive duplicates, driven by the
/// decisions `same`: element `i` of `s` (for `i >= 1`) was compared against
/// the last element kept so far, and is dropped exactly when `same[i - 1]`
/// is true. The first element is always kept.
pub open spec fn dedup_by_model<T>(s: Seq<T>, same: Seq<bool>) -> Seq<T>
    recommends
        s.len() == 0 || same.len() + 1 == s.len(),
    decreases s.len(),
{
    if s.len() <= 1 {
        s
    } else {
        let prev = dedup_by_model(s.drop_last(), same.drop_last());
        if same.last() {
            prev
        } else {
            prev.push(s.last())
        }
    }
}

/// A sequence that agrees with another on a prefix, stated slot by slot.
pub proof fn lemma_subrange_eq_pointwise<T>(a: Seq<T>, b: Seq<T>)
    requires
        b.len() <= a.len(),
        a.subrange(0, b.len() as int) == b,
    ensures
        forall|i: int| 0 <= i < b.len() ==> a[i] == b[i],
{
    assert forall|i: int| 0 <= i < b.len() implies a[i] == b[i] by {
        assert(a.subrange(0, b.len() as int)[i] == a[i]);
    }
}

/// Extending both the elements and the decisions by one step extends the
/// filtered subsequences by at most that element.
pub proof fn lemma_filter_by_push<T>(s: Seq<T>, keep: Seq<bool>, x: T, b: bool)
    requires
        s.len() == keep.len(),
    ensures
        filter_by(s.push(x), keep.push(b)) == filter_by(s, keep) + if b {
            seq![x]
        } else {
            Seq::<T>::empty()
        },
        reject_by(s.push(x), keep.push(b)) == reject_by(s, keep) + if b {
            Seq::<T>::empty()
        } else {
            seq![x]
        },
{
    assert(s.push(x).drop_last() =~= s);
    assert(keep.push(b).drop_last() =~= keep);
}

} // verus!
