//! The laws the buffer and its bulk policies obey, stated and proved once
//! over the spec functions their contracts use.

use crate::seqs::{filter_by, reject_by};
use crate::storage::Storage;
use crate::vec::GenericVec;
use vstd::prelude::*;

verus! {

/// For every well-formed buffer — and every public operation returns one —
/// the length never exceeds the capacity, and every index below the length
/// holds an element that can be read.
pub proof fn lemma_buffer_invariant<T, S: Storage<T>>(v: &GenericVec<T, S>)
    requires
        v.wf(),
    ensures
        v@.len() <= v.spec_capacity(),
        forall|i: int| 0 <= i < v@.len() ==> v.spec_storage().slots()[i] is Some,
{
}

/// Draining the full range removes everything and yields the original
/// elements in order; appending that drained sequence back restores the
/// original contents and length.
pub proof fn lemma_drain_all_then_extend_restores<T>(s: Seq<T>)
    ensures
        (s.take(0) + s.skip(s.len() as int)) + s.subrange(0, s.len() as int) == s,
{
    assert((s.take(0) + s.skip(s.len() as int)) + s.subrange(0, s.len() as int) =~= s);
}

/// Keeping the elements a predicate accepts is the whole story of `retain`:
/// if the predicate accepted everything, nothing changes.
pub proof fn lemma_retain_all_is_no_op<T>(s: Seq<T>, dec: Seq<bool>)
    requires
        dec.len() == s.len(),
        forall|i: int| 0 <= i < dec.len() ==> dec[i],
    ensures
        filter_by(s, dec) == s,
    decreases s.len(),
{
    if s.len() == 0 {
        assert(filter_by(s, dec) =~= s);
    } else {
        lemma_retain_all_is_no_op(s.drop_last(), dec.drop_last());
        assert(filter_by(s, dec) =~= s);
    }
}

/// If the predicate rejected everything, `retain` empties the buffer.
pub proof fn lemma_retain_none_empties<T>(s: Seq<T>, dec: Seq<bool>)
    requires
        dec.len() == s.len(),
        forall|i: int| 0 <= i < dec.len() ==> !dec[i],
    ensures
        filter_by(s, dec) == Seq::<T>::empty(),
    decreases s.len(),
{
    if s.len() == 0 {
        assert(filter_by(s, dec) =~= Seq::<T>::empty());
    } else {
        lemma_retain_none_empties(s.drop_last(), dec.drop_last());
        assert(filter_by(s, dec) =~= Seq::<T>::empty());
    }
}

/// A splice whose replacement is exactly as long as the removed range is an
/// in-place overwrite of that sub-range: same length, replaced inside the
/// range, untouched outside it.
pub proof fn lemma_splice_same_length_overwrites<T>(s: Seq<T>, start: int, end: int, r: Seq<T>)
    requires
        0 <= start <= end <= s.len(),
        r.len() == end - start,
    ensures
        (s.take(start) + r + s.skip(end)).len() == s.len(),
        forall|i: int|
            0 <= i < s.len() ==> (s.take(start) + r + s.skip(end))[i] == (if start <= i < end {
                r[i - start]
            } else {
                s[i]
            }),
{
}

/// The decisions of a drain-filter whose predicate computes `p` partition
/// the original sequence: the yielded elements are exactly those satisfying
/// `p`, in order, and the elements left behind are exactly those satisfying
/// its negation `q`, in order.
pub proof fn lemma_drain_filter_partitions<T>(
    s: Seq<T>,
    dec: Seq<bool>,
    p: spec_fn(T) -> bool,
    q: spec_fn(T) -> bool,
)
    requires
        dec.len() == s.len(),
        forall|i: int| 0 <= i < s.len() ==> dec[i] == p(s[i]),
        forall|x: T| #[trigger] q(x) == !p(x),
    ensures
        filter_by(s, dec) == s.filter(p),
        reject_by(s, dec) == s.filter(q),
{
    lemma_filter_by_matches(s, dec, p);
    lemma_reject_by_matches(s, dec, q);
}

/// The accepted side of the partition, by itself.
proof fn lemma_filter_by_matches<T>(s: Seq<T>, dec: Seq<bool>, p: spec_fn(T) -> bool)
    requires
        dec.len() == s.len(),
        forall|i: int| 0 <= i < s.len() ==> dec[i] == p(s[i]),
    ensures
        filter_by(s, dec) == s.filter(p),
    decreases s.len(),
{
    if s.len() == 0 {
        assert(filter_by(s, dec) == s.filter(p));
    } else {
        lemma_filter_by_matches(s.drop_last(), dec.drop_last(), p);
        let a = filter_by(s.drop_last(), dec.drop_last());
        assert(dec.last() == p(s.last()));
        reveal_with_fuel(Seq::filter, 2);
        assert(s.filter(p) == if p(s.last()) {
            s.drop_last().filter(p).push(s.last())
        } else {
            s.drop_last().filter(p)
        });
        if dec.last() {
            assert(filter_by(s, dec) == a + seq![s.last()]);
            assert(s.filter(p) == a.push(s.last()));
            assert(a + seq![s.last()] =~= a.push(s.last()));
        } else {
            assert(filter_by(s, dec) == a + Seq::<T>::empty());
            assert(a + Seq::<T>::empty() =~= a);
        }
    }
}

/// The rejected side of the partition, by itself; `q` stands for the
/// negated predicate.
proof fn lemma_reject_by_matches<T>(s: Seq<T>, dec: Seq<bool>, q: spec_fn(T) -> bool)
    requires
        dec.len() == s.len(),
        forall|i: int| 0 <= i < s.len() ==> dec[i] == !q(s[i]),
    ensures
        reject_by(s, dec) == s.filter(q),
    decreases s.len(),
{
    if s.len() == 0 {
        assert(reject_by(s, dec) == s.filter(q));
    } else {
        lemma_reject_by_matches(s.drop_last(), dec.drop_last(), q);
        let a = reject_by(s.drop_last(), dec.drop_last());
        assert(dec.last() == !q(s.last()));
        reveal_with_fuel(Seq::filter, 2);
        assert(s.filter(q) == if q(s.last()) {
            s.drop_last().filter(q).push(s.last())
        } else {
            s.drop_last().filter(q)
        });
        if dec.last() {
            assert(reject_by(s, dec) == a + Seq::<T>::empty());
            assert(a + Seq::<T>::empty() =~= a);
        } else {
            assert(reject_by(s, dec) == a + seq![s.last()]);
            assert(s.filter(q) == a.push(s.last()));
            assert(a + seq![s.last()] =~= a.push(s.last()));
        }
    }
}

} // verus!
