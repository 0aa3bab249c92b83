//! The filtering policies: remove the elements a predicate selects.
//!
//! [`DrainFilter`] visits a range front to back; elements the predicate
//! accepts are removed and yielded, the rest stay, in order. The predicate
//! runs on a reference to an element still in place, so the element is never
//! half-removed while the predicate decides. [`GenericVec::retain`] is the
//! same walk over the whole buffer with the decision flipped: accepted
//! elements stay, rejected ones are removed and released.

use crate::raw_cursor::RawCursor;
use crate::seqs::{filter_by, reject_by, lemma_filter_by_push};
use crate::storage::Storage;
use crate::vec::GenericVec;
use vstd::prelude::*;

verus! {

/// Yields the elements of a buffer range that a predicate accepts, removing
/// them; the rest stay in order. Created by [`GenericVec::drain_filter`];
/// [`DrainFilter::finish`] runs the predicate over whatever was not visited
/// and hands the buffer back.
pub struct DrainFilter<T, S: Storage<T>, F: Fn(&T) -> bool> {
    pub(crate) cur: RawCursor<T, S>,
    pub(crate) pred: F,
}

impl<T, S: Storage<T>, F: Fn(&T) -> bool> DrainFilter<T, S, F> {
    /// The predicate, as a spec-level value.
    pub open(crate) spec fn predicate(&self) -> F {
        self.pred
    }

    /// Well-formedness: the cursor is well-formed and the predicate can be
    /// called on any element.
    pub open(crate) spec fn wf(&self) -> bool {
        &&& self.cur.wf()
        &&& forall|t: &T| #[trigger] call_requires(self.pred, (t,))
    }

    /// The elements settled before and at the front of the range: the
    /// prefix plus everything the predicate has rejected so far.
    pub open(crate) spec fn fixed_front(&self) -> Seq<T> {
        self.cur.kept_front()
    }

    /// The elements of the range not yet visited.
    pub open(crate) spec fn remaining(&self) -> Seq<T> {
        self.cur.remaining()
    }

    /// The elements after the range.
    pub open(crate) spec fn fixed_back(&self) -> Seq<T> {
        self.cur.kept_back()
    }

    /// The backend's hard capacity bound.
    pub open(crate) spec fn max_capacity(&self) -> nat {
        self.cur.max_capacity()
    }

    /// The backend's current slot count. Filtering never grows or shrinks
    /// the backend.
    pub open(crate) spec fn spec_capacity(&self) -> nat {
        self.cur.spec_capacity()
    }

    /// Visit elements from the front until the predicate accepts one;
    /// remove and return it. Rejected elements settle into the front, in
    /// order.
    pub fn next(&mut self) -> (r: Option<T>)
        requires
            old(self).wf(),
        ensures
            final(self).wf(),
            final(self).predicate() == old(self).predicate(),
            final(self).fixed_back() == old(self).fixed_back(),
            final(self).max_capacity() == old(self).max_capacity(),
            final(self).spec_capacity() == old(self).spec_capacity(),
            match r {
                Some(v) => exists|k: int|
                    0 <= k < old(self).remaining().len() && v == old(self).remaining()[k]
                        && #[trigger] call_ensures(old(self).predicate(), (&old(self).remaining()[k],), true)
                        && (forall|j: int|
                        0 <= j < k ==> call_ensures(
                            old(self).predicate(),
                            (&old(self).remaining()[j],),
                            false,
                        )) && final(self).remaining() == old(self).remaining().skip(k + 1)
                        && final(self).fixed_front() == old(self).fixed_front() + old(
                        self,
                    ).remaining().take(k),
                None => final(self).remaining().len() == 0 && final(self).fixed_front() == old(
                    self,
                ).fixed_front() + old(self).remaining() && (forall|j: int|
                    0 <= j < old(self).remaining().len() ==> call_ensures(
                        old(self).predicate(),
                        (&old(self).remaining()[j],),
                        false,
                    )),
            },
    {
        let ghost orig = self.remaining();
        let ghost front0 = self.fixed_front();
        proof {
            self.cur.buf.storage.lemma_max_capacity();
        }
        let mut k: usize = 0;
        loop
            invariant
                self.wf(),
                self.pred == old(self).pred,
                orig.len() <= usize::MAX,
                orig == old(self).remaining(),
                front0 == old(self).fixed_front(),
                k as int <= orig.len(),
                self.remaining() == orig.skip(k as int),
                self.fixed_front() == front0 + orig.take(k as int),
                self.fixed_back() == old(self).fixed_back(),
                self.max_capacity() == old(self).max_capacity(),
                self.spec_capacity() == old(self).spec_capacity(),
                forall|j: int| 0 <= j < k ==> call_ensures(self.pred, (&orig[j],), false),
            decreases orig.len() - k,
        {
            if self.cur.is_empty() {
                proof {
                    assert(orig.take(orig.len() as int) =~= orig);
                }
                return None;
            }
            let take_it = (self.pred)(self.cur.front());
            if take_it {
                let v = self.cur.take_front();
                proof {
                    assert(v == orig[k as int]);
                    assert(call_ensures(self.pred, (&orig[k as int],), true));
                    assert(call_ensures(
                        old(self).predicate(),
                        (&old(self).remaining()[k as int],),
                        true,
                    ));
                    assert(self.remaining() =~= orig.skip(k as int + 1));
                }
                return Some(v);
            } else {
                proof {
                    assert(self.remaining()[0] == orig[k as int]);
                }
                self.cur.skip_front();
                k = k + 1;
                proof {
                    assert(self.remaining() =~= orig.skip(k as int));
                    assert(self.fixed_front() =~= front0 + orig.take(k as int));
                }
            }
        }
    }

    /// Run the predicate over every element not yet visited — removing and
    /// releasing the accepted ones, keeping the rest — and hand the buffer
    /// back. The result is the same whether or not the caller pulled
    /// anything: every element the predicate accepts is removed.
    pub fn finish(self) -> (v: GenericVec<T, S>)
        requires
            self.wf(),
        ensures
            v.wf(),
            v.max_capacity() == self.max_capacity(),
            v.spec_capacity() == self.spec_capacity(),
            exists|dec: Seq<bool>|
                #![auto]
                dec.len() == self.remaining().len() && (forall|i: int|
                    0 <= i < dec.len() ==> call_ensures(
                        self.predicate(),
                        (&self.remaining()[i],),
                        dec[i],
                    )) && v@ == self.fixed_front() + reject_by(self.remaining(), dec)
                    + self.fixed_back(),
    {
        let mut this = self;
        let ghost orig = this.remaining();
        let ghost front0 = this.fixed_front();
        let ghost mut dec = Seq::<bool>::empty();
        proof {
            assert(this.fixed_front() =~= front0 + reject_by(orig.take(0), dec));
        }
        proof {
            this.cur.buf.storage.lemma_max_capacity();
        }
        let mut k: usize = 0;
        while !this.cur.is_empty()
            invariant
                this.wf(),
                this.pred == self.pred,
                orig.len() <= usize::MAX,
                orig == self.remaining(),
                front0 == self.fixed_front(),
                k as int == dec.len(),
                dec.len() <= orig.len(),
                this.remaining() == orig.skip(k as int),
                this.fixed_front() == front0 + reject_by(orig.take(k as int), dec),
                this.fixed_back() == self.fixed_back(),
                this.max_capacity() == self.max_capacity(),
                this.spec_capacity() == self.spec_capacity(),
                forall|i: int|
                    0 <= i < dec.len() ==> call_ensures(self.pred, (&orig[i],), dec[i]),
            decreases orig.len() - k,
        {
            let take_it = (this.pred)(this.cur.front());
            proof {
                assert(this.remaining()[0] == orig[k as int]);
            }
            if take_it {
                let _ = this.cur.take_front();
            } else {
                this.cur.skip_front();
            }
            proof {
                lemma_filter_by_push(orig.take(k as int), dec, orig[k as int], take_it);
                assert(orig.take(k as int).push(orig[k as int]) =~= orig.take(k as int + 1));
            }
            k = k + 1;
            proof {
                dec = dec.push(take_it);
                assert(this.remaining() =~= orig.skip(k as int));
                assert(this.fixed_front() =~= front0 + reject_by(orig.take(k as int), dec));
            }
        }
        proof {
            assert(orig.take(orig.len() as int) =~= orig);
        }
        let DrainFilter { cur, .. } = this;
        let v = cur.finish();
        proof {
            assert((front0 + reject_by(orig, dec)) + Seq::<T>::empty() + self.fixed_back()
                =~= front0 + reject_by(orig, dec) + self.fixed_back());
        }
        v
    }
}

impl<T, S: Storage<T>> GenericVec<T, S> {
    /// Begin filtering the elements `[start, end)` with `pred`: elements it
    /// accepts leave the buffer, pulled by the caller or released by
    /// [`DrainFilter::finish`]; the rest stay, in order.
    pub fn drain_filter<F: Fn(&T) -> bool>(self, start: usize, end: usize, pred: F) -> (d:
        DrainFilter<T, S, F>)
        requires
            self.wf(),
            start <= end,
            end as int <= self@.len(),
            forall|t: &T| #[trigger] call_requires(pred, (t,)),
        ensures
            d.wf(),
            d.predicate() == pred,
            d.fixed_front() == self@.take(start as int),
            d.remaining() == self@.subrange(start as int, end as int),
            d.fixed_back() == self@.skip(end as int),
            d.max_capacity() == self.max_capacity(),
            d.spec_capacity() == self.spec_capacity(),
    {
        DrainFilter { cur: self.raw_cursor(start, end), pred }
    }

    /// Keep exactly the elements `pred` accepts, in order, releasing the
    /// rest. Visits every element exactly once, front to back, with the
    /// element still in place while the predicate runs.
    pub fn retain<F: Fn(&T) -> bool>(self, pred: F) -> (r: Self)
        requires
            self.wf(),
            forall|t: &T| #[trigger] call_requires(pred, (t,)),
        ensures
            r.wf(),
            r.max_capacity() == self.max_capacity(),
            r.spec_capacity() == self.spec_capacity(),
            exists|dec: Seq<bool>|
                #![auto]
                dec.len() == self@.len() && (forall|i: int|
                    0 <= i < dec.len() ==> call_ensures(pred, (&self@[i],), dec[i])) && r@
                    == filter_by(self@, dec),
    {
        let ghost orig = self@;
        let n = self.len();
        let mut cur = self.raw_cursor(0, n);
        let ghost mut dec = Seq::<bool>::empty();
        proof {
            assert(orig.subrange(0, orig.len() as int) =~= orig);
            assert(cur.kept_front() =~= filter_by(orig.take(0), dec));
        }
        proof {
            cur.buf.storage.lemma_max_capacity();
        }
        let mut k: usize = 0;
        while !cur.is_empty()
            invariant
                cur.wf(),
                forall|t: &T| #[trigger] call_requires(pred, (t,)),
                orig.len() <= usize::MAX,
                orig == self@,
                k as int == dec.len(),
                dec.len() <= orig.len(),
                cur.remaining() == orig.skip(k as int),
                cur.kept_front() == filter_by(orig.take(k as int), dec),
                cur.kept_back() == Seq::<T>::empty(),
                cur.max_capacity() == self.max_capacity(),
                cur.spec_capacity() == self.spec_capacity(),
                forall|i: int| 0 <= i < dec.len() ==> call_ensures(pred, (&orig[i],), dec[i]),
            decreases orig.len() - k,
        {
            let keep_it = pred(cur.front());
            proof {
                assert(cur.remaining()[0] == orig[k as int]);
            }
            if keep_it {
                cur.skip_front();
            } else {
                cur.drop_front();
            }
            proof {
                lemma_filter_by_push(orig.take(k as int), dec, orig[k as int], keep_it);
                assert(orig.take(k as int).push(orig[k as int]) =~= orig.take(k as int + 1));
            }
            k = k + 1;
            proof {
                dec = dec.push(keep_it);
                assert(cur.remaining() =~= orig.skip(k as int));
                assert(cur.kept_front() =~= filter_by(orig.take(k as int), dec));
            }
        }
        proof {
            assert(orig.take(orig.len() as int) =~= orig);
        }
        let r = cur.finish();
        proof {
            assert(filter_by(orig, dec) + Seq::<T>::empty() + Seq::<T>::empty() =~= filter_by(
                orig,
                dec,
            ));
        }
        r
    }
}

} // verus!
