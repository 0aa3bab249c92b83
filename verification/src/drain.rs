//! The draining policy: remove a range and yield its elements.
//!
//! Elements not pulled before [`Drain::finish`] are removed and released all
//! the same — the policy discards by default, unlike the cursor itself,
//! whose `finish` keeps what was not visited.

use crate::raw_cursor::RawCursor;
use crate::storage::Storage;
use crate::vec::GenericVec;
use vstd::prelude::*;

verus! {

/// Yields the elements of a buffer range while removing them. Created by
/// [`GenericVec::drain`]; [`Drain::finish`] removes whatever was not pulled
/// and hands the buffer back.
pub struct Drain<T, S: Storage<T>> {
    pub(crate) cur: RawCursor<T, S>,
}

impl<T, S: Storage<T>> Drain<T, S> {
    /// Well-formedness of the underlying cursor.
    pub open(crate) spec fn wf(&self) -> bool {
        self.cur.wf()
    }

    /// The elements before the drained range.
    pub open(crate) spec fn fixed_front(&self) -> Seq<T> {
        self.cur.kept_front()
    }

    /// The elements of the range not yet pulled.
    pub open(crate) spec fn remaining(&self) -> Seq<T> {
        self.cur.remaining()
    }

    /// The elements after the drained range.
    pub open(crate) spec fn fixed_back(&self) -> Seq<T> {
        self.cur.kept_back()
    }

    /// The backend's slot count.
    pub open(crate) spec fn spec_capacity(&self) -> nat {
        self.cur.spec_capacity()
    }

    /// The backend's hard capacity bound.
    pub open(crate) spec fn max_capacity(&self) -> nat {
        self.cur.max_capacity()
    }

    /// How many elements are left to pull.
    pub fn len(&self) -> (r: usize)
        requires
            self.wf(),
        ensures
            r as int == self.remaining().len(),
    {
        self.cur.len()
    }

    /// True when every element of the range has been pulled.
    pub fn is_empty(&self) -> (r: bool)
        requires
            self.wf(),
        ensures
            r <==> self.remaining().len() == 0,
    {
        self.cur.is_empty()
    }

    /// Pull the next element from the front of the range.
    pub fn next(&mut self) -> (r: Option<T>)
        requires
            old(self).wf(),
        ensures
            final(self).wf(),
            final(self).fixed_front() == old(self).fixed_front(),
            final(self).fixed_back() == old(self).fixed_back(),
            final(self).spec_capacity() == old(self).spec_capacity(),
            final(self).max_capacity() == old(self).max_capacity(),
            old(self).remaining().len() > 0 ==> r == Some(old(self).remaining()[0]) && final(self).remaining() == old(self).remaining().skip(1),
            old(self).remaining().len() == 0 ==> r is None && final(self).remaining() == old(self).remaining(),
    {
        if self.cur.is_empty() {
            None
        } else {
            Some(self.cur.take_front())
        }
    }

    /// Pull the next element from the back of the range.
    pub fn next_back(&mut self) -> (r: Option<T>)
        requires
            old(self).wf(),
        ensures
            final(self).wf(),
            final(self).fixed_front() == old(self).fixed_front(),
            final(self).fixed_back() == old(self).fixed_back(),
            final(self).spec_capacity() == old(self).spec_capacity(),
            final(self).max_capacity() == old(self).max_capacity(),
            old(self).remaining().len() > 0 ==> r == Some(old(self).remaining().last()) && final(self).remaining() == old(self).remaining().drop_last(),
            old(self).remaining().len() == 0 ==> r is None && final(self).remaining() == old(self).remaining(),
    {
        if self.cur.is_empty() {
            None
        } else {
            Some(self.cur.take_back())
        }
    }

    /// Remove and release whatever was not pulled, and hand the buffer back:
    /// the result is the same whether or not the caller consumed anything.
    pub fn finish(self) -> (v: GenericVec<T, S>)
        requires
            self.wf(),
        ensures
            v.wf(),
            v@ == self.fixed_front() + self.fixed_back(),
            v.spec_capacity() == self.spec_capacity(),
            v.max_capacity() == self.max_capacity(),
    {
        let mut this = self;
        let n = this.cur.len();
        this.cur.drop_n_front(n);
        proof {
            assert(this.cur.remaining() =~= Seq::<T>::empty());
        }
        let Drain { cur } = this;
        let v = cur.finish();
        proof {
            assert(self.fixed_front() + Seq::<T>::empty() + self.fixed_back() =~= self.fixed_front()
                + self.fixed_back());
        }
        v
    }
}

impl<T, S: Storage<T>> GenericVec<T, S> {
    /// Begin draining the elements `[start, end)`: they leave the buffer,
    /// pulled by the caller or released by [`Drain::finish`].
    pub fn drain(self, start: usize, end: usize) -> (d: Drain<T, S>)
        requires
            self.wf(),
            start <= end,
            end as int <= self@.len(),
        ensures
            d.wf(),
            d.fixed_front() == self@.take(start as int),
            d.remaining() == self@.subrange(start as int, end as int),
            d.fixed_back() == self@.skip(end as int),
            d.spec_capacity() == self.spec_capacity(),
            d.max_capacity() == self.max_capacity(),
    {
        Drain { cur: self.raw_cursor(start, end) }
    }
}

} // verus!
