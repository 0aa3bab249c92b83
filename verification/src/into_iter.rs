//! Consuming iteration: take the buffer apart element by element.

use crate::seqs::{extract, filled, vacant};
use crate::storage::Storage;
use crate::vec::GenericVec;
use vstd::prelude::*;

verus! {

/// Owns a buffer and hands its elements out front to back (or back to
/// front). Created by [`GenericVec::into_iter`].
pub struct IntoIter<T, S: Storage<T>> {
    pub(crate) buf: GenericVec<T, S>,
    pub(crate) index: usize,
}

impl<T, S: Storage<T>> IntoIter<T, S> {
    /// Well-formedness: the slots before `index` have been handed out, the
    /// elements still to come sit in `[index, len)`, and everything past the
    /// length is vacant.
    pub open(crate) spec fn wf(&self) -> bool {
        let s = self.buf.storage.slots();
        &&& self.index <= self.buf.len
        &&& self.buf.len as int <= s.len()
        &&& vacant(s, 0, self.index as int)
        &&& filled(s, self.index as int, self.buf.len as int)
        &&& vacant(s, self.buf.len as int, s.len() as int)
    }

    /// The elements not yet handed out, in order.
    pub open(crate) spec fn remaining(&self) -> Seq<T> {
        extract(self.buf.storage.slots(), self.index as int, self.buf.len as int)
    }

    /// How many elements are left.
    pub fn len(&self) -> (r: usize)
        requires
            self.wf(),
        ensures
            r as int == self.remaining().len(),
    {
        self.buf.len - self.index
    }

    /// True when every element has been handed out.
    pub fn is_empty(&self) -> (r: bool)
        requires
            self.wf(),
        ensures
            r <==> self.remaining().len() == 0,
    {
        self.index == self.buf.len
    }

    /// The next element from the front, or `None` when none are left.
    pub fn next(&mut self) -> (r: Option<T>)
        requires
            old(self).wf(),
        ensures
            final(self).wf(),
            old(self).remaining().len() > 0 ==> r == Some(old(self).remaining()[0]) && final(self).remaining() == old(self).remaining().skip(1),
            old(self).remaining().len() == 0 ==> r is None && final(self).remaining() == old(self).remaining(),
    {
        if self.index == self.buf.len {
            None
        } else {
            let v = self.buf.storage.take(self.index);
            self.index = self.index + 1;
            proof {
                assert(self.remaining() =~= old(self).remaining().skip(1));
            }
            Some(v)
        }
    }

    /// The next element from the back, or `None` when none are left.
    pub fn next_back(&mut self) -> (r: Option<T>)
        requires
            old(self).wf(),
        ensures
            final(self).wf(),
            old(self).remaining().len() > 0 ==> r == Some(old(self).remaining().last()) && final(self).remaining() == old(self).remaining().drop_last(),
            old(self).remaining().len() == 0 ==> r is None && final(self).remaining() == old(self).remaining(),
    {
        if self.index == self.buf.len {
            None
        } else {
            let v = self.buf.storage.take(self.buf.len - 1);
            self.buf.len = self.buf.len - 1;
            proof {
                assert(self.remaining() =~= old(self).remaining().drop_last());
            }
            Some(v)
        }
    }
}

impl<T, S: Storage<T>> GenericVec<T, S> {
    /// Take the buffer apart: every element is handed out by the returned
    /// iterator, in order.
    pub fn into_iter(self) -> (it: IntoIter<T, S>)
        requires
            self.wf(),
        ensures
            it.wf(),
            it.remaining() == self@,
    {
        let it = IntoIter { buf: self, index: 0 };
        proof {
            assert(it.remaining() =~= self@);
        }
        it
    }
}

} // verus!
