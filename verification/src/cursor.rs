//! The checked face of the cursor primitive.
//!
//! A [`Cursor`] wraps a [`RawCursor`] one for one: same four indices, same
//! operations, same contracts. It is the surface the bulk policies are meant
//! to be driven through, while [`RawCursor`] remains available for callers
//! that build their own policies.

use crate::raw_cursor::RawCursor;
use crate::storage::Storage;
use crate::vec::GenericVec;
use vstd::prelude::*;

verus! {

/// A checked cursor over a sub-range of a [`GenericVec`]. Created by
/// [`GenericVec::cursor`].
pub struct Cursor<T, S: Storage<T>> {
    pub(crate) raw: RawCursor<T, S>,
}

impl<T, S: Storage<T>> Cursor<T, S> {
    /// The wrapped raw cursor, as a spec-level value.
    pub open(crate) spec fn raw_view(&self) -> RawCursor<T, S> {
        self.raw
    }

    /// Well-formedness of the wrapped raw cursor.
    pub open(crate) spec fn wf(&self) -> bool {
        self.raw.wf()
    }

    /// See [`RawCursor::kept_front`].
    pub open(crate) spec fn kept_front(&self) -> Seq<T> {
        self.raw.kept_front()
    }

    /// See [`RawCursor::remaining`].
    pub open(crate) spec fn remaining(&self) -> Seq<T> {
        self.raw.remaining()
    }

    /// See [`RawCursor::kept_back`].
    pub open(crate) spec fn kept_back(&self) -> Seq<T> {
        self.raw.kept_back()
    }

    /// See [`RawCursor::committed`].
    pub open(crate) spec fn committed(&self) -> Seq<T> {
        self.raw.committed()
    }

    /// See [`RawCursor::front_slack`].
    pub open(crate) spec fn front_slack(&self) -> int {
        self.raw.front_slack()
    }

    /// See [`RawCursor::back_slack`].
    pub open(crate) spec fn back_slack(&self) -> int {
        self.raw.back_slack()
    }

    /// See [`RawCursor::write_span`].
    pub open(crate) spec fn write_span(&self) -> int {
        self.raw.write_span()
    }

    /// See [`RawCursor::max_capacity`].
    pub open(crate) spec fn max_capacity(&self) -> nat {
        self.raw.max_capacity()
    }

    /// See [`RawCursor::spec_capacity`].
    pub open(crate) spec fn spec_capacity(&self) -> nat {
        self.raw.spec_capacity()
    }

    /// The wrapped raw cursor; changes made through it are changes to this
    /// cursor.
    pub fn as_raw_cursor_mut(&mut self) -> (r: &mut RawCursor<T, S>)
        ensures
            *r == old(self).raw_view(),
            final(self).raw_view() == *final(r),
    {
        &mut self.raw
    }

    /// The number of unvisited elements.
    pub fn len(&self) -> (r: usize)
        requires
            self.wf(),
        ensures
            r as int == self.remaining().len(),
    {
        self.raw.len()
    }

    /// True when no unvisited elements remain.
    pub fn is_empty(&self) -> (r: bool)
        requires
            self.wf(),
        ensures
            r <==> self.remaining().len() == 0,
    {
        self.raw.is_empty()
    }

    /// True when the write region has collapsed: no holes remain and the
    /// cursor is empty.
    pub fn is_write_empty(&self) -> (r: bool)
        requires
            self.wf(),
        ensures
            r <==> self.write_span() == 0,
    {
        self.raw.is_write_empty()
    }

    /// True when no hole is available at the front.
    pub fn is_write_front_empty(&self) -> (r: bool)
        requires
            self.wf(),
        ensures
            r <==> self.front_slack() == 0,
    {
        self.raw.is_write_front_empty()
    }

    /// True when no hole is available at the back.
    pub fn is_write_back_empty(&self) -> (r: bool)
        requires
            self.wf(),
        ensures
            r <==> self.back_slack() == 0,
    {
        self.raw.is_write_back_empty()
    }

    /// The size of the write region. Once the cursor is empty this is the
    /// number of unfilled slots.
    pub fn write_len(&self) -> (r: usize)
        requires
            self.wf(),
        ensures
            r as int == self.write_span(),
            self.remaining().len() == 0 ==> r as int == self.front_slack(),
    {
        self.raw.write_len()
    }

    /// The number of unfilled slots at the front.
    pub fn write_front_len(&self) -> (r: usize)
        requires
            self.wf(),
        ensures
            r as int == self.front_slack(),
    {
        self.raw.write_front_len()
    }

    /// The number of unfilled slots at the back.
    pub fn write_back_len(&self) -> (r: usize)
        requires
            self.wf(),
        ensures
            r as int == self.back_slack(),
    {
        self.raw.write_back_len()
    }

    /// A reference to the next unvisited element at the front.
    pub fn front(&self) -> (r: &T)
        requires
            self.wf(),
            self.remaining().len() > 0,
        ensures
            *r == self.remaining()[0],
    {
        self.raw.front()
    }

    /// A reference to the last unvisited element at the back.
    pub fn back(&self) -> (r: &T)
        requires
            self.wf(),
            self.remaining().len() > 0,
        ensures
            *r == self.remaining().last(),
    {
        self.raw.back()
    }

    /// Remove and return the next element at the front, opening one hole.
    pub fn take_front(&mut self) -> (r: T)
        requires
            old(self).wf(),
            old(self).remaining().len() > 0,
        ensures
            final(self).wf(),
            r == old(self).remaining()[0],
            final(self).kept_front() == old(self).kept_front(),
            final(self).remaining() == old(self).remaining().skip(1),
            final(self).kept_back() == old(self).kept_back(),
            final(self).max_capacity() == old(self).max_capacity(),
            final(self).spec_capacity() == old(self).spec_capacity(),
    {
        self.raw.take_front()
    }

    /// Remove and return the last element at the back, opening one hole.
    pub fn take_back(&mut self) -> (r: T)
        requires
            old(self).wf(),
            old(self).remaining().len() > 0,
        ensures
            final(self).wf(),
            r == old(self).remaining().last(),
            final(self).kept_front() == old(self).kept_front(),
            final(self).remaining() == old(self).remaining().drop_last(),
            final(self).kept_back() == old(self).kept_back(),
            final(self).max_capacity() == old(self).max_capacity(),
            final(self).spec_capacity() == old(self).spec_capacity(),
    {
        self.raw.take_back()
    }

    /// Remove and release the next element at the front.
    pub fn drop_front(&mut self)
        requires
            old(self).wf(),
            old(self).remaining().len() > 0,
        ensures
            final(self).wf(),
            final(self).kept_front() == old(self).kept_front(),
            final(self).remaining() == old(self).remaining().skip(1),
            final(self).kept_back() == old(self).kept_back(),
            final(self).max_capacity() == old(self).max_capacity(),
            final(self).spec_capacity() == old(self).spec_capacity(),
    {
        self.raw.drop_front()
    }

    /// Remove and release the last element at the back.
    pub fn drop_back(&mut self)
        requires
            old(self).wf(),
            old(self).remaining().len() > 0,
        ensures
            final(self).wf(),
            final(self).kept_front() == old(self).kept_front(),
            final(self).remaining() == old(self).remaining().drop_last(),
            final(self).kept_back() == old(self).kept_back(),
            final(self).max_capacity() == old(self).max_capacity(),
            final(self).spec_capacity() == old(self).spec_capacity(),
    {
        self.raw.drop_back()
    }

    /// Remove and release the next `n` elements at the front.
    pub fn drop_n_front(&mut self, n: usize)
        requires
            old(self).wf(),
            n as int <= old(self).remaining().len(),
        ensures
            final(self).wf(),
            final(self).kept_front() == old(self).kept_front(),
            final(self).remaining() == old(self).remaining().skip(n as int),
            final(self).kept_back() == old(self).kept_back(),
            final(self).max_capacity() == old(self).max_capacity(),
            final(self).spec_capacity() == old(self).spec_capacity(),
    {
        self.raw.drop_n_front(n)
    }

    /// Remove and release the last `n` elements at the back.
    pub fn drop_n_back(&mut self, n: usize)
        requires
            old(self).wf(),
            n as int <= old(self).remaining().len(),
        ensures
            final(self).wf(),
            final(self).kept_front() == old(self).kept_front(),
            final(self).remaining() == old(self).remaining().take(
                old(self).remaining().len() - n,
            ),
            final(self).kept_back() == old(self).kept_back(),
            final(self).max_capacity() == old(self).max_capacity(),
            final(self).spec_capacity() == old(self).spec_capacity(),
    {
        self.raw.drop_n_back(n)
    }

    /// Fill one hole at the front with `value`, or hand the value back when
    /// no hole is available there.
    pub fn try_write_front(&mut self, value: T) -> (r: Result<(), T>)
        requires
            old(self).wf(),
        ensures
            final(self).wf(),
            final(self).remaining() == old(self).remaining(),
            final(self).kept_back() == old(self).kept_back(),
            final(self).max_capacity() == old(self).max_capacity(),
            final(self).spec_capacity() == old(self).spec_capacity(),
            old(self).front_slack() > 0 ==> r is Ok && final(self).kept_front() == old(
                self,
            ).kept_front().push(value),
            old(self).front_slack() == 0 ==> r == Err::<(), T>(value) && final(self).kept_front()
                == old(self).kept_front(),
    {
        if self.is_write_front_empty() {
            Err(value)
        } else {
            self.raw.write_front(value);
            Ok(())
        }
    }

    /// Fill one hole at the front with `value`.
    pub fn write_front(&mut self, value: T)
        requires
            old(self).wf(),
            old(self).front_slack() > 0,
        ensures
            final(self).wf(),
            final(self).kept_front() == old(self).kept_front().push(value),
            final(self).remaining() == old(self).remaining(),
            final(self).kept_back() == old(self).kept_back(),
            final(self).front_slack() == old(self).front_slack() - 1,
            final(self).max_capacity() == old(self).max_capacity(),
            final(self).spec_capacity() == old(self).spec_capacity(),
    {
        self.raw.write_front(value)
    }

    /// Fill one hole at the back with `value`, or hand the value back when
    /// no hole is available there.
    pub fn try_write_back(&mut self, value: T) -> (r: Result<(), T>)
        requires
            old(self).wf(),
        ensures
            final(self).wf(),
            final(self).remaining() == old(self).remaining(),
            final(self).kept_front() == old(self).kept_front(),
            final(self).max_capacity() == old(self).max_capacity(),
            final(self).spec_capacity() == old(self).spec_capacity(),
            old(self).back_slack() > 0 ==> r is Ok && final(self).kept_back() == seq![value] + old(
                self,
            ).kept_back(),
            old(self).back_slack() == 0 ==> r == Err::<(), T>(value) && final(self).kept_back()
                == old(self).kept_back(),
    {
        if self.is_write_back_empty() {
            Err(value)
        } else {
            self.raw.write_back(value);
            Ok(())
        }
    }

    /// Fill one hole at the back with `value`.
    pub fn write_back(&mut self, value: T)
        requires
            old(self).wf(),
            old(self).back_slack() > 0,
        ensures
            final(self).wf(),
            final(self).kept_front() == old(self).kept_front(),
            final(self).remaining() == old(self).remaining(),
            final(self).kept_back() == seq![value] + old(self).kept_back(),
            final(self).back_slack() == old(self).back_slack() - 1,
            final(self).max_capacity() == old(self).max_capacity(),
            final(self).spec_capacity() == old(self).spec_capacity(),
    {
        self.raw.write_back(value)
    }

    /// Keep the next element at the front, relocating it over the first
    /// front hole, if any.
    pub fn skip_front(&mut self)
        requires
            old(self).wf(),
            old(self).remaining().len() > 0,
        ensures
            final(self).wf(),
            final(self).kept_front() == old(self).kept_front().push(old(self).remaining()[0]),
            final(self).remaining() == old(self).remaining().skip(1),
            final(self).kept_back() == old(self).kept_back(),
            final(self).max_capacity() == old(self).max_capacity(),
            final(self).spec_capacity() == old(self).spec_capacity(),
    {
        self.raw.skip_front()
    }

    /// Keep the last element at the back, relocating it over the last back
    /// hole, if any.
    pub fn skip_back(&mut self)
        requires
            old(self).wf(),
            old(self).remaining().len() > 0,
        ensures
            final(self).wf(),
            final(self).kept_front() == old(self).kept_front(),
            final(self).remaining() == old(self).remaining().drop_last(),
            final(self).kept_back() == seq![old(self).remaining().last()] + old(self).kept_back(),
            final(self).max_capacity() == old(self).max_capacity(),
            final(self).spec_capacity() == old(self).spec_capacity(),
    {
        self.raw.skip_back()
    }

    /// Keep the next `n` elements at the front.
    pub fn skip_n_front(&mut self, n: usize)
        requires
            old(self).wf(),
            n as int <= old(self).remaining().len(),
        ensures
            final(self).wf(),
            final(self).kept_front() == old(self).kept_front() + old(self).remaining().take(
                n as int,
            ),
            final(self).remaining() == old(self).remaining().skip(n as int),
            final(self).kept_back() == old(self).kept_back(),
            final(self).max_capacity() == old(self).max_capacity(),
            final(self).spec_capacity() == old(self).spec_capacity(),
    {
        self.raw.skip_n_front(n)
    }

    /// Keep the last `n` elements at the back.
    pub fn skip_n_back(&mut self, n: usize)
        requires
            old(self).wf(),
            n as int <= old(self).remaining().len(),
        ensures
            final(self).wf(),
            final(self).kept_front() == old(self).kept_front(),
            final(self).remaining() == old(self).remaining().take(
                old(self).remaining().len() - n,
            ),
            final(self).kept_back() == old(self).remaining().skip(
                old(self).remaining().len() - n,
            ) + old(self).kept_back(),
            final(self).max_capacity() == old(self).max_capacity(),
            final(self).spec_capacity() == old(self).spec_capacity(),
    {
        self.raw.skip_n_back(n)
    }

    /// Grow the write region so that at least `space` holes are available;
    /// the cursor must be empty (balanced).
    pub fn reserve(&mut self, space: usize)
        requires
            old(self).wf(),
            old(self).remaining().len() == 0,
            old(self).kept_front().len() + old(self).kept_back().len() + space <= old(
                self,
            ).max_capacity(),
        ensures
            final(self).wf(),
            final(self).remaining().len() == 0,
            final(self).kept_front() == old(self).kept_front(),
            final(self).kept_back() == old(self).kept_back(),
            final(self).front_slack() >= space,
            final(self).max_capacity() == old(self).max_capacity(),
            final(self).spec_capacity() >= old(self).spec_capacity(),
            old(self).kept_front().len() + old(self).kept_back().len() + space <= old(self).spec_capacity() ==> final(self).spec_capacity() == old(self).spec_capacity(),
    {
        self.raw.reserve(space)
    }

    /// Fold the unvisited elements into the kept region, close any
    /// outstanding hole, commit the final length, and hand the buffer back.
    pub fn finish(self) -> (v: GenericVec<T, S>)
        requires
            self.wf(),
        ensures
            v.wf(),
            v@ == self.committed(),
            v.spec_capacity() == self.spec_capacity(),
            v.max_capacity() == self.max_capacity(),
    {
        self.raw.finish()
    }
}

impl<T: Copy, S: Storage<T>> Cursor<T, S> {
    /// Fill holes at the front with copies of `values`, in order.
    pub fn write_slice_front(&mut self, values: &[T])
        requires
            old(self).wf(),
            old(self).front_slack() >= values@.len(),
        ensures
            final(self).wf(),
            final(self).kept_front() == old(self).kept_front() + values@,
            final(self).remaining() == old(self).remaining(),
            final(self).kept_back() == old(self).kept_back(),
            final(self).max_capacity() == old(self).max_capacity(),
            final(self).spec_capacity() == old(self).spec_capacity(),
    {
        self.raw.write_slice_front(values)
    }

    /// Fill holes at the back with copies of `values`; the slice lands in
    /// its given order just before the settled back block.
    pub fn write_slice_back(&mut self, values: &[T])
        requires
            old(self).wf(),
            old(self).back_slack() >= values@.len(),
        ensures
            final(self).wf(),
            final(self).kept_front() == old(self).kept_front(),
            final(self).remaining() == old(self).remaining(),
            final(self).kept_back() == values@ + old(self).kept_back(),
            final(self).max_capacity() == old(self).max_capacity(),
            final(self).spec_capacity() == old(self).spec_capacity(),
    {
        self.raw.write_slice_back(values)
    }
}

impl<T, S: Storage<T>> GenericVec<T, S> {
    /// Begin a checked bulk operation over the elements `[start, end)`,
    /// handing the buffer to a [`Cursor`]. The cursor's `finish` hands it
    /// back.
    pub fn cursor(self, start: usize, end: usize) -> (r: Cursor<T, S>)
        requires
            self.wf(),
            start <= end,
            end as int <= self@.len(),
        ensures
            r.wf(),
            r.kept_front() == self@.take(start as int),
            r.remaining() == self@.subrange(start as int, end as int),
            r.kept_back() == self@.skip(end as int),
            r.front_slack() == 0,
            r.back_slack() == 0,
            r.spec_capacity() == self.spec_capacity(),
            r.max_capacity() == self.max_capacity(),
    {
        Cursor { raw: self.raw_cursor(start, end) }
    }
}

} // verus!
