//! The four-index cursor: the bulk-mutation primitive.
//!
//! A cursor takes exclusive ownership of a buffer for the duration of one
//! bulk operation over the index range fixed at creation. Four indices
//! decompose the buffer's slots, in order:
//!
//! * `[0, write_front)` — elements kept or written at the front;
//! * `[write_front, read_front)` — front holes: slots vacated and not refilled;
//! * `[read_front, read_back)` — the elements not yet visited;
//! * `[read_back, write_back)` — back holes;
//! * `[write_back, extent)` — elements kept or written at the back, followed
//!   by the untouched elements after the range;
//! * `[extent, capacity)` — slots past the buffer's old length, vacant.
//!
//! [`RawCursor::finish`] reconciles the holes and hands the buffer back with
//! its final length committed; the buffer cannot be touched while the cursor
//! exists, because the cursor owns it.

use crate::seqs::{extract, filled, vacant};
use crate::storage::Storage;
use crate::vec::GenericVec;
use vstd::prelude::*;

verus! {

/// Move the `n` elements in slots `[src, src + n)` down to `[dst, dst + n)`,
/// front to back; `[dst, src)` must be vacant. Handles `dst == src` and
/// overlapping regions.
fn shift_down<T, S: Storage<T>>(storage: &mut S, src: usize, dst: usize, n: usize)
    requires
        dst <= src,
        old(storage).slots().len() <= usize::MAX,
        src + n <= old(storage).slots().len(),
        filled(old(storage).slots(), src as int, src + n),
        vacant(old(storage).slots(), dst as int, src as int),
    ensures
        final(storage).slots().len() == old(storage).slots().len(),
        final(storage).max_capacity() == old(storage).max_capacity(),
        forall|p: int|
            dst <= p < dst + n ==> #[trigger] final(storage).slots()[p] == old(storage).slots()[src
                + (p - dst)],
        extract(final(storage).slots(), dst as int, dst + n) == extract(
            old(storage).slots(),
            src as int,
            src + n,
        ),
        filled(final(storage).slots(), dst as int, dst + n),
        vacant(final(storage).slots(), dst + n, src + n),
        forall|p: int|
            (0 <= p < dst || src + n <= p < final(storage).slots().len()) ==> final(storage).slots()[p] == old(storage).slots()[p],
{
    let mut i: usize = 0;
    while i < n
        invariant
            i <= n,
            dst <= src,
            old(storage).slots().len() <= usize::MAX,
            src + n <= old(storage).slots().len(),
            filled(old(storage).slots(), src as int, src + n),
            storage.slots().len() == old(storage).slots().len(),
            storage.max_capacity() == old(storage).max_capacity(),
            forall|k: int|
                0 <= k < i ==> #[trigger] storage.slots()[dst + k] == old(storage).slots()[src
                    + k],
            vacant(storage.slots(), dst + i, src + i),
            forall|p: int|
                (0 <= p < dst || src + i <= p < storage.slots().len()) ==> storage.slots()[p]
                    == old(storage).slots()[p],
        decreases n - i,
    {
        proof {
            assert(storage.slots()[src + i] == old(storage).slots()[src + i]);
        }
        let v = storage.take(src + i);
        proof {
            assert(storage.slots()[dst + i] is None);
        }
        storage.fill(dst + i, v);
        i = i + 1;
    }
    proof {
        assert forall|p: int|
            dst <= p < dst + n implies #[trigger] storage.slots()[p] == old(storage).slots()[src + (
        p - dst)] by {
            assert(storage.slots()[dst + (p - dst)] == old(storage).slots()[src + (p - dst)]);
        }
        assert(extract(storage.slots(), dst as int, dst + n) =~= extract(
            old(storage).slots(),
            src as int,
            src + n,
        ));
    }
}

/// Move the `n` elements in slots `[src, src + n)` up to `[dst, dst + n)`,
/// back to front; `[src + n, dst + n)` must be vacant. Handles `dst == src`
/// and overlapping regions.
fn shift_up<T, S: Storage<T>>(storage: &mut S, src: usize, dst: usize, n: usize)
    requires
        src <= dst,
        old(storage).slots().len() <= usize::MAX,
        dst + n <= old(storage).slots().len(),
        filled(old(storage).slots(), src as int, src + n),
        vacant(old(storage).slots(), src + n, dst + n),
    ensures
        final(storage).slots().len() == old(storage).slots().len(),
        final(storage).max_capacity() == old(storage).max_capacity(),
        forall|p: int|
            dst <= p < dst + n ==> #[trigger] final(storage).slots()[p] == old(storage).slots()[src
                + (p - dst)],
        extract(final(storage).slots(), dst as int, dst + n) == extract(
            old(storage).slots(),
            src as int,
            src + n,
        ),
        filled(final(storage).slots(), dst as int, dst + n),
        vacant(final(storage).slots(), src as int, dst as int),
        forall|p: int|
            (0 <= p < src || dst + n <= p < final(storage).slots().len()) ==> final(storage).slots()[p] == old(storage).slots()[p],
{
    let mut i: usize = n;
    while i > 0
        invariant
            i <= n,
            src <= dst,
            old(storage).slots().len() <= usize::MAX,
            dst + n <= old(storage).slots().len(),
            filled(old(storage).slots(), src as int, src + n),
            storage.slots().len() == old(storage).slots().len(),
            storage.max_capacity() == old(storage).max_capacity(),
            forall|k: int|
                i <= k < n ==> #[trigger] storage.slots()[dst + k] == old(storage).slots()[src
                    + k],
            vacant(storage.slots(), src + i, dst + i),
            forall|p: int|
                (0 <= p < src + i || dst + n <= p < storage.slots().len()) ==> storage.slots()[p]
                    == old(storage).slots()[p],
        decreases i,
    {
        i = i - 1;
        proof {
            assert(storage.slots()[src + i] == old(storage).slots()[src + i]);
        }
        let v = storage.take(src + i);
        proof {
            assert(storage.slots()[dst + i] is None);
        }
        storage.fill(dst + i, v);
    }
    proof {
        assert forall|p: int|
            dst <= p < dst + n implies #[trigger] storage.slots()[p] == old(storage).slots()[src + (
        p - dst)] by {
            assert(storage.slots()[dst + (p - dst)] == old(storage).slots()[src + (p - dst)]);
        }
        assert(extract(storage.slots(), dst as int, dst + n) =~= extract(
            old(storage).slots(),
            src as int,
            src + n,
        ));
    }
}

/// The four-index bulk-mutation primitive over a sub-range of a
/// [`GenericVec`]. Created by [`GenericVec::raw_cursor`].
pub struct RawCursor<T, S: Storage<T>> {
    pub(crate) buf: GenericVec<T, S>,
    pub(crate) write_front: usize,
    pub(crate) read_front: usize,
    pub(crate) read_back: usize,
    pub(crate) write_back: usize,
}

impl<T, S: Storage<T>> RawCursor<T, S> {
    /// Well-formedness: the four indices are ordered, and the slot regions
    /// they delimit alternate between held elements and holes as the module
    /// documentation describes.
    pub open(crate) spec fn wf(&self) -> bool {
        let s = self.buf.storage.slots();
        &&& self.write_front <= self.read_front
        &&& self.read_front <= self.read_back
        &&& self.read_back <= self.write_back
        &&& self.write_back <= self.buf.len
        &&& self.buf.len as int <= s.len()
        &&& filled(s, 0, self.write_front as int)
        &&& vacant(s, self.write_front as int, self.read_front as int)
        &&& filled(s, self.read_front as int, self.read_back as int)
        &&& vacant(s, self.read_back as int, self.write_back as int)
        &&& filled(s, self.write_back as int, self.buf.len as int)
        &&& vacant(s, self.buf.len as int, s.len() as int)
    }

    /// The elements settled at the front: the prefix before the range plus
    /// everything kept or written at the front so far.
    pub open(crate) spec fn kept_front(&self) -> Seq<T> {
        extract(self.buf.storage.slots(), 0, self.write_front as int)
    }

    /// The elements of the range not yet visited.
    pub open(crate) spec fn remaining(&self) -> Seq<T> {
        extract(self.buf.storage.slots(), self.read_front as int, self.read_back as int)
    }

    /// The elements settled at the back: everything kept or written at the
    /// back so far, plus the untouched elements after the range.
    pub open(crate) spec fn kept_back(&self) -> Seq<T> {
        extract(self.buf.storage.slots(), self.write_back as int, self.buf.len as int)
    }

    /// What `finish` commits: the unvisited elements are implicitly kept
    /// between the settled front and back.
    pub open(crate) spec fn committed(&self) -> Seq<T> {
        self.kept_front() + self.remaining() + self.kept_back()
    }

    /// How many holes a front write may fill. While elements remain these
    /// are the front holes alone; once the cursor is empty the front and
    /// back holes merge into one region that both ends share.
    pub open(crate) spec fn front_slack(&self) -> int {
        if self.read_front < self.read_back {
            self.read_front - self.write_front
        } else {
            self.write_back - self.write_front
        }
    }

    /// How many holes a back write may fill; see `front_slack`.
    pub open(crate) spec fn back_slack(&self) -> int {
        if self.read_front < self.read_back {
            self.write_back - self.read_back
        } else {
            self.write_back - self.write_front
        }
    }

    /// The whole write region: holes plus unvisited elements.
    pub open(crate) spec fn write_span(&self) -> int {
        self.write_back - self.write_front
    }

    /// The buffer extent the cursor works under: its length before the bulk
    /// operation began, plus any trailing room a `reserve` opened.
    pub open(crate) spec fn extent(&self) -> int {
        self.buf.len as int
    }

    /// The first index of the front hole region.
    pub open(crate) spec fn write_front_pos(&self) -> int {
        self.write_front as int
    }

    /// The index of the next unvisited element.
    pub open(crate) spec fn read_front_pos(&self) -> int {
        self.read_front as int
    }

    /// One past the last unvisited element.
    pub open(crate) spec fn read_back_pos(&self) -> int {
        self.read_back as int
    }

    /// One past the back hole region.
    pub open(crate) spec fn write_back_pos(&self) -> int {
        self.write_back as int
    }

    /// The backend's current slot count.
    pub open(crate) spec fn spec_capacity(&self) -> nat {
        self.buf.storage.slots().len()
    }

    /// The backend's hard capacity bound.
    pub open(crate) spec fn max_capacity(&self) -> nat {
        self.buf.storage.max_capacity()
    }

    /// The settled front, unvisited middle, and settled back all keep their
    /// elements; only capacity may differ.
    pub open(crate) spec fn parts_unchanged(&self, other: &Self) -> bool {
        &&& self.kept_front() == other.kept_front()
        &&& self.remaining() == other.remaining()
        &&& self.kept_back() == other.kept_back()
    }

    /// Take exclusive ownership of `vec` and begin a bulk operation over
    /// `[start, end)`.
    pub(crate) fn new(vec: GenericVec<T, S>, start: usize, end: usize) -> (r: Self)
        requires
            vec.wf(),
            start <= end,
            end as int <= vec@.len(),
        ensures
            r.wf(),
            r.kept_front() == vec@.take(start as int),
            r.remaining() == vec@.subrange(start as int, end as int),
            r.kept_back() == vec@.skip(end as int),
            r.front_slack() == 0,
            r.back_slack() == 0,
            r.extent() == vec@.len(),
            r.spec_capacity() == vec.spec_capacity(),
            r.max_capacity() == vec.max_capacity(),
    {
        let r = RawCursor {
            write_front: start,
            read_front: start,
            read_back: end,
            write_back: end,
            buf: vec,
        };
        proof {
            assert(r.kept_front() =~= vec@.take(start as int));
            assert(r.remaining() =~= vec@.subrange(start as int, end as int));
            assert(r.kept_back() =~= vec@.skip(end as int));
        }
        r
    }

    /// The number of unvisited elements.
    pub fn len(&self) -> (r: usize)
        requires
            self.wf(),
        ensures
            r as int == self.remaining().len(),
    {
        self.read_back - self.read_front
    }

    /// True when no unvisited elements remain.
    pub fn is_empty(&self) -> (r: bool)
        requires
            self.wf(),
        ensures
            r <==> self.remaining().len() == 0,
    {
        self.read_back == self.read_front
    }

    /// True when the write region has collapsed: no holes remain and the
    /// cursor is empty.
    pub fn is_write_empty(&self) -> (r: bool)
        requires
            self.wf(),
        ensures
            r <==> self.write_span() == 0,
    {
        self.write_back == self.write_front
    }

    /// True when no hole is available at the front.
    pub fn is_write_front_empty(&self) -> (r: bool)
        requires
            self.wf(),
        ensures
            r <==> self.front_slack() == 0,
    {
        self.is_write_empty() || (self.write_front == self.read_front && !self.is_empty())
    }

    /// True when no hole is available at the back.
    pub fn is_write_back_empty(&self) -> (r: bool)
        requires
            self.wf(),
        ensures
            r <==> self.back_slack() == 0,
    {
        self.is_write_empty() || (self.write_back == self.read_back && !self.is_empty())
    }

    /// The size of the write region. Once the cursor is empty this is the
    /// number of unfilled slots.
    pub fn write_len(&self) -> (r: usize)
        requires
            self.wf(),
        ensures
            r as int == self.write_span(),
            self.remaining().len() == 0 ==> r as int == self.front_slack(),
    {
        self.write_back - self.write_front
    }

    /// The number of unfilled slots at the front.
    pub fn write_front_len(&self) -> (r: usize)
        requires
            self.wf(),
        ensures
            r as int == self.front_slack(),
    {
        if self.is_empty() {
            self.write_len()
        } else {
            self.read_front - self.write_front
        }
    }

    /// The number of unfilled slots at the back.
    pub fn write_back_len(&self) -> (r: usize)
        requires
            self.wf(),
        ensures
            r as int == self.back_slack(),
    {
        if self.is_empty() {
            self.write_len()
        } else {
            self.write_back - self.read_back
        }
    }

    /// A reference to the next unvisited element at the front.
    pub fn front(&self) -> (r: &T)
        requires
            self.wf(),
            self.remaining().len() > 0,
        ensures
            *r == self.remaining()[0],
    {
        self.buf.storage.get(self.read_front)
    }

    /// A reference to the last unvisited element at the back.
    pub fn back(&self) -> (r: &T)
        requires
            self.wf(),
            self.remaining().len() > 0,
        ensures
            *r == self.remaining().last(),
    {
        self.buf.storage.get(self.read_back - 1)
    }

    /// Remove and return the next element at the front, opening one hole
    /// there.
    pub fn take_front(&mut self) -> (r: T)
        requires
            old(self).wf(),
            old(self).remaining().len() > 0,
        ensures
            final(self).wf(),
            r == old(self).remaining()[0],
            final(self).kept_front() == old(self).kept_front(),
            final(self).remaining() == old(self).remaining().skip(1),
            final(self).kept_back() == old(self).kept_back(),
            final(self).write_front_pos() == old(self).write_front_pos(),
            final(self).read_front_pos() == old(self).read_front_pos() + 1,
            final(self).read_back_pos() == old(self).read_back_pos(),
            final(self).write_back_pos() == old(self).write_back_pos(),
            final(self).extent() == old(self).extent(),
            final(self).spec_capacity() == old(self).spec_capacity(),
            final(self).max_capacity() == old(self).max_capacity(),
    {
        let r = self.buf.storage.take(self.read_front);
        self.read_front = self.read_front + 1;
        proof {
            assert(self.kept_front() =~= old(self).kept_front());
            assert(self.remaining() =~= old(self).remaining().skip(1));
            assert(self.kept_back() =~= old(self).kept_back());
        }
        r
    }

    /// Remove and return the last element at the back, opening one hole
    /// there.
    pub fn take_back(&mut self) -> (r: T)
        requires
            old(self).wf(),
            old(self).remaining().len() > 0,
        ensures
            final(self).wf(),
            r == old(self).remaining().last(),
            final(self).kept_front() == old(self).kept_front(),
            final(self).remaining() == old(self).remaining().drop_last(),
            final(self).kept_back() == old(self).kept_back(),
            final(self).write_front_pos() == old(self).write_front_pos(),
            final(self).read_front_pos() == old(self).read_front_pos(),
            final(self).read_back_pos() == old(self).read_back_pos() - 1,
            final(self).write_back_pos() == old(self).write_back_pos(),
            final(self).extent() == old(self).extent(),
            final(self).spec_capacity() == old(self).spec_capacity(),
            final(self).max_capacity() == old(self).max_capacity(),
    {
        self.read_back = self.read_back - 1;
        let r = self.buf.storage.take(self.read_back);
        proof {
            assert(self.kept_front() =~= old(self).kept_front());
            assert(self.remaining() =~= old(self).remaining().drop_last());
            assert(self.kept_back() =~= old(self).kept_back());
        }
        r
    }

    /// Remove and release the next element at the front.
    pub fn drop_front(&mut self)
        requires
            old(self).wf(),
            old(self).remaining().len() > 0,
        ensures
            final(self).wf(),
            final(self).kept_front() == old(self).kept_front(),
            final(self).remaining() == old(self).remaining().skip(1),
            final(self).kept_back() == old(self).kept_back(),
            final(self).write_front_pos() == old(self).write_front_pos(),
            final(self).read_front_pos() == old(self).read_front_pos() + 1,
            final(self).read_back_pos() == old(self).read_back_pos(),
            final(self).write_back_pos() == old(self).write_back_pos(),
            final(self).extent() == old(self).extent(),
            final(self).spec_capacity() == old(self).spec_capacity(),
            final(self).max_capacity() == old(self).max_capacity(),
    {
        let _ = self.take_front();
    }

    /// Remove and release the last element at the back.
    pub fn drop_back(&mut self)
        requires
            old(self).wf(),
            old(self).remaining().len() > 0,
        ensures
            final(self).wf(),
            final(self).kept_front() == old(self).kept_front(),
            final(self).remaining() == old(self).remaining().drop_last(),
            final(self).kept_back() == old(self).kept_back(),
            final(self).write_front_pos() == old(self).write_front_pos(),
            final(self).read_front_pos() == old(self).read_front_pos(),
            final(self).read_back_pos() == old(self).read_back_pos() - 1,
            final(self).write_back_pos() == old(self).write_back_pos(),
            final(self).extent() == old(self).extent(),
            final(self).spec_capacity() == old(self).spec_capacity(),
            final(self).max_capacity() == old(self).max_capacity(),
    {
        let _ = self.take_back();
    }

    /// Keep the next element at the front: relocate it over the first front
    /// hole, if there is one, and advance past it.
    pub fn skip_front(&mut self)
        requires
            old(self).wf(),
            old(self).remaining().len() > 0,
        ensures
            final(self).wf(),
            final(self).kept_front() == old(self).kept_front().push(old(self).remaining()[0]),
            final(self).remaining() == old(self).remaining().skip(1),
            final(self).kept_back() == old(self).kept_back(),
            final(self).write_front_pos() == old(self).write_front_pos() + 1,
            final(self).read_front_pos() == old(self).read_front_pos() + 1,
            final(self).read_back_pos() == old(self).read_back_pos(),
            final(self).write_back_pos() == old(self).write_back_pos(),
            final(self).extent() == old(self).extent(),
            final(self).spec_capacity() == old(self).spec_capacity(),
            final(self).max_capacity() == old(self).max_capacity(),
    {
        if self.write_front != self.read_front {
            let v = self.buf.storage.take(self.read_front);
            self.buf.storage.fill(self.write_front, v);
        }
        self.read_front = self.read_front + 1;
        self.write_front = self.write_front + 1;
        proof {
            assert(self.kept_front() =~= old(self).kept_front().push(old(self).remaining()[0]));
            assert(self.remaining() =~= old(self).remaining().skip(1));
            assert(self.kept_back() =~= old(self).kept_back());
        }
    }

    /// Keep the last element at the back: relocate it over the last back
    /// hole, if there is one, and advance past it.
    pub fn skip_back(&mut self)
        requires
            old(self).wf(),
            old(self).remaining().len() > 0,
        ensures
            final(self).wf(),
            final(self).kept_front() == old(self).kept_front(),
            final(self).remaining() == old(self).remaining().drop_last(),
            final(self).kept_back() == seq![old(self).remaining().last()] + old(self).kept_back(),
            final(self).write_front_pos() == old(self).write_front_pos(),
            final(self).read_front_pos() == old(self).read_front_pos(),
            final(self).read_back_pos() == old(self).read_back_pos() - 1,
            final(self).write_back_pos() == old(self).write_back_pos() - 1,
            final(self).extent() == old(self).extent(),
            final(self).spec_capacity() == old(self).spec_capacity(),
            final(self).max_capacity() == old(self).max_capacity(),
    {
        self.read_back = self.read_back - 1;
        self.write_back = self.write_back - 1;
        if self.write_back != self.read_back {
            let v = self.buf.storage.take(self.read_back);
            self.buf.storage.fill(self.write_back, v);
        }
        proof {
            assert(self.kept_front() =~= old(self).kept_front());
            assert(self.remaining() =~= old(self).remaining().drop_last());
            assert(self.kept_back() =~= seq![old(self).remaining().last()] + old(
                self,
            ).kept_back());
        }
    }

    /// Fill one hole at the front with `value`.
    pub fn write_front(&mut self, value: T)
        requires
            old(self).wf(),
            old(self).front_slack() > 0,
        ensures
            final(self).wf(),
            final(self).kept_front() == old(self).kept_front().push(value),
            final(self).remaining() == old(self).remaining(),
            final(self).kept_back() == old(self).kept_back(),
            final(self).write_front_pos() == old(self).write_front_pos() + 1,
            final(self).write_back_pos() == old(self).write_back_pos(),
            final(self).front_slack() == old(self).front_slack() - 1,
            final(self).back_slack() == if old(self).remaining().len() == 0 {
                old(self).back_slack() - 1
            } else {
                old(self).back_slack()
            },
            final(self).extent() == old(self).extent(),
            final(self).spec_capacity() == old(self).spec_capacity(),
            final(self).max_capacity() == old(self).max_capacity(),
    {
        self.buf.storage.fill(self.write_front, value);
        self.write_front = self.write_front + 1;
        if self.read_front < self.write_front {
            self.read_front = self.write_front;
            self.read_back = self.write_front;
        }
        proof {
            assert(self.kept_front() =~= old(self).kept_front().push(value));
            assert(self.remaining() =~= old(self).remaining());
            assert(self.kept_back() =~= old(self).kept_back());
        }
    }

    /// Fill one hole at the back with `value`.
    pub fn write_back(&mut self, value: T)
        requires
            old(self).wf(),
            old(self).back_slack() > 0,
        ensures
            final(self).wf(),
            final(self).kept_front() == old(self).kept_front(),
            final(self).remaining() == old(self).remaining(),
            final(self).kept_back() == seq![value] + old(self).kept_back(),
            final(self).write_front_pos() == old(self).write_front_pos(),
            final(self).write_back_pos() == old(self).write_back_pos() - 1,
            final(self).back_slack() == old(self).back_slack() - 1,
            final(self).front_slack() == if old(self).remaining().len() == 0 {
                old(self).front_slack() - 1
            } else {
                old(self).front_slack()
            },
            final(self).extent() == old(self).extent(),
            final(self).spec_capacity() == old(self).spec_capacity(),
            final(self).max_capacity() == old(self).max_capacity(),
    {
        self.write_back = self.write_back - 1;
        self.buf.storage.fill(self.write_back, value);
        if self.read_back > self.write_back {
            self.read_front = self.write_back;
            self.read_back = self.write_back;
        }
        proof {
            assert(self.kept_front() =~= old(self).kept_front());
            assert(self.remaining() =~= old(self).remaining());
            assert(self.kept_back() =~= seq![value] + old(self).kept_back());
        }
    }

    /// Keep the next `n` elements at the front, relocating them over front
    /// holes.
    pub fn skip_n_front(&mut self, n: usize)
        requires
            old(self).wf(),
            n as int <= old(self).remaining().len(),
        ensures
            final(self).wf(),
            final(self).kept_front() == old(self).kept_front() + old(self).remaining().take(
                n as int,
            ),
            final(self).remaining() == old(self).remaining().skip(n as int),
            final(self).kept_back() == old(self).kept_back(),
            final(self).write_front_pos() == old(self).write_front_pos() + n,
            final(self).read_front_pos() == old(self).read_front_pos() + n,
            final(self).read_back_pos() == old(self).read_back_pos(),
            final(self).write_back_pos() == old(self).write_back_pos(),
            final(self).extent() == old(self).extent(),
            final(self).spec_capacity() == old(self).spec_capacity(),
            final(self).max_capacity() == old(self).max_capacity(),
    {
        let mut i: usize = 0;
        proof {
            assert(self.kept_front() =~= old(self).kept_front() + old(self).remaining().take(0));
        }
        while i < n
            invariant
                i <= n,
                n as int <= old(self).remaining().len(),
                self.wf(),
                self.kept_front() == old(self).kept_front() + old(self).remaining().take(i as int),
                self.remaining() == old(self).remaining().skip(i as int),
                self.kept_back() == old(self).kept_back(),
                self.write_front == old(self).write_front + i,
                self.read_front == old(self).read_front + i,
                self.read_back == old(self).read_back,
                self.write_back == old(self).write_back,
                self.buf.len == old(self).buf.len,
                self.spec_capacity() == old(self).spec_capacity(),
                self.max_capacity() == old(self).max_capacity(),
            decreases n - i,
        {
            self.skip_front();
            i = i + 1;
            proof {
                assert(self.kept_front() =~= old(self).kept_front() + old(self).remaining().take(
                    i as int,
                ));
                assert(self.remaining() =~= old(self).remaining().skip(i as int));
            }
        }
    }

    /// Keep the last `n` elements at the back, relocating them over back
    /// holes.
    pub fn skip_n_back(&mut self, n: usize)
        requires
            old(self).wf(),
            n as int <= old(self).remaining().len(),
        ensures
            final(self).wf(),
            final(self).kept_front() == old(self).kept_front(),
            final(self).remaining() == old(self).remaining().take(
                old(self).remaining().len() - n,
            ),
            final(self).kept_back() == old(self).remaining().skip(
                old(self).remaining().len() - n,
            ) + old(self).kept_back(),
            final(self).write_front_pos() == old(self).write_front_pos(),
            final(self).read_front_pos() == old(self).read_front_pos(),
            final(self).read_back_pos() == old(self).read_back_pos() - n,
            final(self).write_back_pos() == old(self).write_back_pos() - n,
            final(self).extent() == old(self).extent(),
            final(self).spec_capacity() == old(self).spec_capacity(),
            final(self).max_capacity() == old(self).max_capacity(),
    {
        let ghost m = old(self).remaining().len();
        let mut i: usize = 0;
        proof {
            assert(self.remaining() =~= old(self).remaining().take(m - 0));
            assert(self.kept_back() =~= old(self).remaining().skip(m - 0) + old(self).kept_back());
        }
        while i < n
            invariant
                i <= n,
                n as int <= m,
                m == old(self).remaining().len(),
                self.wf(),
                self.kept_front() == old(self).kept_front(),
                self.remaining() == old(self).remaining().take(m - i),
                self.kept_back() == old(self).remaining().skip(m - i) + old(self).kept_back(),
                self.write_front == old(self).write_front,
                self.read_front == old(self).read_front,
                self.read_back == old(self).read_back - i,
                self.write_back == old(self).write_back - i,
                self.buf.len == old(self).buf.len,
                self.spec_capacity() == old(self).spec_capacity(),
                self.max_capacity() == old(self).max_capacity(),
            decreases n - i,
        {
            self.skip_back();
            i = i + 1;
            proof {
                assert(self.remaining() =~= old(self).remaining().take(m - i));
                assert(self.kept_back() =~= old(self).remaining().skip(m - i) + old(
                    self,
                ).kept_back());
            }
        }
    }

    /// Remove and release the next `n` elements at the front.
    pub fn drop_n_front(&mut self, n: usize)
        requires
            old(self).wf(),
            n as int <= old(self).remaining().len(),
        ensures
            final(self).wf(),
            final(self).kept_front() == old(self).kept_front(),
            final(self).remaining() == old(self).remaining().skip(n as int),
            final(self).kept_back() == old(self).kept_back(),
            final(self).write_front_pos() == old(self).write_front_pos(),
            final(self).read_front_pos() == old(self).read_front_pos() + n,
            final(self).read_back_pos() == old(self).read_back_pos(),
            final(self).write_back_pos() == old(self).write_back_pos(),
            final(self).extent() == old(self).extent(),
            final(self).spec_capacity() == old(self).spec_capacity(),
            final(self).max_capacity() == old(self).max_capacity(),
    {
        let mut i: usize = 0;
        proof {
            assert(self.remaining() =~= old(self).remaining().skip(0));
        }
        while i < n
            invariant
                i <= n,
                n as int <= old(self).remaining().len(),
                self.wf(),
                self.kept_front() == old(self).kept_front(),
                self.remaining() == old(self).remaining().skip(i as int),
                self.kept_back() == old(self).kept_back(),
                self.write_front == old(self).write_front,
                self.read_front == old(self).read_front + i,
                self.read_back == old(self).read_back,
                self.write_back == old(self).write_back,
                self.buf.len == old(self).buf.len,
                self.spec_capacity() == old(self).spec_capacity(),
                self.max_capacity() == old(self).max_capacity(),
            decreases n - i,
        {
            self.drop_front();
            i = i + 1;
            proof {
                assert(self.remaining() =~= old(self).remaining().skip(i as int));
            }
        }
    }

    /// Remove and release the last `n` elements at the back.
    pub fn drop_n_back(&mut self, n: usize)
        requires
            old(self).wf(),
            n as int <= old(self).remaining().len(),
        ensures
            final(self).wf(),
            final(self).kept_front() == old(self).kept_front(),
            final(self).remaining() == old(self).remaining().take(
                old(self).remaining().len() - n,
            ),
            final(self).kept_back() == old(self).kept_back(),
            final(self).write_front_pos() == old(self).write_front_pos(),
            final(self).read_front_pos() == old(self).read_front_pos(),
            final(self).read_back_pos() == old(self).read_back_pos() - n,
            final(self).write_back_pos() == old(self).write_back_pos(),
            final(self).extent() == old(self).extent(),
            final(self).spec_capacity() == old(self).spec_capacity(),
            final(self).max_capacity() == old(self).max_capacity(),
    {
        let ghost m = old(self).remaining().len();
        let mut i: usize = 0;
        proof {
            assert(self.remaining() =~= old(self).remaining().take(m - 0));
        }
        while i < n
            invariant
                i <= n,
                n as int <= m,
                m == old(self).remaining().len(),
                self.wf(),
                self.kept_front() == old(self).kept_front(),
                self.remaining() == old(self).remaining().take(m - i),
                self.kept_back() == old(self).kept_back(),
                self.write_front == old(self).write_front,
                self.read_front == old(self).read_front,
                self.read_back == old(self).read_back - i,
                self.write_back == old(self).write_back,
                self.buf.len == old(self).buf.len,
                self.spec_capacity() == old(self).spec_capacity(),
                self.max_capacity() == old(self).max_capacity(),
            decreases n - i,
        {
            self.drop_back();
            i = i + 1;
            proof {
                assert(self.remaining() =~= old(self).remaining().take(m - i));
            }
        }
    }

    /// Grow the write region so that at least `space` holes are available,
    /// growing the backend if needed. The cursor must be empty (balanced):
    /// growth may relocate the settled back block.
    pub fn reserve(&mut self, space: usize)
        requires
            old(self).wf(),
            old(self).remaining().len() == 0,
            old(self).kept_front().len() + old(self).kept_back().len() + space <= old(
                self,
            ).max_capacity(),
        ensures
            final(self).wf(),
            final(self).remaining().len() == 0,
            final(self).kept_front() == old(self).kept_front(),
            final(self).kept_back() == old(self).kept_back(),
            final(self).front_slack() >= space,
            final(self).write_front_pos() == old(self).write_front_pos(),
            final(self).spec_capacity() >= old(self).spec_capacity(),
            old(self).kept_front().len() + old(self).kept_back().len() + space <= old(self).spec_capacity() ==> final(self).spec_capacity() == old(self).spec_capacity(),
            final(self).max_capacity() == old(self).max_capacity(),
    {
        proof {
            self.buf.storage.lemma_max_capacity();
        }
        let write_space = self.write_back - self.write_front;
        if write_space >= space {
            return ;
        }
        let increase = space - write_space;
        let front_len = self.write_front;
        let back_len = self.buf.len - self.write_back;
        let needed = front_len + space + back_len;
        if needed > self.buf.storage.capacity() {
            let ghost before = self.buf.storage.slots();
            self.buf.storage.reserve(needed);
            proof {
                crate::seqs::lemma_subrange_eq_pointwise(self.buf.storage.slots(), before);
                assert(self.kept_front() =~= old(self).kept_front());
                assert(self.remaining() =~= old(self).remaining());
                assert(self.kept_back() =~= old(self).kept_back());
            }
        }
        let ghost s1 = self.buf.storage.slots();
        let ghost gap_back = self.write_back as int;
        let ghost ext = self.buf.len as int;
        proof {
            self.buf.storage.lemma_max_capacity();
            assert(vacant(s1, self.write_front as int, gap_back));
            assert(filled(s1, 0, self.write_front as int));
            assert(filled(s1, gap_back, ext));
            assert(vacant(s1, ext, s1.len() as int));
            assert(extract(s1, 0, self.write_front as int) =~= old(self).kept_front());
            assert(extract(s1, gap_back, ext) =~= old(self).kept_back());
        }
        shift_up(&mut self.buf.storage, self.write_back, self.write_back + increase, back_len);
        self.write_back = self.write_back + increase;
        self.read_front = self.write_front;
        self.read_back = self.write_front;
        self.buf.len = self.buf.len + increase;
        proof {
            let s2 = self.buf.storage.slots();
            assert(filled(s2, 0, self.write_front as int));
            assert(vacant(s2, self.write_front as int, self.write_back as int));
            assert(filled(s2, self.write_back as int, self.buf.len as int));
            assert(vacant(s2, self.buf.len as int, s2.len() as int));
            assert(self.kept_front() =~= extract(s1, 0, self.write_front as int));
            assert(self.remaining() =~= Seq::<T>::empty());
            assert(self.kept_back() =~= extract(s1, gap_back, ext));
        }
    }

    /// Fold every unvisited element into the kept region, shift the settled
    /// back block over any outstanding hole, commit the final length, and
    /// hand the buffer back.
    pub fn finish(self) -> (v: GenericVec<T, S>)
        requires
            self.wf(),
        ensures
            v.wf(),
            v@ == self.committed(),
            v.spec_capacity() == self.spec_capacity(),
            v.max_capacity() == self.max_capacity(),
    {
        let mut this = self;
        let n = this.read_back - this.read_front;
        this.skip_n_front(n);
        proof {
            assert(self.remaining().take(n as int) =~= self.remaining());
            assert(self.remaining().skip(n as int) =~= Seq::<T>::empty());
            assert(this.kept_front() == self.kept_front() + self.remaining());
        }
        let back_len = this.buf.len - this.write_back;
        let ghost folded = this.kept_front();
        let ghost tail = this.kept_back();
        let ghost s1 = this.buf.storage.slots();
        proof {
            this.buf.storage.lemma_max_capacity();
            assert(vacant(s1, this.write_front as int, this.write_back as int));
            assert(filled(s1, this.write_back as int, this.buf.len as int));
            assert(vacant(s1, this.buf.len as int, s1.len() as int));
        }
        shift_down(&mut this.buf.storage, this.write_back, this.write_front, back_len);
        let new_len = this.write_front + back_len;
        this.buf.len = new_len;
        proof {
            let s2 = this.buf.storage.slots();
            assert(filled(s2, 0, new_len as int));
            assert(vacant(s2, new_len as int, s2.len() as int));
            assert(folded == extract(s1, 0, this.write_front as int));
            assert(folded =~= extract(s2, 0, this.write_front as int));
            assert(tail == extract(s1, this.write_back as int, this.write_back + back_len));
            assert(tail == extract(s2, this.write_front as int, this.write_front + back_len));
            assert(this.buf@ =~= folded + tail);
            assert(folded + tail =~= self.committed());
        }
        let r = this.buf;
        r
    }
}

impl<T: Copy, S: Storage<T>> RawCursor<T, S> {
    /// Fill holes at the front with copies of `values`, in order.
    pub fn write_slice_front(&mut self, values: &[T])
        requires
            old(self).wf(),
            old(self).front_slack() >= values@.len(),
        ensures
            final(self).wf(),
            final(self).kept_front() == old(self).kept_front() + values@,
            final(self).remaining() == old(self).remaining(),
            final(self).kept_back() == old(self).kept_back(),
            final(self).write_front_pos() == old(self).write_front_pos() + values@.len(),
            final(self).write_back_pos() == old(self).write_back_pos(),
            final(self).extent() == old(self).extent(),
            final(self).spec_capacity() == old(self).spec_capacity(),
            final(self).max_capacity() == old(self).max_capacity(),
    {
        let mut i: usize = 0;
        proof {
            assert(self.kept_front() =~= old(self).kept_front() + values@.take(0));
        }
        while i < values.len()
            invariant
                i as int <= values@.len(),
                self.wf(),
                self.front_slack() >= values@.len() - i,
                self.kept_front() == old(self).kept_front() + values@.take(i as int),
                self.remaining() == old(self).remaining(),
                self.kept_back() == old(self).kept_back(),
                self.write_front == old(self).write_front + i,
                self.write_back == old(self).write_back,
                self.buf.len == old(self).buf.len,
                self.spec_capacity() == old(self).spec_capacity(),
                self.max_capacity() == old(self).max_capacity(),
            decreases values@.len() - i,
        {
            let v = values[i];
            self.write_front(v);
            i = i + 1;
            proof {
                assert(self.kept_front() =~= old(self).kept_front() + values@.take(i as int));
            }
        }
        proof {
            assert(values@.take(values@.len() as int) =~= values@);
        }
    }

    /// Fill holes at the back with copies of `values`; the slice lands in
    /// its given order just before the settled back block.
    pub fn write_slice_back(&mut self, values: &[T])
        requires
            old(self).wf(),
            old(self).back_slack() >= values@.len(),
        ensures
            final(self).wf(),
            final(self).kept_front() == old(self).kept_front(),
            final(self).remaining() == old(self).remaining(),
            final(self).kept_back() == values@ + old(self).kept_back(),
            final(self).write_front_pos() == old(self).write_front_pos(),
            final(self).write_back_pos() == old(self).write_back_pos() - values@.len(),
            final(self).extent() == old(self).extent(),
            final(self).spec_capacity() == old(self).spec_capacity(),
            final(self).max_capacity() == old(self).max_capacity(),
    {
        let mut i: usize = values.len();
        proof {
            assert(self.kept_back() =~= values@.skip(values@.len() as int) + old(self).kept_back());
        }
        while i > 0
            invariant
                i as int <= values@.len(),
                self.wf(),
                self.back_slack() >= i,
                self.kept_front() == old(self).kept_front(),
                self.remaining() == old(self).remaining(),
                self.kept_back() == values@.skip(i as int) + old(self).kept_back(),
                self.write_front == old(self).write_front,
                self.write_back as int == old(self).write_back - (values@.len() - i),
                self.buf.len == old(self).buf.len,
                self.spec_capacity() == old(self).spec_capacity(),
                self.max_capacity() == old(self).max_capacity(),
            decreases i,
        {
            i = i - 1;
            let v = values[i];
            self.write_back(v);
            proof {
                assert(self.kept_back() =~= values@.skip(i as int) + old(self).kept_back());
            }
        }
    }
}

impl<T, S: Storage<T>> GenericVec<T, S> {
    /// Begin a bulk operation over the elements `[start, end)`, handing the
    /// buffer to a [`RawCursor`]. The cursor's `finish` hands it back.
    pub fn raw_cursor(self, start: usize, end: usize) -> (r: RawCursor<T, S>)
        requires
            self.wf(),
            start <= end,
            end as int <= self@.len(),
        ensures
            r.wf(),
            r.kept_front() == self@.take(start as int),
            r.remaining() == self@.subrange(start as int, end as int),
            r.kept_back() == self@.skip(end as int),
            r.front_slack() == 0,
            r.back_slack() == 0,
            r.extent() == self@.len(),
            r.spec_capacity() == self.spec_capacity(),
            r.max_capacity() == self.max_capacity(),
    {
        RawCursor::new(self, start, end)
    }
}

} // verus!
