//! Storage backends.
//!
//! A backend owns a row of slots, each either holding one element or vacant.
//! The buffer built on top of a backend keeps its elements in a prefix of the
//! slots; the cursor primitives move elements between slots one at a time, so
//! a backend only has to answer for single slots: read one, empty one, fill
//! one, and grow the row.

use crate::seqs::vacant;
use vstd::prelude::*;

verus! {

/// The smallest slot count a growable backend allocates once it grows at all.
pub const MIN_GROWTH_CAPACITY: usize = 4;

/// The smaller of two capacities.
pub open spec fn cap_min(a: nat, b: nat) -> nat {
    if a <= b {
        a
    } else {
        b
    }
}

/// The larger of two capacities.
pub open spec fn cap_max(a: nat, b: nat) -> nat {
    if a >= b {
        a
    } else {
        b
    }
}

/// The capacity a growable backend reaches when asked for `want` slots while
/// holding `cur`: it at least doubles, never goes below a small floor, and is
/// clipped to the backend's hard bound.
pub open spec fn grow_target(cur: nat, want: nat, bound: nat) -> nat {
    cap_min(bound, cap_max(want, cap_max(2 * cur, MIN_GROWTH_CAPACITY as nat)))
}

/// Convert a capacity between element sizes: how many elements of
/// `size_other` bytes fit in (rounding down), or are needed to cover
/// (rounding up), `count` elements of `size_self` bytes.
///
/// The product is taken in a double-width integer so it cannot overflow; a
/// zero-sized target unit fits everywhere, so its capacity is unbounded.
/// Rounding a required count up and an available count down means a storage
/// region viewed through another element size never overcommits. The slot
/// backends in this crate hold exactly one element per slot and so never
/// convert; this is the arithmetic a view over differently sized units
/// rests on.
pub fn capacity(count: usize, size_self: usize, size_other: usize, round_up: bool) -> (r: usize)
    requires
        count * size_self <= usize::MAX,
    ensures
        size_other == 0 ==> r == usize::MAX,
        size_other > 0 && !round_up ==> r as int == (count * size_self) / (size_other as int),
        size_other > 0 && round_up ==> r as int == (count * size_self + size_other - 1) / (
        size_other as int),
{
    if size_other == 0 {
        return usize::MAX;
    }
    let total: u128 = (count as u128) * (size_self as u128);
    let rounded: u128 = if round_up {
        total + (size_other as u128) - 1
    } else {
        total
    };
    let units: u128 = rounded / (size_other as u128);
    proof {
        if round_up {
            vstd::arithmetic::div_mod::lemma_div_is_ordered(
                rounded as int,
                usize::MAX as int + size_other as int - 1,
                size_other as int,
            );
            assert((usize::MAX as int + size_other - 1) / (size_other as int) <= usize::MAX)
                by (nonlinear_arith)
                requires
                    size_other >= 1,
            ;
        } else {
            vstd::arithmetic::div_mod::lemma_div_is_ordered(
                rounded as int,
                usize::MAX as int,
                size_other as int,
            );
            assert(usize::MAX as int / (size_other as int) <= usize::MAX) by (nonlinear_arith)
                requires
                    size_other >= 1,
            ;
        }
    }
    units as usize
}

/// A backend that holds slots for elements of type `T`.
///
/// `slots()` is the backend's row of slots; `max_capacity()` is the hard
/// bound the row can never outgrow. A fixed backend's bound equals its slot
/// count, so asking it to grow past that bound is refused rather than
/// silently truncated.
pub trait Storage<T>: Sized {
    /// The row of slots, vacant or holding one element each.
    spec fn slots(&self) -> Seq<Option<T>>;

    /// The hard bound on how many slots the backend can ever hold.
    spec fn max_capacity(&self) -> nat;

    /// The slot count never exceeds the hard bound, and the bound itself is
    /// a machine-representable count.
    proof fn lemma_max_capacity(&self)
        ensures
            self.slots().len() <= self.max_capacity(),
            self.max_capacity() <= usize::MAX,
    ;

    /// How many slots the backend currently holds.
    fn capacity(&self) -> (r: usize)
        ensures
            r as nat == self.slots().len(),
    ;

    /// Read the element held by slot `i`.
    fn get(&self, i: usize) -> (r: &T)
        requires
            i < self.slots().len(),
            self.slots()[i as int] is Some,
        ensures
            *r == self.slots()[i as int]->0,
    ;

    /// Move the element out of slot `i`, leaving it vacant.
    fn take(&mut self, i: usize) -> (r: T)
        requires
            i < old(self).slots().len(),
            old(self).slots()[i as int] is Some,
        ensures
            r == old(self).slots()[i as int]->0,
            final(self).slots() == old(self).slots().update(i as int, None::<T>),
            final(self).max_capacity() == old(self).max_capacity(),
    ;

    /// Put `v` into the vacant slot `i`.
    fn fill(&mut self, i: usize, v: T)
        requires
            i < old(self).slots().len(),
            old(self).slots()[i as int] is None,
        ensures
            final(self).slots() == old(self).slots().update(i as int, Some(v)),
            final(self).max_capacity() == old(self).max_capacity(),
    ;

    /// Grow the row to at least `new_capacity` slots. Existing slots keep
    /// their contents, new slots are vacant, and the row never shrinks.
    fn reserve(&mut self, new_capacity: usize)
        requires
            new_capacity as nat <= old(self).max_capacity(),
        ensures
            final(self).max_capacity() == old(self).max_capacity(),
            final(self).slots().len() >= new_capacity,
            final(self).slots().len() >= old(self).slots().len(),
            final(self).slots().subrange(0, old(self).slots().len() as int) == old(
                self,
            ).slots(),
            vacant(
                final(self).slots(),
                old(self).slots().len() as int,
                final(self).slots().len() as int,
            ),
            old(self).slots().len() < new_capacity ==> final(self).slots().len()
                >= grow_target(
                old(self).slots().len(),
                new_capacity as nat,
                old(self).max_capacity(),
            ),
    ;

    /// Grow the row to at least `new_capacity` slots if the hard bound
    /// allows it; report failure instead of failing hard. A refused request
    /// changes nothing.
    fn try_reserve(&mut self, new_capacity: usize) -> (r: bool)
        ensures
            final(self).max_capacity() == old(self).max_capacity(),
            r <==> new_capacity as nat <= old(self).max_capacity(),
            r ==> final(self).slots().len() >= new_capacity,
            !r ==> final(self).slots() == old(self).slots(),
            final(self).slots().len() >= old(self).slots().len(),
            final(self).slots().subrange(0, old(self).slots().len() as int) == old(
                self,
            ).slots(),
            vacant(
                final(self).slots(),
                old(self).slots().len() as int,
                final(self).slots().len() as int,
            ),
    ;
}

/// A backend that can be created with a requested initial capacity.
pub trait StorageWithCapacity<T>: Storage<T> {
    /// Create a backend with at least `capacity` vacant slots.
    fn with_capacity(capacity: usize) -> (r: Self)
        ensures
            r.slots().len() >= capacity,
            r.max_capacity() >= capacity as nat,
            vacant(r.slots(), 0, r.slots().len() as int),
    ;
}

/// A row of `n` vacant slots.
fn vacant_row<T>(n: usize) -> (r: Vec<Option<T>>)
    ensures
        r@.len() == n,
        vacant(r@, 0, n as int),
{
    let mut r: Vec<Option<T>> = Vec::new();
    let mut i: usize = 0;
    while i < n
        invariant
            i <= n,
            r@.len() == i,
            vacant(r@, 0, i as int),
        decreases n - i,
    {
        r.push(None);
        i = i + 1;
    }
    r
}

/// Append vacant slots to `data` until it holds `target` slots.
fn grow_row<T>(data: &mut Vec<Option<T>>, target: usize)
    ensures
        final(data)@.len() >= target,
        final(data)@.len() >= old(data)@.len(),
        final(data)@.subrange(0, old(data)@.len() as int) == old(data)@,
        vacant(final(data)@, old(data)@.len() as int, final(data)@.len() as int),
        old(data)@.len() < target ==> final(data)@.len() == target,
{
    let ghost orig = data@;
    while data.len() < target
        invariant
            data@.len() >= orig.len(),
            orig.len() < target ==> data@.len() <= target,
            data@.subrange(0, orig.len() as int) == orig,
            vacant(data@, orig.len() as int, data@.len() as int),
        decreases target - data@.len(),
    {
        data.push(None);
        assert(data@.subrange(0, orig.len() as int) =~= orig);
    }
}

/// The capacity a growable backend aims for: `grow_target` as runnable code.
fn growth_amount(cur: usize, want: usize) -> (r: usize)
    ensures
        r as nat == grow_target(cur as nat, want as nat, usize::MAX as nat),
{
    let doubled: usize = if cur > usize::MAX / 2 {
        usize::MAX
    } else {
        2 * cur
    };
    let mut target: usize = want;
    if doubled > target {
        target = doubled;
    }
    if MIN_GROWTH_CAPACITY > target {
        target = MIN_GROWTH_CAPACITY;
    }
    target
}

/// The heap-backed growable backend: its row of slots can grow without a
/// bound other than the machine's.
pub struct Heap<T> {
    pub(crate) data: Vec<Option<T>>,
}

impl<T> Heap<T> {
    /// Create an empty heap backend with no slots.
    pub fn new() -> (r: Self)
        ensures
            r.slots() == Seq::<Option<T>>::empty(),
            r.max_capacity() == usize::MAX as nat,
    {
        Heap { data: Vec::new() }
    }

    /// Hand out the backing row of slots.
    pub fn into_raw_parts(self) -> (r: Vec<Option<T>>)
        ensures
            r@ == self.slots(),
    {
        self.data
    }

    /// Rebuild a heap backend from a row of slots, as handed out by
    /// [`Heap::into_raw_parts`].
    pub fn from_raw_parts(data: Vec<Option<T>>) -> (r: Self)
        ensures
            r.slots() == data@,
            r.max_capacity() == usize::MAX as nat,
    {
        Heap { data }
    }
}

impl<T> Storage<T> for Heap<T> {
    open(crate) spec fn slots(&self) -> Seq<Option<T>> {
        self.data@
    }

    open(crate) spec fn max_capacity(&self) -> nat {
        usize::MAX as nat
    }

    proof fn lemma_max_capacity(&self) {
        assert(vstd::std_specs::vec::spec_vec_len(&self.data) == self.data@.len());
    }

    fn capacity(&self) -> (r: usize) {
        self.data.len()
    }

    fn get(&self, i: usize) -> (r: &T) {
        self.data[i].as_ref().unwrap()
    }

    fn take(&mut self, i: usize) -> (r: T) {
        let slot = &mut self.data[i];
        let taken = slot.take();
        taken.unwrap()
    }

    fn fill(&mut self, i: usize, v: T) {
        self.data[i] = Some(v);
    }

    fn reserve(&mut self, new_capacity: usize) {
        if new_capacity > self.data.len() {
            let target = growth_amount(self.data.len(), new_capacity);
            grow_row(&mut self.data, target);
        }
    }

    fn try_reserve(&mut self, new_capacity: usize) -> (r: bool) {
        self.reserve(new_capacity);
        true
    }
}

impl<T> StorageWithCapacity<T> for Heap<T> {
    fn with_capacity(capacity: usize) -> (r: Self) {
        Heap { data: vacant_row(capacity) }
    }
}

/// The fixed-capacity owned backend: a row of slots whose count is chosen at
/// construction and never changes. Growing past it is refused, never
/// silently truncated.
pub struct UninitBuffer<T> {
    pub(crate) data: Vec<Option<T>>,
}

impl<T> UninitBuffer<T> {
    /// Create a fixed backend with `capacity` vacant slots.
    pub fn uninit(capacity: usize) -> (r: Self)
        ensures
            r.slots().len() == capacity,
            r.max_capacity() == capacity as nat,
            vacant(r.slots(), 0, capacity as int),
    {
        UninitBuffer { data: vacant_row(capacity) }
    }
}

impl<T> Storage<T> for UninitBuffer<T> {
    open(crate) spec fn slots(&self) -> Seq<Option<T>> {
        self.data@
    }

    open(crate) spec fn max_capacity(&self) -> nat {
        self.data@.len()
    }

    proof fn lemma_max_capacity(&self) {
        assert(vstd::std_specs::vec::spec_vec_len(&self.data) == self.data@.len());
    }

    fn capacity(&self) -> (r: usize) {
        self.data.len()
    }

    fn get(&self, i: usize) -> (r: &T) {
        self.data[i].as_ref().unwrap()
    }

    fn take(&mut self, i: usize) -> (r: T) {
        let slot = &mut self.data[i];
        let taken = slot.take();
        taken.unwrap()
    }

    fn fill(&mut self, i: usize, v: T) {
        self.data[i] = Some(v);
    }

    fn reserve(&mut self, new_capacity: usize) {
        proof {
            assert(self.data@.subrange(0, self.data@.len() as int) =~= self.data@);
        }
    }

    fn try_reserve(&mut self, new_capacity: usize) -> (r: bool) {
        proof {
            assert(self.data@.subrange(0, self.data@.len() as int) =~= self.data@);
        }
        new_capacity <= self.data.len()
    }
}

impl<T> StorageWithCapacity<T> for UninitBuffer<T> {
    fn with_capacity(capacity: usize) -> (r: Self) {
        UninitBuffer { data: vacant_row(capacity) }
    }
}

/// The counter-style backend for element types that carry no data: it
/// reports an unbounded capacity, because no memory needs to back such
/// elements, so pushing onto a buffer over this backend never fails and
/// reserving on it never does anything. In safe code the elements still have
/// to be owned somewhere, so the backend keeps the ones it holds in a short
/// row; its slot sequence is that row padded with vacant slots out to the
/// unbounded capacity, and filling a padded slot extends the row on demand.
pub struct ZeroSized<T> {
    pub(crate) data: Vec<Option<T>>,
}

impl<T> ZeroSized<T> {
    /// Create an empty counter backend. Its capacity is already unbounded.
    pub fn new() -> (r: Self)
        ensures
            r.slots().len() == usize::MAX as nat,
            vacant(r.slots(), 0, r.slots().len() as int),
            r.max_capacity() == usize::MAX as nat,
    {
        ZeroSized { data: Vec::new() }
    }
}

impl<T> Storage<T> for ZeroSized<T> {
    open(crate) spec fn slots(&self) -> Seq<Option<T>> {
        Seq::new(
            usize::MAX as nat,
            |i: int|
                if i < self.data@.len() {
                    self.data@[i]
                } else {
                    None
                },
        )
    }

    open(crate) spec fn max_capacity(&self) -> nat {
        usize::MAX as nat
    }

    proof fn lemma_max_capacity(&self) {
    }

    fn capacity(&self) -> (r: usize) {
        usize::MAX
    }

    fn get(&self, i: usize) -> (r: &T) {
        proof {
            assert(vstd::std_specs::vec::spec_vec_len(&self.data) == self.data@.len());
        }
        self.data[i].as_ref().unwrap()
    }

    fn take(&mut self, i: usize) -> (r: T) {
        proof {
            assert(vstd::std_specs::vec::spec_vec_len(&self.data) == self.data@.len());
        }
        let slot = &mut self.data[i];
        let taken = slot.take();
        proof {
            assert(self.slots() =~= old(self).slots().update(i as int, None::<T>));
        }
        taken.unwrap()
    }

    fn fill(&mut self, i: usize, v: T) {
        if i >= self.data.len() {
            grow_row(&mut self.data, i + 1);
        }
        self.data[i] = Some(v);
        proof {
            assert(self.slots() =~= old(self).slots().update(i as int, Some(v)));
        }
    }

    fn reserve(&mut self, new_capacity: usize) {
        proof {
            assert(self.slots().subrange(0, self.slots().len() as int) =~= self.slots());
        }
    }

    fn try_reserve(&mut self, new_capacity: usize) -> (r: bool) {
        proof {
            assert(self.slots().subrange(0, self.slots().len() as int) =~= self.slots());
        }
        true
    }
}

impl<T> StorageWithCapacity<T> for ZeroSized<T> {
    fn with_capacity(capacity: usize) -> (r: Self) {
        ZeroSized { data: Vec::new() }
    }
}

} // verus!
