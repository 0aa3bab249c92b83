//! The buffer type: a length plus a storage backend.
//!
//! The elements live in the first `len` slots of the backend; every slot
//! past the length is vacant. Every public operation keeps that shape, which
//! is the buffer's well-formedness (`wf`), and says exactly how it changes
//! the sequence of elements (`view`).

use crate::seqs::{dedup_by_model, extract, filled, vacant};
use crate::storage::{Heap, Storage, StorageWithCapacity, UninitBuffer, ZeroSized};
use core::marker::PhantomData;
use vstd::prelude::*;
use vstd::std_specs::cmp::PartialEqSpec;

verus! {

/// A buffer backed by the growable heap backend.
pub type HeapVec<T> = GenericVec<T, Heap<T>>;

/// A buffer backed by the fixed-capacity owned backend.
pub type TypeVec<T> = GenericVec<T, UninitBuffer<T>>;

/// A buffer backed by the fixed-capacity owned backend; the capacity is
/// chosen at construction instead of in the type.
pub type ArrayVec<T> = GenericVec<T, UninitBuffer<T>>;

/// A buffer backed by the counter-style backend for data-free element types.
pub type ZSVec<T> = GenericVec<T, ZeroSized<T>>;

/// What one comparison step of a keyed deduplication may report: `r` is a
/// possible outcome of computing the keys of `a` and `b` with `key` and
/// comparing them. Where the key type's `==` obeys its specification, `r` is
/// exactly whether those two computed keys are equal.
pub open spec fn key_comparison<T, K: PartialEq + PartialEqSpec, F: Fn(&T) -> K>(
    key: &F,
    a: T,
    b: T,
    r: bool,
) -> bool {
    exists|ka: K, kb: K|
        #![trigger call_ensures(key, (&a,), ka), call_ensures(key, (&b,), kb)]
        call_ensures(key, (&a,), ka) && call_ensures(key, (&b,), kb) && (K::obeys_eq_spec()
            ==> r == ka.eq_spec(&kb))
}

/// A buffer that can be backed by a variety of storage backends.
pub struct GenericVec<T, S: Storage<T>> {
    pub(crate) len: usize,
    pub(crate) storage: S,
    pub(crate) mark: PhantomData<T>,
}

impl<T, S: Storage<T>> View for GenericVec<T, S> {
    type V = Seq<T>;

    open(crate) spec fn view(&self) -> Seq<T> {
        extract(self.storage.slots(), 0, self.len as int)
    }
}

impl<T, S: Storage<T>> GenericVec<T, S> {
    /// Well-formedness: the elements sit in the first `len` slots and every
    /// slot past the length is vacant. In particular `len <= capacity`, and
    /// every index below the length is readable.
    pub open(crate) spec fn wf(&self) -> bool {
        &&& self.len as int <= self.storage.slots().len()
        &&& filled(self.storage.slots(), 0, self.len as int)
        &&& vacant(self.storage.slots(), self.len as int, self.storage.slots().len() as int)
    }

    /// How many elements the buffer can hold before its backend must grow.
    pub open(crate) spec fn spec_capacity(&self) -> nat {
        self.storage.slots().len()
    }

    /// The hard bound the backend can never outgrow.
    pub open(crate) spec fn max_capacity(&self) -> nat {
        self.storage.max_capacity()
    }

    /// The storage backend, as a spec-level value.
    pub open(crate) spec fn spec_storage(&self) -> S {
        self.storage
    }

    /// Create an empty buffer over a backend that holds no elements yet.
    pub fn with_storage(storage: S) -> (r: Self)
        requires
            vacant(storage.slots(), 0, storage.slots().len() as int),
        ensures
            r.wf(),
            r@ == Seq::<T>::empty(),
            r.spec_capacity() == storage.slots().len(),
            r.max_capacity() == storage.max_capacity(),
    {
        let r = GenericVec { len: 0, storage, mark: PhantomData };
        proof {
            assert(r@ =~= Seq::<T>::empty());
        }
        r
    }

    /// Split the buffer into its length and its backend.
    pub fn into_raw_parts(self) -> (r: (usize, S))
        ensures
            r.0 as int == self@.len(),
            r.1 == self.spec_storage(),
    {
        let GenericVec { len, storage, .. } = self;
        (len, storage)
    }

    /// Rebuild a buffer from a length and a backend. The first `len` slots
    /// must hold elements and the rest must be vacant — what
    /// [`GenericVec::into_raw_parts`] hands out.
    pub fn from_raw_parts(len: usize, storage: S) -> (r: Self)
        requires
            len as int <= storage.slots().len(),
            filled(storage.slots(), 0, len as int),
            vacant(storage.slots(), len as int, storage.slots().len() as int),
        ensures
            r.wf(),
            r@ == extract(storage.slots(), 0, len as int),
            r.spec_capacity() == storage.slots().len(),
            r.max_capacity() == storage.max_capacity(),
    {
        GenericVec { len, storage, mark: PhantomData }
    }

    /// The number of elements in the buffer.
    pub fn len(&self) -> (r: usize)
        ensures
            r as int == self@.len(),
    {
        self.len
    }

    /// The number of elements the buffer can hold without growing.
    pub fn capacity(&self) -> (r: usize)
        ensures
            r as nat == self.spec_capacity(),
    {
        self.storage.capacity()
    }

    /// True if and only if the buffer holds no elements.
    pub fn is_empty(&self) -> (r: bool)
        ensures
            r <==> self@.len() == 0,
    {
        self.len == 0
    }

    /// True if and only if the length equals the capacity.
    pub fn is_full(&self) -> (r: bool)
        ensures
            r <==> self@.len() == self.spec_capacity(),
    {
        self.len == self.storage.capacity()
    }

    /// How many more elements fit without growing.
    pub fn remaining_capacity(&self) -> (r: usize)
        requires
            self.wf(),
        ensures
            r as int == self.spec_capacity() - self@.len(),
    {
        self.storage.capacity() - self.len
    }

    /// The underlying storage backend.
    pub fn storage(&self) -> (r: &S)
        ensures
            *r == self.spec_storage(),
    {
        &self.storage
    }

    /// Read the element at `index`, or `None` past the length.
    pub fn get(&self, index: usize) -> (r: Option<&T>)
        requires
            self.wf(),
        ensures
            match r {
                Some(v) => index < self@.len() && *v == self@[index as int],
                None => index >= self@.len(),
            },
    {
        if index < self.len {
            Some(self.storage.get(index))
        } else {
            None
        }
    }

    /// Append an element.
    ///
    /// Grows the backend when the buffer is full, so the length must be
    /// below the backend's hard bound.
    pub fn push(&mut self, value: T)
        requires
            old(self).wf(),
            old(self)@.len() < old(self).max_capacity(),
        ensures
            final(self).wf(),
            final(self)@ == old(self)@.push(value),
            final(self).max_capacity() == old(self).max_capacity(),
            final(self).spec_capacity() >= old(self).spec_capacity(),
            old(self)@.len() < old(self).spec_capacity() ==> final(self).spec_capacity() == old(self).spec_capacity(),
    {
        proof {
            self.storage.lemma_max_capacity();
        }
        if self.len == self.storage.capacity() {
            self.storage.reserve(self.len + 1);
            proof {
                crate::seqs::lemma_subrange_eq_pointwise(
                    self.storage.slots(),
                    old(self).storage.slots(),
                );
            }
        }
        self.storage.fill(self.len, value);
        self.len = self.len + 1;
        proof {
            assert(self@ =~= old(self)@.push(value));
        }
    }

    /// Append an element if the buffer is not full; hand the element back
    /// if it is. Never grows the backend.
    pub fn try_push(&mut self, value: T) -> (r: Result<(), T>)
        requires
            old(self).wf(),
        ensures
            final(self).wf(),
            final(self).max_capacity() == old(self).max_capacity(),
            final(self).spec_capacity() == old(self).spec_capacity(),
            old(self)@.len() < old(self).spec_capacity() ==> r is Ok && final(self)@ == old(self)@.push(value),
            old(self)@.len() == old(self).spec_capacity() ==> r == Err::<(), T>(value) && final(self)@ == old(self)@,
    {
        if self.len == self.storage.capacity() {
            Err(value)
        } else {
            self.storage.fill(self.len, value);
            self.len = self.len + 1;
            proof {
                assert(self@ =~= old(self)@.push(value));
            }
            Ok(())
        }
    }

    /// Remove and return the last element; the buffer must not be empty.
    pub fn pop(&mut self) -> (r: T)
        requires
            old(self).wf(),
            old(self)@.len() > 0,
        ensures
            final(self).wf(),
            r == old(self)@.last(),
            final(self)@ == old(self)@.drop_last(),
            final(self).max_capacity() == old(self).max_capacity(),
            final(self).spec_capacity() == old(self).spec_capacity(),
    {
        let r = self.storage.take(self.len - 1);
        self.len = self.len - 1;
        proof {
            assert(self@ =~= old(self)@.drop_last());
        }
        r
    }

    /// Remove and return the last element, or `None` if the buffer is empty.
    pub fn try_pop(&mut self) -> (r: Option<T>)
        requires
            old(self).wf(),
        ensures
            final(self).wf(),
            final(self).max_capacity() == old(self).max_capacity(),
            final(self).spec_capacity() == old(self).spec_capacity(),
            old(self)@.len() > 0 ==> r == Some(old(self)@.last()) && final(self)@ == old(self)@.drop_last(),
            old(self)@.len() == 0 ==> r is None && final(self)@ == old(self)@,
    {
        if self.len == 0 {
            None
        } else {
            Some(self.pop())
        }
    }

    /// Shorten the buffer to at most `new_len` elements, releasing the rest.
    /// A `new_len` at or above the length leaves the buffer unchanged.
    pub fn truncate(&mut self, new_len: usize)
        requires
            old(self).wf(),
        ensures
            final(self).wf(),
            final(self)@ == if new_len as int <= old(self)@.len() {
                old(self)@.take(new_len as int)
            } else {
                old(self)@
            },
            final(self).max_capacity() == old(self).max_capacity(),
            final(self).spec_capacity() == old(self).spec_capacity(),
    {
        if new_len >= self.len {
            return ;
        }
        proof {
            assert(self@ =~= old(self)@.take(self.len as int));
        }
        while self.len > new_len
            invariant
                self.wf(),
                new_len <= self.len,
                self.len as int <= old(self)@.len(),
                self@ == old(self)@.take(self.len as int),
                self.max_capacity() == old(self).max_capacity(),
                self.spec_capacity() == old(self).spec_capacity(),
            decreases self.len,
        {
            let ghost prev = self@;
            let _ = self.storage.take(self.len - 1);
            self.len = self.len - 1;
            proof {
                assert(self@ =~= prev.drop_last());
                assert(self@ =~= old(self)@.take(self.len as int));
            }
        }
    }

    /// Remove every element.
    pub fn clear(&mut self)
        requires
            old(self).wf(),
        ensures
            final(self).wf(),
            final(self)@ == Seq::<T>::empty(),
            final(self).max_capacity() == old(self).max_capacity(),
            final(self).spec_capacity() == old(self).spec_capacity(),
    {
        self.truncate(0);
        proof {
            assert(old(self)@.take(0) =~= Seq::<T>::empty());
        }
    }

    /// Make room for at least `additional` more elements, growing the
    /// backend if needed. The request must fit under the backend's hard
    /// bound; use [`GenericVec::try_reserve`] to ask instead of demand.
    pub fn reserve(&mut self, additional: usize)
        requires
            old(self).wf(),
            old(self)@.len() + additional <= old(self).max_capacity(),
        ensures
            final(self).wf(),
            final(self)@ == old(self)@,
            final(self).spec_capacity() >= old(self)@.len() + additional,
            final(self).spec_capacity() >= old(self).spec_capacity(),
            old(self).spec_capacity() >= old(self)@.len() + additional ==> final(self).spec_capacity() == old(self).spec_capacity(),
            final(self).max_capacity() == old(self).max_capacity(),
    {
        proof {
            self.storage.lemma_max_capacity();
        }
        if self.storage.capacity() - self.len < additional {
            self.storage.reserve(self.len + additional);
            proof {
                crate::seqs::lemma_subrange_eq_pointwise(
                    self.storage.slots(),
                    old(self).storage.slots(),
                );
                assert(self@ =~= old(self)@);
            }
        }
    }

    /// Make room for at least `additional` more elements if the backend's
    /// hard bound allows it; report whether it did. Never fails hard.
    pub fn try_reserve(&mut self, additional: usize) -> (r: bool)
        requires
            old(self).wf(),
        ensures
            final(self).wf(),
            final(self)@ == old(self)@,
            r <==> old(self)@.len() + additional <= old(self).max_capacity(),
            r ==> final(self).spec_capacity() >= old(self)@.len() + additional,
            !r ==> final(self).spec_capacity() == old(self).spec_capacity(),
            old(self).spec_capacity() >= old(self)@.len() + additional ==> final(self).spec_capacity() == old(self).spec_capacity(),
            final(self).spec_capacity() >= old(self).spec_capacity(),
            final(self).max_capacity() == old(self).max_capacity(),
    {
        proof {
            self.storage.lemma_max_capacity();
        }
        if self.storage.capacity() - self.len >= additional {
            true
        } else if additional > usize::MAX - self.len {
            false
        } else {
            let r = self.storage.try_reserve(self.len + additional);
            proof {
                crate::seqs::lemma_subrange_eq_pointwise(
                    self.storage.slots(),
                    old(self).storage.slots(),
                );
                assert(self@ =~= old(self)@);
            }
            r
        }
    }
}

impl<T, S: Storage<T>> GenericVec<T, S> {
    /// Insert `value` at `index`, shifting the elements after it one slot to
    /// the right. Grows the backend when the buffer is full.
    pub fn insert(&mut self, index: usize, value: T)
        requires
            old(self).wf(),
            index as int <= old(self)@.len(),
            old(self)@.len() < old(self).max_capacity(),
        ensures
            final(self).wf(),
            final(self)@ == old(self)@.insert(index as int, value),
            final(self).max_capacity() == old(self).max_capacity(),
            final(self).spec_capacity() >= old(self).spec_capacity(),
            old(self)@.len() < old(self).spec_capacity() ==> final(self).spec_capacity() == old(self).spec_capacity(),
    {
        proof {
            self.storage.lemma_max_capacity();
        }
        if self.len == self.storage.capacity() {
            self.storage.reserve(self.len + 1);
        }
        let ghost s0 = self.storage.slots();
        proof {
            assert(s0.subrange(0, old(self).storage.slots().len() as int) =~= old(self).storage.slots());
            crate::seqs::lemma_subrange_eq_pointwise(s0, old(self).storage.slots());
            assert(forall|i: int|
                0 <= i < old(self).storage.slots().len() ==> s0[i] == old(self).storage.slots()[i]);
        }
        let mut j: usize = self.len;
        while j > index
            invariant
                index <= j <= self.len,
                self.len == old(self).len,
                (self.len as int) < s0.len(),
                filled(s0, 0, self.len as int),
                vacant(s0, self.len as int, s0.len() as int),
                self.storage.slots().len() == s0.len(),
                self.storage.max_capacity() == old(self).storage.max_capacity(),
                forall|i: int| 0 <= i < j ==> self.storage.slots()[i] == s0[i],
                self.storage.slots()[j as int] is None,
                forall|i: int|
                    j < i <= self.len ==> self.storage.slots()[i] == s0[i - 1],
                forall|i: int|
                    self.len < i < s0.len() && i != j ==> self.storage.slots()[i] == s0[i],
            decreases j,
        {
            j = j - 1;
            proof {
                assert(self.storage.slots()[j as int] == s0[j as int]);
            }
            let v = self.storage.take(j);
            self.storage.fill(j + 1, v);
        }
        self.storage.fill(index, value);
        self.len = self.len + 1;
        proof {
            assert forall|i: int| 0 <= i < self@.len() implies self@[i] == old(self)@.insert(
                index as int,
                value,
            )[i] by {
                assert(self.storage.slots()[i] == if i < index {
                    s0[i]
                } else if i == index {
                    Some(value)
                } else {
                    s0[i - 1]
                });
            }
            assert(self@ =~= old(self)@.insert(index as int, value));
            assert forall|i: int|
                0 <= i < self.len as int implies self.storage.slots()[i] is Some by {
                assert(self.storage.slots()[i] == if i < index {
                    s0[i]
                } else if i == index {
                    Some(value)
                } else {
                    s0[i - 1]
                });
            }
            assert forall|i: int|
                self.len as int <= i
                    < self.storage.slots().len() implies self.storage.slots()[i] is None by {
                assert(self.storage.slots()[i] == s0[i]);
            }
        }
    }

    /// Insert `value` at `index` if the buffer has room and the index is in
    /// bounds; hand the element back otherwise. Never grows the backend.
    pub fn try_insert(&mut self, index: usize, value: T) -> (r: Result<(), T>)
        requires
            old(self).wf(),
        ensures
            final(self).wf(),
            final(self).max_capacity() == old(self).max_capacity(),
            final(self).spec_capacity() == old(self).spec_capacity(),
            (index as int <= old(self)@.len() && old(self)@.len() < old(self).spec_capacity())
                ==> r is Ok && final(self)@ == old(self)@.insert(index as int, value),
            ((index as int) > old(self)@.len() || old(self)@.len() == old(self).spec_capacity())
                ==> r == Err::<(), T>(value) && final(self)@ == old(self)@,
    {
        proof {
            self.storage.lemma_max_capacity();
        }
        if self.len == self.storage.capacity() || index > self.len {
            Err(value)
        } else {
            self.insert(index, value);
            Ok(())
        }
    }

    /// Remove and return the element at `index`, shifting the elements after
    /// it one slot to the left.
    pub fn remove(&mut self, index: usize) -> (r: T)
        requires
            old(self).wf(),
            (index as int) < old(self)@.len(),
        ensures
            final(self).wf(),
            r == old(self)@[index as int],
            final(self)@ == old(self)@.remove(index as int),
            final(self).max_capacity() == old(self).max_capacity(),
            final(self).spec_capacity() == old(self).spec_capacity(),
    {
        let r = self.storage.take(index);
        let mut j: usize = index;
        while j + 1 < self.len
            invariant
                index <= j,
                (j as int) < old(self)@.len(),
                self.len == old(self).len,
                self.storage.slots().len() == old(self).storage.slots().len(),
                self.storage.max_capacity() == old(self).storage.max_capacity(),
                old(self).wf(),
                forall|i: int|
                    0 <= i < j ==> self.storage.slots()[i] == (if i < index {
                        old(self).storage.slots()[i]
                    } else {
                        old(self).storage.slots()[i + 1]
                    }),
                self.storage.slots()[j as int] is None,
                forall|i: int|
                    j < i < self.storage.slots().len() ==> self.storage.slots()[i] == old(self).storage.slots()[i],
            decreases self.len - j,
        {
            let v = self.storage.take(j + 1);
            self.storage.fill(j, v);
            j = j + 1;
        }
        self.len = self.len - 1;
        proof {
            assert(self@ =~= old(self)@.remove(index as int));
        }
        r
    }

    /// Remove and return the element at `index`, or `None` when `index` is
    /// out of bounds. Shifts the elements after it one slot to the left.
    pub fn try_remove(&mut self, index: usize) -> (r: Option<T>)
        requires
            old(self).wf(),
        ensures
            final(self).wf(),
            final(self).max_capacity() == old(self).max_capacity(),
            final(self).spec_capacity() == old(self).spec_capacity(),
            (index as int) < old(self)@.len() ==> r == Some(old(self)@[index as int]) && final(self)@ == old(self)@.remove(index as int),
            (index as int) >= old(self)@.len() ==> r is None && final(self)@ == old(self)@,
    {
        if index < self.len {
            Some(self.remove(index))
        } else {
            None
        }
    }

    /// Remove and return the element at `index`, putting the last element in
    /// its place. Does not preserve the order of the remaining elements.
    pub fn swap_remove(&mut self, index: usize) -> (r: T)
        requires
            old(self).wf(),
            (index as int) < old(self)@.len(),
        ensures
            final(self).wf(),
            r == old(self)@[index as int],
            final(self)@ == old(self)@.update(index as int, old(self)@.last()).drop_last(),
            final(self).max_capacity() == old(self).max_capacity(),
            final(self).spec_capacity() == old(self).spec_capacity(),
    {
        if index + 1 == self.len {
            let r = self.pop();
            proof {
                assert(self@ =~= old(self)@.update(index as int, old(self)@.last()).drop_last());
            }
            r
        } else {
            let r = self.storage.take(index);
            let v = self.storage.take(self.len - 1);
            self.storage.fill(index, v);
            self.len = self.len - 1;
            proof {
                assert(self@ =~= old(self)@.update(index as int, old(self)@.last()).drop_last());
            }
            r
        }
    }

    /// Remove and return the element at `index`, putting the last element in
    /// its place, or `None` when `index` is out of bounds.
    pub fn try_swap_remove(&mut self, index: usize) -> (r: Option<T>)
        requires
            old(self).wf(),
        ensures
            final(self).wf(),
            final(self).max_capacity() == old(self).max_capacity(),
            final(self).spec_capacity() == old(self).spec_capacity(),
            (index as int) < old(self)@.len() ==> r == Some(old(self)@[index as int]) && final(self)@ == old(self)@.update(index as int, old(self)@.last()).drop_last(),
            (index as int) >= old(self)@.len() ==> r is None && final(self)@ == old(self)@,
    {
        if index < self.len {
            Some(self.swap_remove(index))
        } else {
            None
        }
    }

    /// The walk shared by the deduplicating operations: remove all but the
    /// first of consecutive elements that `same_bucket` reports equal,
    /// comparing each element against the last element kept so far, and hand
    /// back the sequence of its decisions.
    #[verifier::rlimit(60)]
    fn dedup_by_core<F: Fn(&T, &T) -> bool>(&mut self, same_bucket: F) -> (dec: Ghost<Seq<bool>>)
        requires
            old(self).wf(),
            forall|a: &T, b: &T| #[trigger] call_requires(same_bucket, (a, b)),
        ensures
            final(self).wf(),
            final(self).max_capacity() == old(self).max_capacity(),
            final(self).spec_capacity() == old(self).spec_capacity(),
            old(self)@.len() == 0 ==> final(self)@ == old(self)@,
            old(self)@.len() > 0 ==> dec@.len() + 1 == old(self)@.len() && final(self)@
                == dedup_by_model(old(self)@, dec@) && (forall|j: int|
                #![trigger dec@.take(j - 1)]
                1 <= j < old(self)@.len() ==> call_ensures(
                    same_bucket,
                    (
                        &old(self)@[j],
                        &dedup_by_model(old(self)@.take(j), dec@.take(j - 1)).last(),
                    ),
                    dec@[j - 1],
                )),
    {
        let ghost orig = self@;
        let ghost mut same = Seq::<bool>::empty();
        if self.len <= 1 {
            proof {
                assert(dedup_by_model(orig, same) == orig);
            }
            return Ghost(same);
        }
        let len0 = self.len;
        let mut w: usize = 1;
        let mut r: usize = 1;
        proof {
            assert(extract(self.storage.slots(), 0, 1) =~= dedup_by_model(orig.take(1), same));
        }
        while r < len0
            invariant
                orig == old(self)@,
                len0 == self.len,
                len0 as int == orig.len(),
                1 <= w <= r <= len0,
                same.len() == r - 1,
                old(self).wf(),
                forall|a: &T, b: &T| #[trigger] call_requires(same_bucket, (a, b)),
                self.storage.slots().len() == old(self).storage.slots().len(),
                self.storage.max_capacity() == old(self).storage.max_capacity(),
                extract(self.storage.slots(), 0, w as int) == dedup_by_model(
                    orig.take(r as int),
                    same,
                ),
                w as int == dedup_by_model(orig.take(r as int), same).len(),
                filled(self.storage.slots(), 0, w as int),
                vacant(self.storage.slots(), w as int, r as int),
                forall|i: int|
                    r <= i < self.storage.slots().len() ==> self.storage.slots()[i] == old(
                        self,
                    ).storage.slots()[i],
                forall|j: int|
                    1 <= j <= r - 1 ==> call_ensures(
                        same_bucket,
                        (&orig[j], &dedup_by_model(orig.take(j), same.take(j - 1)).last()),
                        same[j - 1],
                    ),
            decreases len0 - r,
        {
            let ghost same0 = same;
            let a_ref = self.storage.get(r);
            let b_ref = self.storage.get(w - 1);
            let matched = same_bucket(a_ref, b_ref);
            proof {
                same = same.push(matched);
                assert(same.take(r as int - 1) =~= same0);
                assert(*b_ref == dedup_by_model(orig.take(r as int), same0).last());
                assert(call_ensures(
                    same_bucket,
                    (&orig[r as int], &dedup_by_model(orig.take(r as int), same.take(r as int - 1)).last()),
                    matched,
                ));
                assert(orig.take(r as int + 1).drop_last() =~= orig.take(r as int));
                assert forall|j: int| 1 <= j <= r - 1 implies call_ensures(
                    same_bucket,
                    (&orig[j], &dedup_by_model(orig.take(j), same.take(j - 1)).last()),
                    same[j - 1],
                ) by {
                    assert(same.take(j - 1) =~= same0.take(j - 1));
                }
            }
            if matched {
                let _ = self.storage.take(r);
            } else {
                if w != r {
                    let v = self.storage.take(r);
                    self.storage.fill(w, v);
                }
                w = w + 1;
            }
            r = r + 1;
            proof {
                assert(extract(self.storage.slots(), 0, w as int) =~= dedup_by_model(
                    orig.take(r as int),
                    same,
                ));
            }
        }
        self.len = w;
        proof {
            assert(orig.take(len0 as int) =~= orig);
            assert(self@ =~= dedup_by_model(orig, same));
        }
        Ghost(same)
    }

    /// Remove all but the first of consecutive elements that `same_bucket`
    /// reports equal. Each element is compared against the last element kept
    /// so far; if the buffer is sorted, this removes all duplicates.
    pub fn dedup_by<F: Fn(&T, &T) -> bool>(&mut self, same_bucket: F)
        requires
            old(self).wf(),
            forall|a: &T, b: &T| #[trigger] call_requires(same_bucket, (a, b)),
        ensures
            final(self).wf(),
            final(self).max_capacity() == old(self).max_capacity(),
            final(self).spec_capacity() == old(self).spec_capacity(),
            old(self)@.len() == 0 ==> final(self)@ == old(self)@,
            old(self)@.len() > 0 ==> exists|same: Seq<bool>|
                #![auto]
                same.len() + 1 == old(self)@.len() && final(self)@ == dedup_by_model(
                    old(self)@,
                    same,
                ) && (forall|j: int|
                    #![trigger same.take(j - 1)]
                    1 <= j < old(self)@.len() ==> call_ensures(
                        same_bucket,
                        (
                            &old(self)@[j],
                            &dedup_by_model(old(self)@.take(j), same.take(j - 1)).last(),
                        ),
                        same[j - 1],
                    )),
    {
        let _dec = self.dedup_by_core(same_bucket);
    }

    /// Remove all but the first of consecutive equal elements; if the buffer
    /// is sorted, this removes all duplicates. Equality is the element
    /// type's `==`; the exact contract speaks through its specification and
    /// therefore holds where that specification is obeyed.
    pub fn dedup(&mut self)
        where T: PartialEq + PartialEqSpec
        requires
            old(self).wf(),
        ensures
            final(self).wf(),
            final(self).max_capacity() == old(self).max_capacity(),
            final(self).spec_capacity() == old(self).spec_capacity(),
            old(self)@.len() == 0 ==> final(self)@ == old(self)@,
            T::obeys_eq_spec() && old(self)@.len() > 0 ==> exists|same: Seq<bool>|
                #![auto]
                same.len() + 1 == old(self)@.len() && final(self)@ == dedup_by_model(
                    old(self)@,
                    same,
                ) && (forall|j: int|
                    #![trigger same.take(j - 1)]
                    1 <= j < old(self)@.len() ==> same[j - 1] == old(self)@[j].eq_spec(
                        &dedup_by_model(old(self)@.take(j), same.take(j - 1)).last(),
                    )),
    {
        let eq_buckets = |a: &T, b: &T| -> (r: bool)
            ensures
                T::obeys_eq_spec() ==> r == a.eq_spec(b),
            { a == b };
        let dec = self.dedup_by_core(eq_buckets);
        proof {
            if T::obeys_eq_spec() && old(self)@.len() > 0 {
                let same = dec@;
                assert forall|j: int|
                    #![trigger same.take(j - 1)]
                    1 <= j < old(self)@.len() implies same[j - 1] == old(self)@[j].eq_spec(
                    &dedup_by_model(old(self)@.take(j), same.take(j - 1)).last(),
                ) by {}
                assert(same.len() + 1 == old(self)@.len() && final(self)@ == dedup_by_model(
                    old(self)@,
                    same,
                ) && (forall|j: int|
                    #![trigger same.take(j - 1)]
                    1 <= j < old(self)@.len() ==> same[j - 1] == old(self)@[j].eq_spec(
                        &dedup_by_model(old(self)@.take(j), same.take(j - 1)).last(),
                    )));
            }
        }
    }

    /// Remove all but the first of consecutive elements that resolve to the
    /// same key; if the buffer is sorted by that key, this removes all
    /// duplicates. Each element's key is compared against the key of the
    /// last element kept so far.
    pub fn dedup_by_key<K: PartialEq + PartialEqSpec, F: Fn(&T) -> K>(&mut self, key: &F)
        requires
            old(self).wf(),
            forall|t: &T| #[trigger] call_requires(key, (t,)),
        ensures
            final(self).wf(),
            final(self).max_capacity() == old(self).max_capacity(),
            final(self).spec_capacity() == old(self).spec_capacity(),
            old(self)@.len() == 0 ==> final(self)@ == old(self)@,
            old(self)@.len() > 0 ==> exists|same: Seq<bool>|
                #![auto]
                same.len() + 1 == old(self)@.len() && final(self)@ == dedup_by_model(
                    old(self)@,
                    same,
                ) && (forall|j: int|
                    #![trigger same.take(j - 1)]
                    1 <= j < old(self)@.len() ==> key_comparison(
                        key,
                        old(self)@[j],
                        dedup_by_model(old(self)@.take(j), same.take(j - 1)).last(),
                        same[j - 1],
                    )),
    {
        let keys_match = |a: &T, b: &T| -> (r: bool)
            requires
                call_requires(key, (a,)),
                call_requires(key, (b,)),
            ensures
                key_comparison(key, *a, *b, r),
            {
                let ka = key(a);
                let kb = key(b);
                let matched = ka == kb;
                proof {
                    assert(call_ensures(key, (&*a,), ka) && call_ensures(key, (&*b,), kb) && (
                    K::obeys_eq_spec() ==> matched == ka.eq_spec(&kb)));
                    assert(key_comparison(key, *a, *b, matched));
                }
                matched
            };
        let dec = self.dedup_by_core(keys_match);
        proof {
            if old(self)@.len() > 0 {
                let same = dec@;
                assert forall|j: int|
                    #![trigger same.take(j - 1)]
                    1 <= j < old(self)@.len() implies key_comparison(
                    key,
                    old(self)@[j],
                    dedup_by_model(old(self)@.take(j), same.take(j - 1)).last(),
                    same[j - 1],
                ) by {
                    assert(call_ensures(
                        keys_match,
                        (
                            &old(self)@[j],
                            &dedup_by_model(old(self)@.take(j), same.take(j - 1)).last(),
                        ),
                        same[j - 1],
                    ));
                }
                assert(final(self)@ == dedup_by_model(old(self)@, same));
            }
        }
    }

    /// Move every element of `self` starting at `index` to the end of
    /// `other`, leaving `self` with the elements before `index`.
    pub fn split_off_into<B: Storage<T>>(&mut self, index: usize, other: &mut GenericVec<T, B>)
        requires
            old(self).wf(),
            old(other).wf(),
            index as int <= old(self)@.len(),
            old(other)@.len() + (old(self)@.len() - index) <= old(other).max_capacity(),
        ensures
            final(self).wf(),
            final(other).wf(),
            final(self)@ == old(self)@.take(index as int),
            final(other)@ == old(other)@ + old(self)@.skip(index as int),
            final(self).max_capacity() == old(self).max_capacity(),
            final(self).spec_capacity() == old(self).spec_capacity(),
            final(other).max_capacity() == old(other).max_capacity(),
            final(other).spec_capacity() >= old(other).spec_capacity(),
    {
        let mut i: usize = index;
        proof {
            assert(other@ =~= old(other)@ + old(self)@.subrange(index as int, i as int));
        }
        while i < self.len
            invariant
                index <= i <= self.len,
                self.len == old(self).len,
                old(self).wf(),
                self.storage.slots().len() == old(self).storage.slots().len(),
                self.storage.max_capacity() == old(self).storage.max_capacity(),
                vacant(self.storage.slots(), index as int, i as int),
                forall|i2: int|
                    (0 <= i2 < index || i <= i2 < self.storage.slots().len())
                        ==> self.storage.slots()[i2] == old(self).storage.slots()[i2],
                other.wf(),
                other@ == old(other)@ + old(self)@.subrange(index as int, i as int),
                other.max_capacity() == old(other).max_capacity(),
                other.spec_capacity() >= old(other).spec_capacity(),
                old(other)@.len() + (old(self)@.len() - index) <= old(other).max_capacity(),
            decreases self.len - i,
        {
            let v = self.storage.take(i);
            other.push(v);
            i = i + 1;
            proof {
                assert(other@ =~= old(other)@ + old(self)@.subrange(index as int, i as int));
            }
        }
        self.len = index;
        proof {
            assert(self@ =~= old(self)@.take(index as int));
            assert(old(self)@.subrange(index as int, old(self)@.len() as int) =~= old(self)@.skip(index as int));
        }
    }

    /// Split the buffer at `index`: the elements from `index` on move into a
    /// fresh buffer over backend `B`, and `self` keeps the rest.
    pub fn split_off<B: StorageWithCapacity<T>>(&mut self, index: usize) -> (r: GenericVec<T, B>)
        requires
            old(self).wf(),
            index as int <= old(self)@.len(),
        ensures
            final(self).wf(),
            r.wf(),
            final(self)@ == old(self)@.take(index as int),
            r@ == old(self)@.skip(index as int),
            r.spec_capacity() >= old(self)@.len() - index,
            final(self).max_capacity() == old(self).max_capacity(),
            final(self).spec_capacity() == old(self).spec_capacity(),
    {
        let mut r = GenericVec::<T, B>::with_capacity(self.len - index);
        self.split_off_into(index, &mut r);
        proof {
            assert(r@ =~= old(self)@.skip(index as int));
        }
        r
    }

    /// Move every element of `other` to the end of `self`, leaving `other`
    /// empty. Neither buffer's backend shrinks.
    pub fn append<B: Storage<T>>(&mut self, other: &mut GenericVec<T, B>)
        requires
            old(self).wf(),
            old(other).wf(),
            old(self)@.len() + old(other)@.len() <= old(self).max_capacity(),
        ensures
            final(self).wf(),
            final(other).wf(),
            final(self)@ == old(self)@ + old(other)@,
            final(other)@ == Seq::<T>::empty(),
            final(self).max_capacity() == old(self).max_capacity(),
            final(self).spec_capacity() >= old(self).spec_capacity(),
            final(other).max_capacity() == old(other).max_capacity(),
            final(other).spec_capacity() == old(other).spec_capacity(),
    {
        other.split_off_into(0, self);
        proof {
            assert(old(other)@.skip(0) =~= old(other)@);
            assert(old(other)@.take(0) =~= Seq::<T>::empty());
        }
    }

    /// Move the elements into a fresh buffer over backend `B`.
    pub fn convert<B: StorageWithCapacity<T>>(self) -> (r: GenericVec<T, B>)
        requires
            self.wf(),
        ensures
            r.wf(),
            r@ == self@,
    {
        let mut this = self;
        let r = this.split_off(0);
        proof {
            assert(self@.skip(0) =~= self@);
        }
        r
    }
}

impl<T: Copy, S: Storage<T>> GenericVec<T, S> {
    /// Append a copy of every element of `other`, in order.
    ///
    /// Makes room for the whole slice up front: the capacity asked for
    /// covers the current length plus everything about to be added.
    pub fn extend_from_slice(&mut self, other: &[T])
        requires
            old(self).wf(),
            old(self)@.len() + other@.len() <= old(self).max_capacity(),
        ensures
            final(self).wf(),
            final(self)@ == old(self)@ + other@,
            final(self).max_capacity() == old(self).max_capacity(),
            final(self).spec_capacity() >= old(self).spec_capacity(),
    {
        self.reserve(other.len());
        let mut i: usize = 0;
        proof {
            assert(self@ =~= old(self)@ + other@.take(0));
        }
        while i < other.len()
            invariant
                i as int <= other@.len(),
                self.wf(),
                self@ == old(self)@ + other@.take(i as int),
                self.max_capacity() == old(self).max_capacity(),
                self.spec_capacity() >= old(self).spec_capacity(),
                old(self)@.len() + other@.len() <= self.max_capacity(),
            decreases other@.len() - i,
        {
            let v = other[i];
            self.push(v);
            i = i + 1;
            proof {
                assert(self@ =~= old(self)@ + other@.take(i as int));
            }
        }
        proof {
            assert(other@.take(other@.len() as int) =~= other@);
        }
    }

    /// Append `additional` copies of `value`.
    pub fn grow(&mut self, additional: usize, value: T)
        requires
            old(self).wf(),
            old(self)@.len() + additional <= old(self).max_capacity(),
        ensures
            final(self).wf(),
            final(self)@ == old(self)@ + Seq::new(additional as nat, |i: int| value),
            final(self).max_capacity() == old(self).max_capacity(),
            final(self).spec_capacity() >= old(self).spec_capacity(),
    {
        self.reserve(additional);
        let mut i: usize = 0;
        proof {
            assert(self@ =~= old(self)@ + Seq::new(0, |i: int| value));
        }
        while i < additional
            invariant
                i <= additional,
                self.wf(),
                self@ == old(self)@ + Seq::new(i as nat, |i2: int| value),
                self.max_capacity() == old(self).max_capacity(),
                self.spec_capacity() >= old(self).spec_capacity(),
                old(self)@.len() + additional <= self.max_capacity(),
            decreases additional - i,
        {
            self.push(value);
            i = i + 1;
            proof {
                assert(self@ =~= old(self)@ + Seq::new(i as nat, |i2: int| value));
            }
        }
    }

    /// Set the length to `new_len`: shorten the buffer, or extend it with
    /// copies of `value`.
    pub fn resize(&mut self, new_len: usize, value: T)
        requires
            old(self).wf(),
            (new_len as int) > old(self)@.len() ==> new_len as nat <= old(self).max_capacity(),
        ensures
            final(self).wf(),
            final(self)@ == if new_len as int <= old(self)@.len() {
                old(self)@.take(new_len as int)
            } else {
                old(self)@ + Seq::new((new_len - old(self)@.len()) as nat, |i: int| value)
            },
            final(self).max_capacity() == old(self).max_capacity(),
            final(self).spec_capacity() >= old(self).spec_capacity(),
            new_len as int <= old(self)@.len() ==> final(self).spec_capacity() == old(self).spec_capacity(),
    {
        if new_len > self.len {
            self.grow(new_len - self.len, value);
        } else {
            self.truncate(new_len);
        }
    }

    /// Set the length to `new_len`: shorten the buffer, or extend it by
    /// pushing what the given producer returns, once per new slot, in order.
    pub fn resize_with<F: Fn() -> T>(&mut self, new_len: usize, producer: F)
        requires
            old(self).wf(),
            (new_len as int) > old(self)@.len() ==> new_len as nat <= old(self).max_capacity(),
            call_requires(producer, ()),
        ensures
            final(self).wf(),
            final(self).max_capacity() == old(self).max_capacity(),
            final(self).spec_capacity() >= old(self).spec_capacity(),
            new_len as int <= old(self)@.len() ==> final(self)@ == old(self)@.take(new_len as int)
                && final(self).spec_capacity() == old(self).spec_capacity(),
            (new_len as int) > old(self)@.len() ==> final(self)@.len() == new_len && final(self)@.take(old(self)@.len() as int) == old(self)@ && (forall|i: int|
                old(self)@.len() <= i < new_len ==> call_ensures(producer, (), final(self)@[i])),
    {
        if new_len <= self.len {
            self.truncate(new_len);
        } else {
            self.reserve(new_len - self.len);
            while self.len < new_len
                invariant
                    self.wf(),
                    call_requires(producer, ()),
                    old(self)@.len() <= self@.len() <= new_len,
                    new_len as nat <= old(self).max_capacity(),
                    self@.take(old(self)@.len() as int) == old(self)@,
                    forall|i: int|
                        old(self)@.len() <= i < self@.len() ==> call_ensures(
                            producer,
                            (),
                            self@[i],
                        ),
                    self.max_capacity() == old(self).max_capacity(),
                    self.spec_capacity() >= old(self).spec_capacity(),
                decreases new_len - self@.len(),
            {
                let v = producer();
                self.push(v);
                proof {
                    assert(self@.take(old(self)@.len() as int) =~= old(self)@);
                }
            }
        }
    }

    /// Replace the contents with a copy of `source`.
    pub fn clone_from(&mut self, source: &[T])
        requires
            old(self).wf(),
            source@.len() <= old(self).max_capacity(),
        ensures
            final(self).wf(),
            final(self)@ == source@,
            final(self).max_capacity() == old(self).max_capacity(),
            final(self).spec_capacity() >= old(self).spec_capacity(),
    {
        self.clear();
        self.extend_from_slice(source);
        proof {
            assert(Seq::<T>::empty() + source@ =~= source@);
        }
    }
}

impl<T, S: StorageWithCapacity<T>> GenericVec<T, S> {
    /// Create an empty buffer whose backend starts with at least the given
    /// capacity.
    pub fn with_capacity(capacity: usize) -> (r: Self)
        ensures
            r.wf(),
            r@ == Seq::<T>::empty(),
            r.spec_capacity() >= capacity,
            r.max_capacity() >= capacity as nat,
    {
        Self::with_storage(S::with_capacity(capacity))
    }
}

impl<T> HeapVec<T> {
    /// Create an empty heap-backed buffer. Nothing is allocated until the
    /// buffer grows: the capacity starts at zero.
    pub fn new() -> (r: Self)
        ensures
            r.wf(),
            r@ == Seq::<T>::empty(),
            r.spec_capacity() == 0,
            r.max_capacity() == usize::MAX as nat,
    {
        GenericVec::with_storage(Heap::new())
    }
}

impl<T> ZSVec<T> {
    /// Create an empty counter-backed buffer. Its capacity is unbounded from
    /// the start, so pushing onto it never fails.
    pub fn new() -> (r: Self)
        ensures
            r.wf(),
            r@ == Seq::<T>::empty(),
            r.spec_capacity() == usize::MAX as nat,
            r.max_capacity() == usize::MAX as nat,
    {
        GenericVec::with_storage(ZeroSized::new())
    }
}

} // verus!
