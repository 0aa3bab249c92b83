//! The splicing policy: replace a range with another sequence.
//!
//! The policy behaves like a drain while the caller pulls removed elements;
//! [`Splice::finish`] then writes the whole replacement into the freed
//! holes, growing trailing space when the replacement is longer than the
//! removed range, and letting the cursor's own `finish` close leftover holes
//! when it is shorter.

use crate::raw_cursor::RawCursor;
use crate::storage::Storage;
use crate::vec::GenericVec;
use vstd::prelude::*;

verus! {

/// Yields the elements removed from a buffer range while holding the
/// sequence that will replace them. Created by [`GenericVec::splice`];
/// [`Splice::finish`] writes the replacement and hands the buffer back.
pub struct Splice<T, S: Storage<T>> {
    pub(crate) cur: RawCursor<T, S>,
    pub(crate) repl_rev: Vec<T>,
}

impl<T, S: Storage<T>> Splice<T, S> {
    /// The replacement elements not yet written, in the order they will
    /// land in the buffer.
    pub open(crate) spec fn replacement(&self) -> Seq<T> {
        self.repl_rev@.reverse()
    }

    /// Well-formedness: the cursor is well-formed and the final contents
    /// fit under the backend's hard bound, so the replacement can always be
    /// written in full.
    pub open(crate) spec fn wf(&self) -> bool {
        &&& self.cur.wf()
        &&& self.cur.kept_front().len() + self.replacement().len() + self.cur.kept_back().len()
            <= self.cur.max_capacity()
    }

    /// The elements before the spliced range.
    pub open(crate) spec fn fixed_front(&self) -> Seq<T> {
        self.cur.kept_front()
    }

    /// The removed elements not yet pulled.
    pub open(crate) spec fn remaining(&self) -> Seq<T> {
        self.cur.remaining()
    }

    /// The elements after the spliced range.
    pub open(crate) spec fn fixed_back(&self) -> Seq<T> {
        self.cur.kept_back()
    }

    /// The backend's hard capacity bound.
    pub open(crate) spec fn max_capacity(&self) -> nat {
        self.cur.max_capacity()
    }

    /// The backend's current slot count.
    pub open(crate) spec fn spec_capacity(&self) -> nat {
        self.cur.spec_capacity()
    }

    /// The size of the cursor's write region: the room the replacement can
    /// take without growing the backend.
    pub open(crate) spec fn write_span(&self) -> int {
        self.cur.write_span()
    }

    /// How many removed elements are left to pull.
    pub fn len(&self) -> (r: usize)
        requires
            self.wf(),
        ensures
            r as int == self.remaining().len(),
    {
        self.cur.len()
    }

    /// True when every removed element has been pulled.
    pub fn is_empty(&self) -> (r: bool)
        requires
            self.wf(),
        ensures
            r <==> self.remaining().len() == 0,
    {
        self.cur.is_empty()
    }

    /// Pull the next removed element from the front of the range.
    pub fn next(&mut self) -> (r: Option<T>)
        requires
            old(self).wf(),
        ensures
            final(self).wf(),
            final(self).fixed_front() == old(self).fixed_front(),
            final(self).fixed_back() == old(self).fixed_back(),
            final(self).replacement() == old(self).replacement(),
            final(self).max_capacity() == old(self).max_capacity(),
            final(self).spec_capacity() == old(self).spec_capacity(),
            final(self).write_span() == old(self).write_span(),
            old(self).remaining().len() > 0 ==> r == Some(old(self).remaining()[0])
                && final(self).remaining() == old(self).remaining().skip(1),
            old(self).remaining().len() == 0 ==> r is None
                && final(self).remaining() == old(self).remaining(),
    {
        if self.cur.is_empty() {
            None
        } else {
            Some(self.cur.take_front())
        }
    }

    /// Pull the next removed element from the back of the range.
    pub fn next_back(&mut self) -> (r: Option<T>)
        requires
            old(self).wf(),
        ensures
            final(self).wf(),
            final(self).fixed_front() == old(self).fixed_front(),
            final(self).fixed_back() == old(self).fixed_back(),
            final(self).replacement() == old(self).replacement(),
            final(self).max_capacity() == old(self).max_capacity(),
            final(self).spec_capacity() == old(self).spec_capacity(),
            final(self).write_span() == old(self).write_span(),
            old(self).remaining().len() > 0 ==> r == Some(old(self).remaining().last())
                && final(self).remaining() == old(self).remaining().drop_last(),
            old(self).remaining().len() == 0 ==> r is None
                && final(self).remaining() == old(self).remaining(),
    {
        if self.cur.is_empty() {
            None
        } else {
            Some(self.cur.take_back())
        }
    }

    /// Remove and release whatever was not pulled, write the whole
    /// replacement in its place, and hand the buffer back: the result is the
    /// same whether or not the caller consumed anything.
    pub fn finish(self) -> (v: GenericVec<T, S>)
        requires
            self.wf(),
        ensures
            v.wf(),
            v@ == self.fixed_front() + self.replacement() + self.fixed_back(),
            v.max_capacity() == self.max_capacity(),
            v.spec_capacity() >= self.spec_capacity(),
            self.replacement().len() <= self.write_span() ==> v.spec_capacity()
                == self.spec_capacity(),
    {
        let mut this = self;
        let n = this.cur.len();
        this.cur.drop_n_front(n);
        proof {
            assert(this.cur.remaining() =~= Seq::<T>::empty());
        }
        let count = this.repl_rev.len();
        proof {
            assert(this.replacement().len() == count as int);
        }
        this.cur.reserve(count);
        let ghost cap1 = this.cur.spec_capacity();
        proof {
            assert(cap1 >= self.spec_capacity());
            if self.replacement().len() <= self.write_span() {
                assert(cap1 == self.spec_capacity());
            }
        }
        let ghost front0 = this.cur.kept_front();
        let ghost repl = this.replacement();
        while this.repl_rev.len() > 0
            invariant
                this.cur.spec_capacity() == cap1,
                this.cur.wf(),
                this.cur.remaining().len() == 0,
                repl.len() >= this.repl_rev@.len(),
                this.cur.kept_front() == front0 + repl.take(repl.len() - this.repl_rev@.len()),
                this.repl_rev@.reverse() == repl.skip(repl.len() - this.repl_rev@.len()),
                this.cur.kept_back() == self.fixed_back(),
                this.cur.front_slack() >= this.repl_rev@.len(),
                this.cur.max_capacity() == self.max_capacity(),
            decreases this.repl_rev@.len(),
        {
            let ghost left = this.repl_rev@.len() as int;
            let ghost prev_rev = this.repl_rev@;
            let v = this.repl_rev.pop().unwrap();
            proof {
                assert(prev_rev.reverse()[0] == v);
                assert(v == repl[repl.len() - left]);
                assert(this.repl_rev@ == prev_rev.drop_last());
                assert forall|i: int|
                    0 <= i < this.repl_rev@.len() implies this.repl_rev@.reverse()[i] == repl.skip(
                    repl.len() - this.repl_rev@.len(),
                )[i] by {
                    assert(prev_rev.reverse()[i + 1] == repl.skip(repl.len() - left)[i + 1]);
                }
                assert(this.repl_rev@.reverse() =~= repl.skip(repl.len() - this.repl_rev@.len()));
            }
            this.cur.write_front(v);
            proof {
                assert(this.cur.kept_front() =~= front0 + repl.take(
                    repl.len() - this.repl_rev@.len(),
                ));
            }
        }
        proof {
            assert(repl.take(repl.len() as int) =~= repl);
        }
        let Splice { cur, .. } = this;
        let v = cur.finish();
        proof {
            assert((front0 + repl) + Seq::<T>::empty() + self.fixed_back() =~= self.fixed_front()
                + repl + self.fixed_back());
        }
        v
    }
}

impl<T, S: Storage<T>> GenericVec<T, S> {
    /// Begin splicing: the elements `[start, end)` leave the buffer, pulled
    /// by the caller or released by [`Splice::finish`], and `replace_with`
    /// takes their place. The final contents must fit under the backend's
    /// hard bound.
    pub fn splice(self, start: usize, end: usize, replace_with: Vec<T>) -> (sp: Splice<T, S>)
        requires
            self.wf(),
            start <= end,
            end as int <= self@.len(),
            self@.len() - (end - start) + replace_with@.len() <= self.max_capacity(),
        ensures
            sp.wf(),
            sp.fixed_front() == self@.take(start as int),
            sp.remaining() == self@.subrange(start as int, end as int),
            sp.fixed_back() == self@.skip(end as int),
            sp.replacement() == replace_with@,
            sp.max_capacity() == self.max_capacity(),
            sp.spec_capacity() == self.spec_capacity(),
            sp.write_span() == end - start,
    {
        let mut source = replace_with;
        let mut repl_rev: Vec<T> = Vec::new();
        let ghost orig_repl = source@;
        while source.len() > 0
            invariant
                orig_repl.len() >= source@.len(),
                source@ == orig_repl.take(source@.len() as int),
                repl_rev@.reverse() == orig_repl.skip(source@.len() as int),
            decreases source@.len(),
        {
            let ghost pre_rev = repl_rev@;
            let v = source.pop().unwrap();
            repl_rev.push(v);
            proof {
                assert(v == orig_repl[source@.len() as int]);
                assert(source@ =~= orig_repl.take(source@.len() as int));
                assert(repl_rev@ == pre_rev.push(v));
                assert(pre_rev.len() == orig_repl.skip(source@.len() as int + 1).len());
                assert forall|i: int|
                    0 <= i < repl_rev@.len() implies repl_rev@.reverse()[i] == orig_repl.skip(
                    source@.len() as int,
                )[i] by {
                    let nl = repl_rev@.len() as int;
                    assert(pre_rev.len() == orig_repl.skip(source@.len() as int + 1).len());
                    assert(repl_rev@.reverse()[i] == repl_rev@[nl - 1 - i]);
                    if i == 0 {
                        assert(repl_rev@[nl - 1] == v);
                    } else {
                        assert(repl_rev@[nl - 1 - i] == pre_rev[pre_rev.len() - i]);
                        assert(pre_rev.reverse()[i - 1] == pre_rev[pre_rev.len() - 1 - (i - 1)]);
                        assert(pre_rev.reverse()[i - 1] == orig_repl.skip(
                            source@.len() as int + 1,
                        )[i - 1]);
                        assert(orig_repl.skip(source@.len() as int + 1)[i - 1] == orig_repl[
                            source@.len() + i]);
                    }
                    assert(orig_repl.skip(source@.len() as int)[i] == orig_repl[source@.len() + i]);
                }
                assert(repl_rev@.len() == orig_repl.len() - source@.len());
                assert(repl_rev@.reverse().len() == repl_rev@.len());
                assert(orig_repl.skip(source@.len() as int).len() == orig_repl.len()
                    - source@.len());
                assert(repl_rev@.reverse() =~= orig_repl.skip(source@.len() as int));
            }
        }
        proof {
            assert(repl_rev@.reverse() =~= orig_repl);
        }
        let sp = Splice { cur: self.raw_cursor(start, end), repl_rev };
        sp
    }
}

} // verus!
