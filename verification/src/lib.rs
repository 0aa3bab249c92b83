//! A growable buffer container that can be backed by interchangeable storage
//! backends: a growable heap backend, a fixed-capacity backend, and a
//! counter-style backend for element types that carry no data.
//!
//! The core of the crate is a four-index cursor that removes, keeps, or
//! replaces elements of a contiguous sub-range of a [`GenericVec`] in a
//! single pass, and the bulk policies built on top of it: [`Drain`],
//! [`DrainFilter`], and [`Splice`].

mod cursor;
mod drain;
mod drain_filter;
mod into_iter;
mod laws;
mod raw_cursor;
mod seqs;
mod splice;
mod storage;
mod vec;

pub use cursor::Cursor;
pub use drain::Drain;
pub use drain_filter::DrainFilter;
pub use into_iter::IntoIter;
pub use laws::{
    lemma_buffer_invariant, lemma_drain_all_then_extend_restores, lemma_drain_filter_partitions,
    lemma_retain_all_is_no_op, lemma_retain_none_empties, lemma_splice_same_length_overwrites,
};
pub use raw_cursor::RawCursor;
pub use splice::Splice;
pub use storage::{capacity, Heap, Storage, StorageWithCapacity, UninitBuffer, ZeroSized};
pub use vec::{ArrayVec, GenericVec, HeapVec, TypeVec, ZSVec};
