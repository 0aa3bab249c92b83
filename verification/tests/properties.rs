use generic_vec::{ArrayVec, GenericVec, HeapVec, Storage, ZSVec};

fn contents<T: Clone, S: Storage<T>>(v: &GenericVec<T, S>) -> Vec<T> {
    let mut out = Vec::new();
    let mut i = 0;
    while let Some(x) = v.get(i) {
        out.push(x.clone());
        i += 1;
    }
    out
}

fn eight() -> HeapVec<i32> {
    let mut vec = HeapVec::<i32>::new();
    vec.extend_from_slice(&[0, 1, 2, 3, 4, 5, 6, 7]);
    vec
}

#[test]
fn length_never_exceeds_capacity() {
    let mut vec = HeapVec::<i32>::new();
    assert!(vec.len() <= vec.capacity());
    for i in 0..100 {
        vec.push(i);
        assert!(vec.len() <= vec.capacity());
    }
    vec.truncate(3);
    assert!(vec.len() <= vec.capacity());
    let vec = vec.retain(|_x: &i32| true);
    assert!(vec.len() <= vec.capacity());
    for i in 0..vec.len() {
        assert!(vec.get(i).is_some());
    }
}

#[test]
fn drain_all_then_extend_restores() {
    let vec = eight();
    let mut drain = vec.drain(0, 8);
    let mut pulled = Vec::new();
    while let Some(v) = drain.next() {
        pulled.push(v);
    }
    let mut vec = drain.finish();
    assert_eq!(vec.len(), 0);
    vec.extend_from_slice(&pulled);
    assert_eq!(contents(&vec), vec![0, 1, 2, 3, 4, 5, 6, 7]);
}

#[test]
fn unconsumed_drain_matches_consumed() {
    let a = eight().drain(2, 5).finish();
    let mut d = eight().drain(2, 5);
    while let Some(_v) = d.next() {}
    let b = d.finish();
    assert_eq!(contents(&a), contents(&b));
    assert_eq!(contents(&a), vec![0, 1, 5, 6, 7]);
}

#[test]
fn unconsumed_splice_matches_consumed() {
    let a = eight().splice(2, 5, vec![9, 8]).finish();
    let mut sp = eight().splice(2, 5, vec![9, 8]);
    while let Some(_v) = sp.next() {}
    let b = sp.finish();
    assert_eq!(contents(&a), contents(&b));
    assert_eq!(contents(&a), vec![0, 1, 9, 8, 5, 6, 7]);
}

#[test]
fn unconsumed_drain_filter_matches_consumed() {
    let a = eight().drain_filter(0, 8, |x: &i32| *x % 2 == 0).finish();
    let mut df = eight().drain_filter(0, 8, |x: &i32| *x % 2 == 0);
    while let Some(_v) = df.next() {}
    let b = df.finish();
    assert_eq!(contents(&a), contents(&b));
    assert_eq!(contents(&a), vec![1, 3, 5, 7]);
}

#[test]
fn retain_always_true_is_no_op() {
    let vec = eight().retain(|_x: &i32| true);
    assert_eq!(contents(&vec), vec![0, 1, 2, 3, 4, 5, 6, 7]);
}

#[test]
fn retain_always_false_empties() {
    let vec = eight().retain(|_x: &i32| false);
    assert_eq!(vec.len(), 0);
    assert_eq!(contents(&vec), Vec::<i32>::new());
}

#[test]
fn splice_equal_length_overwrites_in_place() {
    let vec = eight().splice(3, 6, vec![30, 40, 50]).finish();
    assert_eq!(contents(&vec), vec![0, 1, 2, 30, 40, 50, 6, 7]);
}

#[test]
fn drain_filter_partitions_in_order() {
    let mut df = eight().drain_filter(0, 8, |x: &i32| *x % 3 == 0);
    let mut yielded = Vec::new();
    while let Some(v) = df.next() {
        yielded.push(v);
    }
    let vec = df.finish();
    assert_eq!(yielded, vec![0, 3, 6]);
    assert_eq!(contents(&vec), vec![1, 2, 4, 5, 7]);
}

#[test]
fn scenario_drain_front_range() {
    let vec = eight();
    let mut drain = vec.drain(4, 7);
    let mut removed = Vec::new();
    while let Some(v) = drain.next() {
        removed.push(v);
    }
    let vec = drain.finish();
    assert_eq!(removed, vec![4, 5, 6]);
    assert_eq!(contents(&vec), vec![0, 1, 2, 3, 7]);
}

#[test]
fn scenario_drain_back_to_front() {
    let vec = eight().drain(4, 7).finish();
    assert_eq!(contents(&vec), vec![0, 1, 2, 3, 7]);
    let mut drain = vec.drain(1, 3);
    assert_eq!(drain.next_back(), Some(2));
    assert_eq!(drain.next_back(), Some(1));
    assert_eq!(drain.next_back(), None);
    let vec = drain.finish();
    assert_eq!(contents(&vec), vec![0, 3, 7]);
}

#[test]
fn scenario_splice_grows_by_one() {
    let before = eight();
    let len_before = before.len();
    let vec = before.splice(2, 5, vec![4, 3, 2, 1]).finish();
    assert_eq!(contents(&vec), vec![0, 1, 4, 3, 2, 1, 5, 6, 7]);
    assert_eq!(vec.len(), len_before + 1);
}

#[test]
fn scenario_splice_shrinks_by_one() {
    let before = eight();
    let len_before = before.len();
    let vec = before.splice(2, 5, vec![9, 8]).finish();
    assert_eq!(contents(&vec), vec![0, 1, 9, 8, 5, 6, 7]);
    assert_eq!(vec.len(), len_before - 1);
}

#[derive(Clone, PartialEq, Debug)]
struct Marker;

#[test]
fn scenario_zero_sized_elements() {
    let mut vec = ZSVec::<Marker>::new();
    assert_eq!(vec.capacity(), usize::MAX);
    vec.push(Marker);
    vec.push(Marker);
    assert_eq!(vec.try_push(Marker), Ok(()));
    assert_eq!(vec.len(), 3);
    assert_eq!(vec.capacity(), usize::MAX);
    assert!(!vec.is_full());
    assert_eq!(core::mem::size_of::<Marker>() * vec.len(), 0);
    let mut drain = vec.drain(0, 3);
    let mut yielded = 0;
    while let Some(_v) = drain.next() {
        yielded += 1;
    }
    let vec = drain.finish();
    assert_eq!(yielded, 3);
    assert_eq!(vec.len(), 0);
}

#[test]
fn scenario_fixed_backend_fails_hard_when_full() {
    let mut vec = ArrayVec::<i32>::with_capacity(8);
    vec.extend_from_slice(&[0, 1, 2, 3, 4, 5, 6, 7]);
    assert_eq!(vec.len(), 8);
    assert_eq!(vec.capacity(), 8);
    assert_eq!(vec.try_push(9), Err(9));
    assert!(!vec.try_reserve(1));
    assert_eq!(vec.capacity(), 8);
    assert_eq!(contents(&vec), vec![0, 1, 2, 3, 4, 5, 6, 7]);
}

#[test]
fn heap_growth_at_least_doubles() {
    let mut vec = HeapVec::<i32>::new();
    assert_eq!(vec.capacity(), 0);
    vec.push(1);
    assert!(vec.capacity() >= 4);
    let mut last = vec.capacity();
    for i in 0..1000 {
        let before = vec.capacity();
        vec.push(i);
        let after = vec.capacity();
        assert!(after >= before);
        if after != before {
            assert!(after >= 2 * before);
            last = after;
        }
    }
    assert!(vec.capacity() == last);
}

#[test]
fn empty_range_bulk_ops_are_no_ops() {
    let vec = eight().drain(3, 3).finish();
    assert_eq!(contents(&vec), vec![0, 1, 2, 3, 4, 5, 6, 7]);
    let vec = vec.drain_filter(2, 2, |_x: &i32| true).finish();
    assert_eq!(contents(&vec), vec![0, 1, 2, 3, 4, 5, 6, 7]);
    let vec = vec.splice(8, 8, vec![]).finish();
    assert_eq!(contents(&vec), vec![0, 1, 2, 3, 4, 5, 6, 7]);
}

#[test]
fn fallible_ops_report_failure_without_change() {
    let mut vec = ArrayVec::<i32>::with_capacity(2);
    assert_eq!(vec.try_pop(), None);
    assert_eq!(vec.try_remove(0), None);
    assert_eq!(vec.try_swap_remove(0), None);
    vec.push(5);
    vec.push(6);
    assert_eq!(vec.try_insert(1, 7), Err(7));
    assert_eq!(vec.try_insert(9, 7), Err(7));
    assert_eq!(contents(&vec), vec![5, 6]);
    assert_eq!(vec.try_pop(), Some(6));
    assert_eq!(vec.try_insert(0, 7), Ok(()));
    assert_eq!(contents(&vec), vec![7, 5]);
}

#[test]
fn cursor_write_and_skip() {
    let mut vec = HeapVec::<i32>::new();
    vec.extend_from_slice(&[10, 20, 30, 40]);
    let mut cur = vec.cursor(1, 3);
    assert_eq!(cur.len(), 2);
    assert!(cur.is_write_front_empty());
    assert_eq!(cur.take_front(), 20);
    assert!(!cur.is_write_front_empty());
    assert_eq!(cur.write_front_len(), 1);
    cur.write_front(21);
    assert!(cur.is_write_front_empty());
    assert_eq!(cur.take_back(), 30);
    assert_eq!(cur.try_write_back(31), Ok(()));
    assert_eq!(cur.try_write_back(32), Err(32));
    let vec = cur.finish();
    assert_eq!(contents(&vec), vec![10, 21, 31, 40]);
}

#[test]
fn cursor_reserve_opens_space() {
    let mut vec = HeapVec::<i32>::new();
    vec.extend_from_slice(&[1, 2, 3]);
    let mut cur = vec.cursor(1, 1);
    cur.reserve(2);
    assert!(cur.write_front_len() >= 2);
    cur.write_front(8);
    cur.write_front(9);
    let vec = cur.finish();
    assert_eq!(contents(&vec), vec![1, 8, 9, 2, 3]);
}

#[test]
fn cursor_write_slices() {
    let mut vec = HeapVec::<i32>::new();
    vec.extend_from_slice(&[1, 2, 3, 4, 5, 6]);
    let mut cur = vec.cursor(1, 5);
    cur.drop_n_front(2);
    cur.drop_n_back(2);
    cur.write_slice_front(&[7]);
    cur.write_slice_back(&[8, 9]);
    let vec = cur.finish();
    assert_eq!(contents(&vec), vec![1, 7, 8, 9, 6]);
}

#[test]
fn resize_and_clone_from() {
    let mut vec = HeapVec::<i32>::new();
    vec.resize(3, 7);
    assert_eq!(contents(&vec), vec![7, 7, 7]);
    vec.resize(1, 7);
    assert_eq!(contents(&vec), vec![7]);
    vec.resize_with(3, || 9);
    assert_eq!(contents(&vec), vec![7, 9, 9]);
    vec.clone_from(&[1, 2]);
    assert_eq!(contents(&vec), vec![1, 2]);
    vec.clear();
    assert!(vec.is_empty());
}

#[test]
fn split_append_convert() {
    let mut vec = eight();
    let mut tail: HeapVec<i32> = vec.split_off(5);
    assert_eq!(contents(&vec), vec![0, 1, 2, 3, 4]);
    assert_eq!(contents(&tail), vec![5, 6, 7]);
    vec.append(&mut tail);
    assert_eq!(contents(&vec), vec![0, 1, 2, 3, 4, 5, 6, 7]);
    assert!(tail.is_empty());
    let fixed: ArrayVec<i32> = vec.convert();
    assert_eq!(contents(&fixed), vec![0, 1, 2, 3, 4, 5, 6, 7]);
}

#[test]
fn into_iter_from_both_ends() {
    let mut vec = HeapVec::<i32>::new();
    vec.extend_from_slice(&[1, 2, 3]);
    let mut it = vec.into_iter();
    assert_eq!(it.next(), Some(1));
    assert_eq!(it.next_back(), Some(3));
    assert_eq!(it.next(), Some(2));
    assert_eq!(it.next(), None);
    assert_eq!(it.next_back(), None);
}

#[test]
fn dedup_by_removes_consecutive_duplicates() {
    let mut vec = HeapVec::<i32>::new();
    vec.extend_from_slice(&[1, 1, 2, 3, 3, 3, 4]);
    vec.dedup_by(|a: &i32, b: &i32| *a == *b);
    assert_eq!(contents(&vec), vec![1, 2, 3, 4]);

    let mut vec = HeapVec::<i32>::new();
    vec.dedup_by(|a: &i32, b: &i32| *a == *b);
    assert_eq!(vec.len(), 0);
}

#[test]
fn unit_capacity_conversion_rounds_safely() {
    // how many 4-byte elements 12 four-byte slots hold
    assert_eq!(generic_vec::capacity(12, 4, 4, false), 12);
    // a single 4-byte slot holds no 8-byte element
    assert_eq!(generic_vec::capacity(1, 4, 8, false), 0);
    // covering 8 bytes with 4-byte elements needs 2 of them, 9 bytes need 3
    assert_eq!(generic_vec::capacity(8, 1, 4, true), 2);
    assert_eq!(generic_vec::capacity(9, 1, 4, true), 3);
    // a zero-sized target unit fits everywhere
    assert_eq!(generic_vec::capacity(3, 8, 0, false), usize::MAX);
    // rounding down never overcommits, rounding up always covers
    for count in 0..20usize {
        let down = generic_vec::capacity(count, 3, 7, false);
        let up = generic_vec::capacity(count, 3, 7, true);
        assert!(down * 7 <= count * 3);
        assert!(up * 7 >= count * 3);
    }
}

#[test]
fn raw_parts_round_trip() {
    let vec = eight();
    let (len, storage) = vec.into_raw_parts();
    assert_eq!(len, 8);
    let vec = HeapVec::from_raw_parts(len, storage);
    assert_eq!(contents(&vec), vec![0, 1, 2, 3, 4, 5, 6, 7]);

    let row = generic_vec::Heap::<i32>::new().into_raw_parts();
    assert_eq!(row.len(), 0);
    let heap = generic_vec::Heap::from_raw_parts(row);
    let vec: HeapVec<i32> = GenericVec::with_storage(heap);
    assert!(vec.is_empty());
}


#[test]
fn dedup_removes_consecutive_duplicates() {
    let mut vec = HeapVec::<i32>::new();
    vec.extend_from_slice(&[1, 1, 2, 3, 3, 3, 4, 1]);
    vec.dedup();
    assert_eq!(contents(&vec), vec![1, 2, 3, 4, 1]);
}

#[test]
fn dedup_by_key_removes_consecutive_same_key() {
    let mut vec = HeapVec::<i32>::new();
    vec.extend_from_slice(&[10, 11, 20, 21, 22, 30]);
    vec.dedup_by_key(&|x: &i32| *x / 10);
    assert_eq!(contents(&vec), vec![10, 20, 30]);
}

#[test]
fn capacity_is_preserved_where_no_growth_is_needed() {
    let mut vec = HeapVec::<i32>::new();
    vec.extend_from_slice(&[0, 1, 2, 3, 4, 5, 6, 7]);
    let cap = vec.capacity();
    vec.reserve(0);
    assert_eq!(vec.capacity(), cap);
    vec.truncate(4);
    vec.resize(2, 0);
    assert_eq!(vec.capacity(), cap);
    let vec = vec.retain(|_x: &i32| true);
    assert_eq!(vec.capacity(), cap);
    let vec = vec.drain_filter(0, 2, |_x: &i32| false).finish();
    assert_eq!(vec.capacity(), cap);
    let vec = vec.splice(0, 2, vec![8, 9]).finish();
    assert_eq!(vec.capacity(), cap);
    assert_eq!(contents(&vec), vec![8, 9]);
}

#[test]
fn new_heap_buffer_owns_nothing() {
    let vec = HeapVec::<i32>::new();
    assert_eq!(vec.capacity(), 0);
    let mut tail: HeapVec<i32> = HeapVec::new();
    let mut vec = vec;
    vec.split_off_into(0, &mut tail);
    assert_eq!(tail.capacity(), 0);
}
