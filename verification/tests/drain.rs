use generic_vec::{ArrayVec, GenericVec, Storage};

fn contents<T: Clone, S: Storage<T>>(v: &GenericVec<T, S>) -> Vec<T> {
    let mut out = Vec::new();
    let mut i = 0;
    while let Some(x) = v.get(i) {
        out.push(x.clone());
        i += 1;
    }
    out
}

fn filled(items: &[i32]) -> ArrayVec<i32> {
    let mut vec = ArrayVec::<i32>::with_capacity(8);
    vec.extend_from_slice(items);
    vec
}

#[test]
fn drain_raw_drain_front() {
    let mut vec = ArrayVec::<i32>::with_capacity(8);

    vec.push(0);
    vec.push(2);
    vec.push(1);

    let mut drain = vec.raw_cursor(0, 3);
    assert_eq!(drain.take_front(), 0);
    assert_eq!(drain.take_front(), 2);
    assert_eq!(drain.take_front(), 1);
    let mut vec = drain.finish();

    assert_eq!(contents(&vec), Vec::<i32>::new());

    vec.push(0);
    vec.push(2);
    vec.push(1);

    let mut drain = vec.raw_cursor(0, 3);
    assert_eq!(drain.take_front(), 0);
    assert_eq!(drain.take_front(), 2);
    let mut vec = drain.finish();

    assert_eq!(contents(&vec), vec![1]);

    vec.push(0);
    vec.push(2);
    vec.push(1);

    let mut drain = vec.raw_cursor(0, 4);
    assert_eq!(drain.take_front(), 1);
    drain.skip_front();
    assert_eq!(drain.take_front(), 2);
    let mut vec = drain.finish();

    assert_eq!(contents(&vec), vec![0, 1]);

    vec.push(0);
    vec.push(2);
    vec.push(1);

    let mut drain = vec.raw_cursor(0, 5);
    assert_eq!(drain.take_front(), 0);
    let vec = drain.finish();

    assert_eq!(contents(&vec), vec![1, 0, 2, 1]);
}

#[test]
fn drain_raw_drain_back() {
    let mut vec = ArrayVec::<i32>::with_capacity(8);

    vec.push(0);
    vec.push(2);
    vec.push(1);

    let mut drain = vec.raw_cursor(0, 3);
    assert_eq!(drain.take_back(), 1);
    assert_eq!(drain.take_back(), 2);
    assert_eq!(drain.take_back(), 0);
    let mut vec = drain.finish();

    assert_eq!(contents(&vec), Vec::<i32>::new());

    vec.push(0);
    vec.push(2);
    vec.push(1);

    let mut drain = vec.raw_cursor(0, 3);
    assert_eq!(drain.take_back(), 1);
    assert_eq!(drain.take_back(), 2);
    let mut vec = drain.finish();

    assert_eq!(contents(&vec), vec![0]);

    vec.push(0);
    vec.push(2);
    vec.push(1);

    let mut drain = vec.raw_cursor(0, 4);
    assert_eq!(drain.take_back(), 1);
    drain.skip_back();
    assert_eq!(drain.take_back(), 0);
    let mut vec = drain.finish();

    assert_eq!(contents(&vec), vec![0, 2]);

    vec.push(0);
    vec.push(2);
    vec.push(1);

    let mut drain = vec.raw_cursor(0, 5);
    assert_eq!(drain.take_back(), 1);
    let vec = drain.finish();

    assert_eq!(contents(&vec), vec![0, 2, 0, 2]);
}

#[test]
fn drain_drain() {
    let vec = filled(&[0, 1, 2, 3, 4, 5, 6, 7]);

    assert_eq!(contents(&vec), vec![0, 1, 2, 3, 4, 5, 6, 7]);

    let vec = vec.drain(4, 7).finish();

    assert_eq!(contents(&vec), vec![0, 1, 2, 3, 7]);

    let mut drain = vec.drain(1, 3);
    assert_eq!(drain.next(), Some(1));
    assert_eq!(drain.next(), Some(2));
    assert_eq!(drain.next(), None);
    let vec = drain.finish();

    assert_eq!(contents(&vec), vec![0, 3, 7]);
}

#[test]
fn drain_drain_filter() {
    let vec = filled(&[0, 1, 2, 3, 4, 5, 6, 7]);

    let vec = vec.drain_filter(0, 8, |x: &i32| *x % 2 == 0).finish();

    assert_eq!(contents(&vec), vec![1, 3, 5, 7]);

    let mut df = vec.drain_filter(0, 4, |x: &i32| *x % 3 == 0);
    assert_eq!(df.next(), Some(3));
    assert_eq!(df.next(), None);
    let vec = df.finish();

    assert_eq!(contents(&vec), vec![1, 5, 7]);
}
