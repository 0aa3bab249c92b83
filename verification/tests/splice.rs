use generic_vec::{ArrayVec, GenericVec, Storage};

fn contents<T: Clone, S: Storage<T>>(v: &GenericVec<T, S>) -> Vec<T> {
    let mut out = Vec::new();
    let mut i = 0;
    while let Some(x) = v.get(i) {
        out.push(x.clone());
        i += 1;
    }
    out
}

#[test]
fn splice() {
    let mut vec = ArrayVec::<u8>::with_capacity(10);

    vec.extend_from_slice(&[0, 1, 2, 3, 4, 5, 6, 7]);

    let vec = vec.splice(2, 5, vec![4, 3, 2, 1]).finish();

    assert_eq!(contents(&vec), vec![0, 1, 4, 3, 2, 1, 5, 6, 7]);

    let mut vec = ArrayVec::<u8>::with_capacity(10);

    vec.extend_from_slice(&[0, 1, 2, 3, 4, 5, 6, 7]);

    let vec = vec.splice(2, 5, vec![9, 8]).finish();

    assert_eq!(contents(&vec), vec![0, 1, 9, 8, 5, 6, 7]);
}

#[test]
fn splice_splice_exact_or_more() {
    let mut vec = ArrayVec::<i32>::with_capacity(9);

    vec.extend_from_slice(&[0, 1, 2, 3, 4, 5, 6, 7]);

    let vec = vec.splice(2, 5, vec![4, 3, 2, 1]).finish();
    assert_eq!(contents(&vec), vec![0, 1, 4, 3, 2, 1, 5, 6, 7]);
}

#[test]
fn splice_splice_less() {
    let mut vec = ArrayVec::<i32>::with_capacity(10);

    vec.extend_from_slice(&[0, 1, 2, 3, 4, 5, 6, 7]);

    let vec = vec.splice(2, 5, vec![9, 8]).finish();

    assert_eq!(contents(&vec), vec![0, 1, 9, 8, 5, 6, 7]);
}

#[test]
fn splice_splice_from_zero() {
    let vec = ArrayVec::<i32>::with_capacity(10);

    let vec = vec.splice(0, 0, vec![0, 1, 2, 3, 4, 5, 6, 7]).finish();

    assert_eq!(contents(&vec), vec![0, 1, 2, 3, 4, 5, 6, 7]);
}
