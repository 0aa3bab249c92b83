use generic_vec::{ArrayVec, GenericVec, Storage, TypeVec, UninitBuffer};

fn contents<T: Clone, S: Storage<T>>(v: &GenericVec<T, S>) -> Vec<T> {
    let mut out = Vec::new();
    let mut i = 0;
    while let Some(x) = v.get(i) {
        out.push(x.clone());
        i += 1;
    }
    out
}

#[test]
fn vec_ops_split_off() {
    let mut vec = ArrayVec::<i32>::with_capacity(8);
    vec.extend_from_slice(&[0, 1, 2, 3, 4, 5, 6, 7]);
    let mut other = TypeVec::<i32>::with_storage(UninitBuffer::uninit(4));
    vec.split_off_into(4, &mut other);
    assert_eq!(contents(&vec), vec![0, 1, 2, 3]);
    assert_eq!(contents(&other), vec![4, 5, 6, 7]);
}

#[test]
fn vec_ops_consume_extend() {
    let mut vec = ArrayVec::<i32>::with_capacity(4);
    let mut other = ArrayVec::<i32>::with_capacity(4);
    other.extend_from_slice(&[0, 1, 2, 3]);
    other.split_off_into(0, &mut vec);
    assert_eq!(contents(&vec), vec![0, 1, 2, 3]);
    assert_eq!(contents(&other), Vec::<i32>::new());
}

#[test]
fn vec_ops_grow() {
    let mut vec = ArrayVec::<i32>::with_capacity(4);
    vec.grow(4, 0);
    assert_eq!(contents(&vec), vec![0, 0, 0, 0]);
}
