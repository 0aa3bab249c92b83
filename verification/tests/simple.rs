use generic_vec::{ArrayVec, GenericVec, Storage};

fn contents<T: Clone, S: Storage<T>>(v: &GenericVec<T, S>) -> Vec<T> {
    let mut out = Vec::new();
    let mut i = 0;
    while let Some(x) = v.get(i) {
        out.push(x.clone());
        i += 1;
    }
    out
}

#[test]
pub fn simple() {
    let mut vec = ArrayVec::<u8>::with_capacity(8);

    assert_eq!(vec.len(), 0);
    vec.push(0);
    vec.push(2);
    vec.push(1);
    assert_eq!(vec.len(), 3);
    assert_eq!(vec.get(0), Some(&0));
    assert_eq!(vec.get(1), Some(&2));
    assert_eq!(vec.get(2), Some(&1));
    vec.pop();
    assert_eq!(vec.len(), 2);
    assert_eq!(vec.get(0), Some(&0));
    assert_eq!(vec.get(1), Some(&2));
}

#[test]
pub fn simple_simple() {
    let mut vec = ArrayVec::<i32>::with_capacity(8);

    assert_eq!(vec.len(), 0);
    vec.push(0);
    vec.push(2);
    vec.push(1);
    assert_eq!(contents(&vec), vec![0, 2, 1]);
    assert_eq!(vec.pop(), 1);
    assert_eq!(contents(&vec), vec![0, 2]);
    vec.insert(1, 9);
    vec.insert(2, 8);
    vec.insert(3, 7);
    assert_eq!(contents(&vec), vec![0, 9, 8, 7, 2]);
    assert_eq!(vec.remove(2), 8);
    assert_eq!(vec.remove(2), 7);
    assert_eq!(contents(&vec), vec![0, 9, 2]);
    assert_eq!(vec.swap_remove(0), 0);
    assert_eq!(contents(&vec), vec![2, 9]);
}
