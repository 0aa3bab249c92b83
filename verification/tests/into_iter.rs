use generic_vec::ArrayVec;

#[test]
pub fn into_iter_into_iter() {
    let mut vec = ArrayVec::<i32>::with_capacity(8);
    vec.extend_from_slice(&[0, 1, 2, 3, 4, 5, 6, 7]);

    let mut it = vec.into_iter();
    let mut expected = 0;
    while let Some(v) = it.next() {
        assert_eq!(v, expected);
        expected += 1;
    }
    assert_eq!(expected, 8);
}
