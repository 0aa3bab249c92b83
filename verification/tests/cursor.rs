use generic_vec::{GenericVec, HeapVec, Storage};

fn contents<T: Clone, S: Storage<T>>(v: &GenericVec<T, S>) -> Vec<T> {
    let mut out = Vec::new();
    let mut i = 0;
    while let Some(x) = v.get(i) {
        out.push(x.clone());
        i += 1;
    }
    out
}

fn strings(items: &[&str]) -> Vec<String> {
    items.iter().map(|s| s.to_string()).collect()
}

#[test]
fn cursor_raw_drain_front() {
    let mut vec = HeapVec::<String>::new();

    vec.push("0".to_string());
    vec.push("2".to_string());
    vec.push("1".to_string());

    let mut drain = vec.raw_cursor(0, 3);
    assert_eq!(drain.take_front(), "0");
    assert_eq!(drain.take_front(), "2");
    assert_eq!(drain.take_front(), "1");
    let mut vec = drain.finish();

    assert_eq!(contents(&vec), strings(&[]));

    vec.push("0".to_string());
    vec.push("2".to_string());
    vec.push("1".to_string());

    let mut drain = vec.raw_cursor(0, 3);
    assert_eq!(drain.take_front(), "0");
    assert_eq!(drain.take_front(), "2");
    let mut vec = drain.finish();

    assert_eq!(contents(&vec), strings(&["1"]));

    vec.push("0".to_string());
    vec.push("2".to_string());
    vec.push("1".to_string());

    let mut drain = vec.raw_cursor(0, 4);
    assert_eq!(drain.take_front(), "1");
    drain.skip_front();
    assert_eq!(drain.take_front(), "2");
    let mut vec = drain.finish();

    assert_eq!(contents(&vec), strings(&["0", "1"]));

    vec.push("0".to_string());
    vec.push("2".to_string());
    vec.push("1".to_string());

    let mut drain = vec.raw_cursor(0, 5);
    assert_eq!(drain.take_front(), "0");
    let vec = drain.finish();

    assert_eq!(contents(&vec), strings(&["1", "0", "2", "1"]));
}

#[test]
fn cursor_raw_drain_back() {
    let mut vec = HeapVec::<String>::new();

    vec.push("0".to_string());
    vec.push("2".to_string());
    vec.push("1".to_string());

    let mut drain = vec.raw_cursor(0, 3);
    assert_eq!(drain.take_back(), "1");
    assert_eq!(drain.take_back(), "2");
    assert_eq!(drain.take_back(), "0");
    let mut vec = drain.finish();

    assert_eq!(contents(&vec), strings(&[]));

    vec.push("0".to_string());
    vec.push("2".to_string());
    vec.push("1".to_string());

    let mut drain = vec.raw_cursor(0, 3);
    assert_eq!(drain.take_back(), "1");
    assert_eq!(drain.take_back(), "2");
    let mut vec = drain.finish();

    assert_eq!(contents(&vec), strings(&["0"]));

    vec.push("0".to_string());
    vec.push("2".to_string());
    vec.push("1".to_string());

    let mut drain = vec.raw_cursor(0, 4);
    assert_eq!(drain.take_back(), "1");
    drain.skip_back();
    assert_eq!(drain.take_back(), "0");
    let mut vec = drain.finish();

    assert_eq!(contents(&vec), strings(&["0", "2"]));

    vec.push("0".to_string());
    vec.push("2".to_string());
    vec.push("1".to_string());

    let mut drain = vec.raw_cursor(0, 5);
    assert_eq!(drain.take_back(), "1");
    let vec = drain.finish();

    assert_eq!(contents(&vec), strings(&["0", "2", "0", "2"]));
}
