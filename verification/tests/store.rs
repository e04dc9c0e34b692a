use kvdb::store::{ExecResult, Store};

#[test]
fn test_get_key_not_found() {
    let store: Store<&str, &str> = Store::new();

    let result = store.get("key1");
    assert_eq!(result, Err(ExecResult::Failed));
}

#[test]
fn test_set_key_in_use() {
    let mut store = Store::new();

    let result = store.set("key1", "value1");
    assert_eq!(result, ExecResult::Success);

    let result = store.set("key1", "value1");
    assert_eq!(result, ExecResult::Failed);
}

#[test]
fn test_del_key_not_found() {
    let mut store: Store<&str, &str> = Store::new();

    let result = store.del("key1");
    assert_eq!(result, ExecResult::Failed);
}

#[test]
fn test_flow_ok() {
    let mut store = Store::new();

    let result = store.set("key1", "value1");
    assert_eq!(result, ExecResult::Success);

    let result = store.get("key1");
    assert_eq!(result, Ok("value1"));

    let result = store.del("key1");
    assert_eq!(result, ExecResult::Success);

    let result = store.get("key1");
    assert_eq!(result, Err(ExecResult::Failed));
}

#[test]
fn empty_store_holds_no_key() {
    let store: Store<u64, String> = Store::new();
    for key in [0, 1, 7, u64::MAX] {
        assert_eq!(store.get(key), Err(ExecResult::Failed));
    }
    let store: Store<String, u8> = Store::new();
    for key in ["", "a", "key1"] {
        assert_eq!(store.get(key.to_owned()), Err(ExecResult::Failed));
    }
}

#[test]
fn second_set_leaves_the_first_value() {
    let mut store: Store<String, String> = Store::new();
    assert_eq!(
        store.set("k".to_owned(), "v".to_owned()),
        ExecResult::Success
    );
    assert_eq!(
        store.set("k".to_owned(), "v2".to_owned()),
        ExecResult::Failed
    );
    assert_eq!(store.get("k".to_owned()), Ok("v".to_owned()));
}

#[test]
fn set_leaves_other_keys_alone() {
    let mut store: Store<u32, u32> = Store::new();
    assert_eq!(store.set(1, 10), ExecResult::Success);
    assert_eq!(store.set(2, 20), ExecResult::Success);
    assert_eq!(store.set(1, 11), ExecResult::Failed);
    assert_eq!(store.get(1), Ok(10));
    assert_eq!(store.get(2), Ok(20));
    assert_eq!(store.get(3), Err(ExecResult::Failed));
}

#[test]
fn del_of_absent_key_fails_and_changes_nothing() {
    let mut store: Store<u32, u32> = Store::new();
    assert_eq!(store.set(1, 10), ExecResult::Success);
    assert_eq!(store.del(2), ExecResult::Failed);
    assert_eq!(store.get(1), Ok(10));
}

#[test]
fn del_after_set_frees_the_key() {
    let mut store: Store<String, String> = Store::new();
    assert_eq!(
        store.set("k".to_owned(), "v".to_owned()),
        ExecResult::Success
    );
    assert_eq!(store.del("k".to_owned()), ExecResult::Success);
    assert_eq!(store.get("k".to_owned()), Err(ExecResult::Failed));
    assert_eq!(store.del("k".to_owned()), ExecResult::Failed);
    assert_eq!(
        store.set("k".to_owned(), "v2".to_owned()),
        ExecResult::Success
    );
    assert_eq!(store.get("k".to_owned()), Ok("v2".to_owned()));
}

#[test]
fn del_leaves_other_keys_alone() {
    let mut store: Store<u32, u32> = Store::new();
    assert_eq!(store.set(1, 10), ExecResult::Success);
    assert_eq!(store.set(2, 20), ExecResult::Success);
    assert_eq!(store.del(1), ExecResult::Success);
    assert_eq!(store.get(1), Err(ExecResult::Failed));
    assert_eq!(store.get(2), Ok(20));
}

#[test]
fn repeated_get_returns_the_same() {
    let mut store: Store<String, String> = Store::new();
    assert_eq!(
        store.set("k".to_owned(), "v".to_owned()),
        ExecResult::Success
    );
    let first = store.get("k".to_owned());
    let second = store.get("k".to_owned());
    let third = store.get("k".to_owned());
    assert_eq!(first, Ok("v".to_owned()));
    assert_eq!(first, second);
    assert_eq!(second, third);
    let absent_first = store.get("other".to_owned());
    let absent_second = store.get("other".to_owned());
    assert_eq!(absent_first, Err(ExecResult::Failed));
    assert_eq!(absent_first, absent_second);
}

#[test]
fn get_hands_out_a_duplicate() {
    let mut store: Store<u8, Vec<u8>> = Store::new();
    assert_eq!(store.set(1, vec![1, 2, 3]), ExecResult::Success);
    let mut got = store.get(1).unwrap();
    got.push(4);
    assert_eq!(store.get(1), Ok(vec![1, 2, 3]));
}
