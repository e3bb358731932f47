use ownership_store::error::StoreError;
use ownership_store::model::Record;
use ownership_store::store::Store;

#[test]
fn insert_new_key_ok() {
    let mut s = Store::new();

    let res = s.insert(
        String::from("Once upon a time..."),
        Record {
            id: 1,
            payload: Vec::new(),
        },
    );

    assert!(res.is_ok());
}

#[test]
fn insert_duplicate_key_err() {
    let mut s = Store::new();

    let res = s.insert(
        String::from("Once upon a time..."),
        Record {
            id: 1,
            payload: Vec::new(),
        },
    );

    assert!(res.is_ok());

    let res2 = s.insert(
        String::from("Once upon a time..."),
        Record {
            id: 1,
            payload: Vec::new(),
        },
    );

    assert!(matches!(res2, Err(StoreError::KeyAlreadyExists)));
}

#[test]
fn get_returns_borrowed_ref() {
    let mut s = Store::new();

    s.insert(
        "k1".to_string(),
        Record {
            id: 42,
            payload: vec![1, 2, 3],
        },
    )
    .unwrap();

    let got = s.get("k1").unwrap();

    assert_eq!(got.id, 42);
    assert_eq!(got.payload.len(), 3);

    assert!(s.get("k1").is_some());
}

#[test]
fn remove_transfers_ownership() {
    let mut s = Store::new();

    s.insert(
        "k1".to_string(),
        Record {
            id: 7,
            payload: vec![9, 9],
        },
    )
    .unwrap();

    let removed = s.remove("k1").unwrap();
    assert_eq!(removed.id, 7);

    assert!(s.get("k1").is_none());

    let err = s.remove("missing");
    assert!(matches!(err, Err(StoreError::KeyNotFound)));
}

#[test]
fn contains_true_false() {
    let mut s = Store::new();

    s.insert(
        String::from("key1"),
        Record {
            id: 1,
            payload: Vec::new(),
        },
    )
    .unwrap();

    assert_eq!(s.contains("key1"), true);
    assert_eq!(s.contains("key2"), false);
}

#[test]
fn payload_returns_slice() {
    let mut s = Store::new();

    s.insert(
        String::from("k1"),
        Record {
            id: 1,
            payload: vec![1, 2, 3],
        },
    )
    .unwrap();

    let payload = s.payload("k1").unwrap();
    assert_eq!(payload, &[1, 2, 3]);
}

#[test]
fn iter_returns_borrowed_items() {
    let mut s = Store::new();

    s.insert(
        "a".to_string(),
        Record {
            id: 1,
            payload: vec![1],
        },
    )
    .unwrap();

    s.insert(
        "b".to_string(),
        Record {
            id: 2,
            payload: vec![2, 2],
        },
    )
    .unwrap();

    let mut items: Vec<(&str, u64)> = s.iter().iter().map(|(k, v)| (k.as_str(), v.id)).collect();
    items.sort_by_key(|(k, _)| *k);

    assert_eq!(items, vec![("a", 1), ("b", 2)]);
}

#[test]
fn rename_key_moves_record_no_clone() {
    let mut s = Store::new();

    s.insert(
        "old".to_string(),
        Record {
            id: 10,
            payload: vec![1, 2, 3],
        },
    )
    .unwrap();

    s.rename_key("old", "new".to_string()).unwrap();

    assert!(s.get("old").is_none());
    let rec = s.get("new").unwrap();
    assert_eq!(rec.id, 10);
    assert_eq!(rec.payload, vec![1, 2, 3]);

    let err = s.rename_key("missing", "x".to_string());
    assert!(matches!(err, Err(StoreError::KeyNotFound)));

    s.insert(
        "existing".to_string(),
        Record {
            id: 99,
            payload: vec![9],
        },
    )
    .unwrap();

    let err2 = s.rename_key("new", "existing".to_string());
    assert!(matches!(err2, Err(StoreError::KeyAlreadyExists)));

    assert!(s.get("new").is_some());
}

#[test]
fn put_list_delete_scenario() {
    let mut s: Store<i64> = Store::new();
    s.insert("a".to_string(), 1).unwrap();
    s.insert("b".to_string(), 2).unwrap();

    let mut listed: Vec<(String, i64)> = s.iter().to_vec();
    listed.sort();
    assert_eq!(listed, vec![("a".to_string(), 1), ("b".to_string(), 2)]);

    assert_eq!(s.remove("a").unwrap(), 1);
    assert!(s.get("a").is_none());
    assert!(matches!(s.remove("a"), Err(StoreError::KeyNotFound)));
}

#[test]
fn get_after_insert_survives_other_keys_changing() {
    let mut s: Store<i64> = Store::new();
    s.insert("k".to_string(), 5).unwrap();
    s.insert("x".to_string(), 6).unwrap();
    s.rename_key("x", "y".to_string()).unwrap();
    s.remove("y").unwrap();
    s.insert("z".to_string(), 7).unwrap();
    assert_eq!(s.get("k"), Some(&5));
}

#[test]
fn rename_onto_itself_is_refused_and_keeps_the_value() {
    let mut s: Store<i64> = Store::new();
    s.insert("k".to_string(), 5).unwrap();
    assert!(matches!(
        s.rename_key("k", "k".to_string()),
        Err(StoreError::KeyAlreadyExists)
    ));
    assert_eq!(s.get("k"), Some(&5));
}

#[test]
fn empty_key_is_a_key_like_any_other() {
    let mut s: Store<i64> = Store::new();
    s.insert(String::new(), 3).unwrap();
    assert!(s.contains(""));
    assert_eq!(s.get(""), Some(&3));
    assert_eq!(s.iter().len(), 1);
}

#[test]
fn distinct_writers_lose_nothing() {
    let mut s: Store<usize> = Store::new();
    for n in [5usize, 2, 7, 0, 3, 6, 1, 4] {
        s.insert(format!("writer-{n}"), n).unwrap();
    }
    let mut keys: Vec<String> = s.iter().iter().map(|(k, _)| k.clone()).collect();
    keys.sort();
    let expected: Vec<String> = (0..8).map(|n| format!("writer-{n}")).collect();
    assert_eq!(keys, expected);
    for n in 0..8usize {
        assert_eq!(s.get(&format!("writer-{n}")), Some(&n));
    }
}

#[test]
fn default_store_is_empty() {
    let s: Store<Record> = Store::default();
    assert!(s.iter().is_empty());
    assert!(s.payload("k").is_none());
}
