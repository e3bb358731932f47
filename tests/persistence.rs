use ownership_store::error::StoreError;
use ownership_store::model::Record;
use ownership_store::persistence::{load_snapshot, restore, snapshot, SnapshotRead, VERSION};
use ownership_store::store::Store;

fn owned(parts: &[(String, Record)]) -> Vec<(String, Record)> {
    parts.to_vec()
}

#[test]
fn load_from_file_missing_returns_empty_store() {
    let store: Store<Record> =
        load_snapshot(SnapshotRead::Missing).expect("missing file should yield empty store");

    assert_eq!(store.iter().len(), 0);
}

#[test]
fn load_from_file_reads_fixture() {
    let records = vec![(
        "key1".to_string(),
        Record {
            id: 1,
            payload: vec![1, 2, 3],
        },
    )];
    let store = load_snapshot(SnapshotRead::Decoded(1, records)).expect("load should succeed");

    let rec = store.get("key1").expect("key1 should exist");
    assert_eq!(rec.id, 1);
    assert_eq!(rec.payload, vec![1, 2, 3]);
}

#[test]
fn save_to_file_roundtrip() {
    let mut store = Store::new();
    store
        .insert(
            "alpha".to_string(),
            Record {
                id: 1,
                payload: vec![1, 2, 3],
            },
        )
        .unwrap();

    let (version, records) = snapshot(&store);
    let loaded = restore(version, owned(records)).expect("restore should succeed");
    let rec = loaded.get("alpha").expect("alpha should exist");
    assert_eq!(rec.id, 1);
    assert_eq!(rec.payload, vec![1, 2, 3]);
}

#[test]
fn load_from_file_unsupported_version() {
    // the envelope {"version": 999, "records": {}}
    match load_snapshot::<Record>(SnapshotRead::Decoded(999, Vec::new())) {
        Err(err) => assert!(matches!(err, StoreError::UnsupportedVersion(999))),
        Ok(_) => panic!("expected UnsupportedVersion error"),
    }
}

#[test]
fn load_from_file_invalid_json() {
    let reason = serde_json::from_str::<serde_json::Value>("not-json")
        .unwrap_err()
        .to_string();
    match load_snapshot::<Record>(SnapshotRead::Malformed(reason)) {
        Err(err) => assert!(matches!(err, StoreError::Json(_))),
        Ok(_) => panic!("expected Json error"),
    }
}

#[test]
fn snapshot_carries_the_current_version() {
    let store: Store<i64> = Store::new();
    let (version, records) = snapshot(&store);
    assert_eq!(version, VERSION);
    assert_eq!(version, 1);
    assert!(records.is_empty());
}

#[test]
fn unsupported_version_wins_over_well_formed_records() {
    let records = vec![("a".to_string(), 1i64)];
    assert!(matches!(
        restore(2, records),
        Err(StoreError::UnsupportedVersion(2))
    ));
}

#[test]
fn repeated_key_in_a_snapshot_is_refused() {
    let records = vec![("a".to_string(), 1i64), ("a".to_string(), 2i64)];
    assert!(matches!(
        restore(VERSION, records),
        Err(StoreError::KeyAlreadyExists)
    ));
}

#[test]
fn round_trip_of_several_records() {
    let mut store: Store<i64> = Store::new();
    store.insert("a".to_string(), 1).unwrap();
    store.insert("b".to_string(), 2).unwrap();
    store.insert("c".to_string(), 3).unwrap();
    store.remove("b").unwrap();
    let (version, records) = snapshot(&store);
    let loaded = restore(version, records.to_vec()).unwrap();
    let mut listed = loaded.iter().to_vec();
    listed.sort();
    assert_eq!(listed, vec![("a".to_string(), 1), ("c".to_string(), 3)]);
}

#[test]
fn unreadable_file_is_an_io_error() {
    match load_snapshot::<i64>(SnapshotRead::Failed("permission denied".to_string())) {
        Err(StoreError::Io(reason)) => assert_eq!(reason, "permission denied"),
        _ => panic!("expected Io error"),
    }
}

#[test]
fn store_error_messages() {
    assert_eq!(StoreError::KeyAlreadyExists.message(), "key already exists");
    assert_eq!(StoreError::KeyNotFound.message(), "key not found");
    assert_eq!(StoreError::Io("x".to_string()).message(), "io error: x");
    assert_eq!(StoreError::Json("y".to_string()).message(), "json error: y");
    assert_eq!(
        StoreError::UnsupportedVersion(999).message(),
        "unsupported version: 999"
    );
    assert_eq!(
        StoreError::UnsupportedVersion(0).message(),
        "unsupported version: 0"
    );
}
