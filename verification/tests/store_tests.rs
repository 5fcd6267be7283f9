use dbmap::{DBMap, StorageError};

fn is_sync<T: Sync>() {}

#[test]
fn it_works() {
    is_sync::<DBMap<String, u64>>();
    let mut db_map: DBMap<String, u64> = DBMap::new("/tmp/db_map.db").unwrap();
    db_map.insert("Test".to_string(), 42).unwrap();
    db_map.insert("Hello".to_string(), 1).unwrap();
    db_map.insert("World".to_string(), 1).unwrap();
    assert_eq!(db_map.get("Test".to_string()).unwrap(), 42);
    assert_eq!(
        db_map.get_keys(1).unwrap(),
        ["Hello".to_string(), "World".to_string()]
    );
}

#[test]
fn round_trip_insert_then_get() {
    let mut store: DBMap<String, u64> = DBMap::new("/tmp/dbmap_round_trip.db").unwrap();
    store.insert("answer".to_string(), 42).unwrap();
    assert_eq!(store.get("answer".to_string()).unwrap(), 42);

    let mut raw: DBMap<Vec<u8>, Vec<u8>> = DBMap::new("/tmp/dbmap_round_trip_raw.db").unwrap();
    raw.insert(vec![0, 255, 7], vec![]).unwrap();
    assert_eq!(raw.get(vec![0, 255, 7]).unwrap(), Vec::<u8>::new());
}

#[test]
fn upsert_replaces_the_row() {
    let mut store: DBMap<String, u64> = DBMap::new("/tmp/dbmap_upsert.db").unwrap();
    store.insert("key".to_string(), 1).unwrap();
    store.insert("key".to_string(), 2).unwrap();
    assert_eq!(store.get("key".to_string()).unwrap(), 2);
    // exactly one row holds the key: the old value matches nothing,
    // the new value matches exactly one key
    assert_eq!(store.get_keys(1).unwrap(), Vec::<String>::new());
    assert_eq!(store.get_keys(2).unwrap(), vec!["key".to_string()]);
}

#[test]
fn uniqueness_of_stored_keys() {
    let mut store: DBMap<String, u64> = DBMap::new("/tmp/dbmap_unique.db").unwrap();
    store.insert("a".to_string(), 10).unwrap();
    store.insert("b".to_string(), 10).unwrap();
    store.insert("a".to_string(), 11).unwrap();
    store.insert("a".to_string(), 10).unwrap();
    // two distinct keys were ever inserted, so the two rows are a and b
    let mut keys = store.get_keys(10).unwrap();
    keys.sort();
    assert_eq!(keys, vec!["a".to_string(), "b".to_string()]);
    assert_eq!(store.get_keys(11).unwrap(), Vec::<String>::new());
}

#[test]
fn get_of_absent_key_is_not_found() {
    let mut store: DBMap<String, u64> = DBMap::new("/tmp/dbmap_not_found.db").unwrap();
    store.insert("present".to_string(), 5).unwrap();
    assert_eq!(
        store.get("never inserted".to_string()),
        Err(StorageError::NotFound)
    );
}

#[test]
fn reverse_lookup_is_complete() {
    let mut store: DBMap<String, u64> = DBMap::new("/tmp/dbmap_reverse.db").unwrap();
    store.insert("a".to_string(), 1).unwrap();
    store.insert("b".to_string(), 1).unwrap();
    store.insert("c".to_string(), 2).unwrap();
    let mut ones = store.get_keys(1).unwrap();
    ones.sort();
    assert_eq!(ones, vec!["a".to_string(), "b".to_string()]);
    assert_eq!(store.get_keys(2).unwrap(), vec!["c".to_string()]);
}

#[test]
fn reverse_lookup_of_absent_value_is_empty() {
    let mut store: DBMap<String, u64> = DBMap::new("/tmp/dbmap_reverse_empty.db").unwrap();
    store.insert("a".to_string(), 1).unwrap();
    assert_eq!(store.get_keys(999).unwrap(), Vec::<String>::new());
}

#[test]
fn values_persist_across_reopen() {
    let path = "/tmp/dbmap_persist.db";
    {
        let mut store: DBMap<String, u64> = DBMap::new(path).unwrap();
        store.insert("durable".to_string(), 7).unwrap();
    }
    let reopened: DBMap<String, u64> = DBMap::new(path).unwrap();
    assert_eq!(reopened.get("durable".to_string()).unwrap(), 7);
}

#[test]
fn corrupted_value_payload_is_decode_failed() {
    let path = "/tmp/dbmap_corrupt_value.db";
    let mut store: DBMap<String, u64> = DBMap::new(path).unwrap();
    store.insert("good".to_string(), 3).unwrap();
    // corrupt one row out-of-band: a value payload no u64 decodes from
    let conn = rusqlite::Connection::open(path).unwrap();
    conn.execute(
        "INSERT OR REPLACE INTO Map (key, value) VALUES (?1, ?2)",
        ("bad".as_bytes(), [1u8, 2, 3].as_slice()),
    )
    .unwrap();
    assert_eq!(store.get("bad".to_string()), Err(StorageError::DecodeFailed));
    // the corruption is isolated: the well-formed row still decodes
    assert_eq!(store.get("good".to_string()).unwrap(), 3);
}

#[test]
fn corrupted_key_payload_aborts_reverse_lookup() {
    let path = "/tmp/dbmap_corrupt_key.db";
    let mut store: DBMap<String, u64> = DBMap::new(path).unwrap();
    store.insert("good".to_string(), 2).unwrap();
    // a key payload that is not valid UTF-8, bound to the value 1
    let one: [u8; 8] = [0, 0, 0, 0, 0, 0, 0, 1];
    let conn = rusqlite::Connection::open(path).unwrap();
    conn.execute(
        "INSERT OR REPLACE INTO Map (key, value) VALUES (?1, ?2)",
        ([0xffu8, 0xfe].as_slice(), one.as_slice()),
    )
    .unwrap();
    assert_eq!(store.get_keys(1), Err(StorageError::DecodeFailed));
    // rows with other values are not affected
    assert_eq!(store.get_keys(2).unwrap(), vec!["good".to_string()]);
}

#[test]
fn unusable_path_is_unavailable() {
    let r: Result<DBMap<String, u64>, StorageError> =
        DBMap::new("no_such_directory_anywhere/x/y/z.db");
    assert_eq!(r.err(), Some(StorageError::Unavailable));
}

#[test]
fn unencodable_key_is_encode_failed() {
    let mut store: DBMap<char, u64> = DBMap::new("/tmp/dbmap_char_key.db").unwrap();
    assert_eq!(store.insert('\u{20ac}', 1), Err(StorageError::EncodeFailed));
    assert_eq!(store.get('\u{20ac}'), Err(StorageError::EncodeFailed));
    store.insert('k', 9).unwrap();
    assert_eq!(store.get('k').unwrap(), 9);
    assert_eq!(store.get_keys(9).unwrap(), vec!['k']);
}
