use sharded_kv::store::new_sharded_db;

#[test]
fn set_then_get_returns_exact_value() {
    let mut db = new_sharded_db(10);
    db.set(b"hello".to_vec(), b"world".to_vec());
    assert_eq!(db.get(&b"hello".to_vec()), Some(b"world".to_vec()));
}

#[test]
fn get_of_never_written_key_is_absent() {
    let db = new_sharded_db(10);
    assert_eq!(db.get(&b"missing-key".to_vec()), None);
}

#[test]
fn overwrite_keeps_latest_value() {
    let mut db = new_sharded_db(4);
    db.set(b"k".to_vec(), b"one".to_vec());
    db.set(b"k".to_vec(), b"two".to_vec());
    assert_eq!(db.get(&b"k".to_vec()), Some(b"two".to_vec()));
}

#[test]
fn serialized_writes_leave_last_value() {
    // Two serializations of the same pair of writes to one key: each leaves
    // the value of whichever write was applied last, never anything else.
    let written = [b"v1".to_vec(), b"v2".to_vec()];

    let mut db = new_sharded_db(10);
    db.set(b"k".to_vec(), written[0].clone());
    db.set(b"k".to_vec(), written[1].clone());
    let left = db.get(&b"k".to_vec()).unwrap();
    assert_eq!(left, written[1]);
    assert!(written.contains(&left));

    let mut db = new_sharded_db(10);
    db.set(b"k".to_vec(), written[1].clone());
    db.set(b"k".to_vec(), written[0].clone());
    let left = db.get(&b"k".to_vec()).unwrap();
    assert_eq!(left, written[0]);
    assert!(written.contains(&left));
}

#[test]
fn distinct_keys_do_not_disturb_each_other() {
    // "hello" and "foo" route to different shards of a ten-shard store.
    let mut db = new_sharded_db(10);
    db.set(b"hello".to_vec(), b"world".to_vec());
    db.set(b"foo".to_vec(), b"bar".to_vec());
    assert_eq!(db.get(&b"hello".to_vec()), Some(b"world".to_vec()));
    assert_eq!(db.get(&b"foo".to_vec()), Some(b"bar".to_vec()));
    db.set(b"foo".to_vec(), b"baz".to_vec());
    assert_eq!(db.get(&b"hello".to_vec()), Some(b"world".to_vec()));
}

#[test]
fn many_keys_spread_over_all_shards() {
    let mut db = new_sharded_db(3);
    for i in 0..50u8 {
        db.set(vec![i], vec![i, i]);
    }
    for i in 0..50u8 {
        assert_eq!(db.get(&vec![i]), Some(vec![i, i]));
    }
    assert_eq!(db.get(&vec![50]), None);
}

#[test]
fn single_shard_store_works() {
    let mut db = new_sharded_db(1);
    db.set(b"a".to_vec(), b"1".to_vec());
    db.set(b"b".to_vec(), b"2".to_vec());
    assert_eq!(db.get(&b"a".to_vec()), Some(b"1".to_vec()));
    assert_eq!(db.get(&b"b".to_vec()), Some(b"2".to_vec()));
    assert_eq!(db.num_shards(), 1);
}

#[test]
fn empty_key_and_empty_value_round_trip() {
    let mut db = new_sharded_db(10);
    db.set(Vec::new(), Vec::new());
    assert_eq!(db.get(&Vec::new()), Some(Vec::new()));
}
