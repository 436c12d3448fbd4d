use autorocks::db::DbBuilder;
use autorocks::db::TransactionDb;
use autorocks::iter::Direction;
use autorocks::options::ReadOptions;
use autorocks::bytes::key_compare;
use autorocks::bytes::KeyOrder;

fn open_temp(columns: usize) -> TransactionDb {
    DbBuilder::new("./db", columns)
        .create_if_missing(true)
        .create_missing_column_families(true)
        .build()
        .unwrap()
}

#[test]
fn test_iter() {
    let mut db = open_temp(1);
    db.put(0, b"key", b"value").unwrap();
    let tx = db.begin_transaction();
    let snap1 = tx.snapshot(&db);
    let snap = db.snapshot();
    db.put(0, b"key1", b"value1").unwrap();
    assert_eq!(snap.iter(&db, 0).count(), 1);
    assert_eq!(snap1.iter(&db, 0).count(), 1);
    assert_eq!(db.iter(0).count(), 2);
    assert_eq!(tx.iter(&db, 0).count(), 2);
}

#[test]
fn tests_test_iter() {
    let mut db = open_temp(1);
    db.put(0, b"key", b"value").unwrap();
    let tx = db.begin_transaction();
    let snap1 = tx.snapshot(&db);
    let snap = db.snapshot();
    db.put(0, b"key1", b"value1").unwrap();
    db.put(0, b"key3", b"value").unwrap();
    db.put(0, b"key4", b"value").unwrap();
    db.put(0, b"key5", b"value").unwrap();
    assert_eq!(snap.iterator(&db, 0, Direction::Forward).count(), 1);
    assert_eq!(snap1.iterator(&db, 0, Direction::Backward).count(), 1);
    let options = ReadOptions::new();
    assert_eq!(db.iterator(0, &options, Direction::Backward).count(), 5);
    assert_eq!(tx.iterator(&db, &options, 0, Direction::Forward).count(), 5);

    let mut iter = db.iterator(0, &options, Direction::Forward);
    iter.seek(b"key2");
    assert_eq!(iter.count(), 3);
}

#[test]
fn test_iter_orders_keys() {
    let mut db = open_temp(1);
    // Inserted out of order; the cursor must walk them in byte order.
    db.put(0, b"key3", b"c").unwrap();
    db.put(0, b"key1", b"a").unwrap();
    db.put(0, b"key5", b"e").unwrap();
    db.put(0, b"key2", b"b").unwrap();
    db.put(0, b"key4", b"d").unwrap();
    let mut it = db.iter(0);
    let expect = [
        (b"key1".to_vec(), b"a".to_vec()),
        (b"key2".to_vec(), b"b".to_vec()),
        (b"key3".to_vec(), b"c".to_vec()),
        (b"key4".to_vec(), b"d".to_vec()),
        (b"key5".to_vec(), b"e".to_vec()),
    ];
    for pair in expect.iter() {
        let (k, v) = it.next().unwrap();
        assert_eq!(&(k, v), pair);
    }
    assert!(it.next().is_none());
}

#[test]
fn test_iter_seek_bounds() {
    let mut db = open_temp(1);
    db.put(0, b"key1", b"a").unwrap();
    db.put(0, b"key2", b"b").unwrap();
    db.put(0, b"key3", b"c").unwrap();
    db.put(0, b"key4", b"d").unwrap();
    db.put(0, b"key5", b"e").unwrap();
    let mut it = db.iter(0);
    it.seek(b"key2");
    assert!(it.valid());
    assert_eq!(it.key().unwrap(), b"key2".to_vec());
    assert_eq!(it.value().unwrap(), b"b".to_vec());
    // The sought-to element is yielded once before the cursor advances.
    let (k, _) = it.next().unwrap();
    assert_eq!(k, b"key2".to_vec());
    let (k, _) = it.next().unwrap();
    assert_eq!(k, b"key3".to_vec());
    it.seek(b"key99");
    assert!(!it.valid());
    assert!(it.key().is_none());
    assert!(it.value().is_none());
    assert!(it.next().is_none());
}

#[test]
fn test_iter_seek_for_prev() {
    let mut db = open_temp(1);
    db.put(0, b"key1", b"a").unwrap();
    db.put(0, b"key3", b"c").unwrap();
    db.put(0, b"key5", b"e").unwrap();
    let mut it = db.iter(0);
    it.seek_for_prev(b"key4");
    assert_eq!(it.key().unwrap(), b"key3".to_vec());
    it.seek_for_prev(b"key3");
    assert_eq!(it.key().unwrap(), b"key3".to_vec());
    it.seek_for_prev(b"key0");
    assert!(!it.valid());
}

#[test]
fn test_iter_backward() {
    let mut db = open_temp(1);
    db.put(0, b"key1", b"a").unwrap();
    db.put(0, b"key2", b"b").unwrap();
    db.put(0, b"key3", b"c").unwrap();
    let options = ReadOptions::new();
    let mut it = db.iterator(0, &options, Direction::Backward);
    let (k, _) = it.next().unwrap();
    assert_eq!(k, b"key3".to_vec());
    let (k, _) = it.next().unwrap();
    assert_eq!(k, b"key2".to_vec());
    let (k, _) = it.next().unwrap();
    assert_eq!(k, b"key1".to_vec());
    assert!(it.next().is_none());
}

#[test]
fn test_iter_sees_deletes() {
    let mut db = open_temp(1);
    db.put(0, b"key1", b"a").unwrap();
    db.put(0, b"key2", b"b").unwrap();
    db.delete(0, b"key1").unwrap();
    let mut it = db.iter(0);
    let (k, _) = it.next().unwrap();
    assert_eq!(k, b"key2".to_vec());
    assert!(it.next().is_none());
}

#[test]
fn test_tx_iter_sees_buffer() {
    let mut db = open_temp(1);
    db.put(0, b"key2", b"committed").unwrap();
    let tx = db.begin_transaction();
    tx.put(&mut db, 0, b"key1", b"buffered").unwrap();
    tx.delete(&mut db, 0, b"key2").unwrap();
    let mut it = tx.iter(&db, 0);
    let (k, v) = it.next().unwrap();
    assert_eq!(k, b"key1".to_vec());
    assert_eq!(v, b"buffered".to_vec());
    assert!(it.next().is_none());
    // The committed state is untouched until commit.
    assert_eq!(db.iter(0).count(), 1);
    tx.commit(&mut db).unwrap();
    assert_eq!(db.get(0, b"key1").unwrap().unwrap(), b"buffered".to_vec());
    assert!(db.get(0, b"key2").unwrap().is_none());
}

#[test]
fn test_key_compare_order() {
    assert_eq!(key_compare(b"a", b"b"), KeyOrder::Less);
    assert_eq!(key_compare(b"b", b"a"), KeyOrder::Greater);
    assert_eq!(key_compare(b"abc", b"abc"), KeyOrder::Equal);
    assert_eq!(key_compare(b"ab", b"abc"), KeyOrder::Less);
    assert_eq!(key_compare(b"abd", b"abc"), KeyOrder::Greater);
    assert_eq!(key_compare(b"", b"a"), KeyOrder::Less);
    assert_eq!(key_compare(b"", b""), KeyOrder::Equal);
}
