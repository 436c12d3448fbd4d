use autorocks::db::DbBuilder;
use autorocks::db::TransactionDb;
use autorocks::options::TransactionOptions;
use autorocks::options::WriteOptions;
use autorocks::status::into_result;
use autorocks::status::Status;
use autorocks::status::StatusCode;

fn open_temp(columns: usize) -> TransactionDb {
    DbBuilder::new("./db", columns)
        .create_if_missing(true)
        .create_missing_column_families(true)
        .build()
        .unwrap()
}

#[test]
fn test_db_open_put_get_delete() {
    let mut db = open_temp(1);
    db.put(0, b"key", b"value").unwrap();
    let v = db.get(0, b"key").unwrap();
    assert_eq!(v.unwrap(), b"value".to_vec());
    db.delete(0, b"key").unwrap();
    let v = db.get(0, b"key").unwrap();
    assert!(v.is_none());
}

#[test]
fn test_snapshot() {
    let mut db = open_temp(1);
    db.put(0, b"key", b"value").unwrap();
    let snap = db.snapshot();
    db.put(0, b"key", b"value1").unwrap();
    let snap1 = db.snapshot();
    let v = snap.get(&db, 0, b"key").unwrap();
    assert_eq!(v.unwrap(), b"value".to_vec());
    let v = snap1.get(&db, 0, b"key").unwrap();
    assert_eq!(v.unwrap(), b"value1".to_vec());
    let v = snap1.get(&db, 0, b"key1").unwrap();
    assert!(v.is_none());
    db.release_snapshot(snap);
    db.release_snapshot(snap1);
}

#[test]
fn tests_test_snapshot() {
    let mut db = open_temp(1);
    db.put(0, b"key", b"value").unwrap();
    let snap = db.snapshot();
    db.put(0, b"key", b"value1").unwrap();
    let snap1 = db.snapshot();
    let v = snap.get(&db, 0, b"key").unwrap();
    assert_eq!(v.unwrap(), b"value".to_vec());
    let v = snap1.get(&db, 0, b"key").unwrap();
    assert_eq!(v.unwrap(), b"value1".to_vec());
    let v = snap1.get(&db, 0, b"key1").unwrap();
    assert!(v.is_none());
}

#[test]
fn test_tx_and_tx_snapshot() {
    let mut db = open_temp(1);
    db.put(0, b"key", b"value").unwrap();
    let tx = db.begin_transaction();

    db.put(0, b"key", b"value1").unwrap();

    let snap = tx.snapshot(&db);
    let v = snap.get(&db, 0, b"key").unwrap().unwrap();
    assert_eq!(v, b"value".to_vec());
    let v = tx.get(&db, 0, b"key").unwrap().unwrap();
    assert_eq!(v, b"value1".to_vec());

    tx.put(&mut db, 0, b"key1", b"value1").unwrap();
    let err = tx.put(&mut db, 0, b"key", b"value2").unwrap_err();
    assert!(err.code == StatusCode::Busy);
    tx.delete(&mut db, 0, b"key1").unwrap();
    let v = tx.get(&db, 0, b"key1").unwrap();
    assert!(v.is_none());

    tx.commit(&mut db).unwrap();
}

#[test]
fn tests_test_tx_and_tx_snapshot() {
    let mut db = open_temp(1);
    db.put(0, b"key", b"value").unwrap();
    let tx = db.begin_transaction();

    db.put(0, b"key", b"value1").unwrap();

    let snap = tx.snapshot(&db);
    let v = snap.get(&db, 0, b"key").unwrap().unwrap();
    assert_eq!(v, b"value".to_vec());
    let v = tx.get(&db, 0, b"key").unwrap().unwrap();
    assert_eq!(v, b"value1".to_vec());

    tx.put(&mut db, 0, b"key1", b"value1").unwrap();
    let err = tx.put(&mut db, 0, b"key", b"value2").unwrap_err();
    assert!(err.code == StatusCode::Busy);
    tx.delete(&mut db, 0, b"key1").unwrap();
    let v = tx.get(&db, 0, b"key1").unwrap();
    assert!(v.is_none());

    tx.commit(&mut db).unwrap();
}

#[test]
fn test_db_open() {
    let mut db = open_temp(3);

    let tx = db.begin_transaction();
    tx.put(&mut db, 2, b"key2", b"value2").unwrap();
    tx.commit(&mut db).unwrap();

    let tx = db.begin_transaction();
    tx.put(&mut db, 2, b"key", b"value").unwrap();
    tx.put(&mut db, 2, b"key1", b"value1").unwrap();
    assert_eq!(tx.get(&db, 2, b"key2").unwrap().unwrap(), b"value2".to_vec());

    let mut iter = tx.iter(&db, 2);
    iter.seek(b"key1");
    let (k, _) = iter.next().unwrap();
    assert_eq!(k, b"key1".to_vec());
    let (k, _) = iter.next().unwrap();
    assert_eq!(k, b"key2".to_vec());
    assert!(iter.next().is_none());
    assert!(!iter.valid());

    tx.commit(&mut db).unwrap();
}

#[test]
fn db_test_snapshot() {
    let mut db = open_temp(0);

    let tx = db.begin_transaction();
    tx.delete(&mut db, 0, b"key").unwrap();
    tx.commit(&mut db).unwrap();

    let snap = db.snapshot();

    let tx = db.begin_transaction();
    tx.put(&mut db, 0, b"key", b"value").unwrap();
    tx.commit(&mut db).unwrap();

    assert!(snap.get(&db, 0, b"key").unwrap().is_none());
    db.release_snapshot(snap);
}

#[test]
fn test_write_batch() {
    let mut db = open_temp(1);
    db.put(0, b"key", b"value").unwrap();
    let mut wb = db.new_write_batch();
    wb.put(0, b"key1", b"value1").unwrap();
    wb.delete(0, b"key").unwrap();
    assert_eq!(wb.len(), 2);
    db.write(&mut wb).unwrap();
    assert!(db.get(0, b"key").unwrap().is_none());
    assert!(db.get(0, b"key1").unwrap().is_some());
}

#[test]
fn test_write_batch_conflict() {
    let mut db = open_temp(1);
    let tx = db.begin_transaction();
    tx.put(&mut db, 0, b"key", b"held").unwrap();
    let mut wb = db.new_write_batch();
    wb.put(0, b"other", b"value").unwrap();
    wb.delete(0, b"key").unwrap();
    let err = db.write(&mut wb).unwrap_err();
    assert_eq!(err.code, StatusCode::Busy);
    // Nothing of the batch was applied: the untouched key is absent too.
    assert!(db.get(0, b"other").unwrap().is_none());
    tx.rollback(&mut db).unwrap();
    // With the lock released, the same batch goes through whole.
    db.write(&mut wb).unwrap();
    assert!(db.get(0, b"other").unwrap().is_some());
    assert!(db.get(0, b"key").unwrap().is_none());
}

#[test]
fn test_direct_put_conflict() {
    let mut db = open_temp(1);
    let tx = db.begin_transaction();
    tx.put(&mut db, 0, b"key", b"value").unwrap();
    let err = db.put(0, b"key", b"other").unwrap_err();
    assert_eq!(err.code, StatusCode::Busy);
    let err = db.delete(0, b"key").unwrap_err();
    assert_eq!(err.code, StatusCode::Busy);
    tx.commit(&mut db).unwrap();
    assert_eq!(db.get(0, b"key").unwrap().unwrap(), b"value".to_vec());
    db.put(0, b"key", b"other").unwrap();
    assert_eq!(db.get(0, b"key").unwrap().unwrap(), b"other".to_vec());
}

#[test]
fn test_two_transactions_conflict() {
    let mut db = open_temp(1);
    let tx1 = db.begin_transaction();
    let tx2 = db.begin_transaction();
    tx1.put(&mut db, 0, b"key", b"first").unwrap();
    let err = tx2.put(&mut db, 0, b"key", b"second").unwrap_err();
    assert_eq!(err.code, StatusCode::Busy);
    tx1.commit(&mut db).unwrap();
    tx2.rollback(&mut db).unwrap();
    assert_eq!(db.get(0, b"key").unwrap().unwrap(), b"first".to_vec());
}

#[test]
fn test_savepoint_rollback() {
    let mut db = open_temp(1);
    let tx = db.begin_transaction();
    tx.put(&mut db, 0, b"k1", b"v1").unwrap();
    tx.save(&mut db);
    tx.put(&mut db, 0, b"k1", b"v2").unwrap();
    assert_eq!(tx.get(&db, 0, b"k1").unwrap().unwrap(), b"v2".to_vec());
    tx.rollback_to_save(&mut db).unwrap();
    assert_eq!(tx.get(&db, 0, b"k1").unwrap().unwrap(), b"v1".to_vec());
    tx.commit(&mut db).unwrap();
    assert_eq!(db.get(0, b"k1").unwrap().unwrap(), b"v1".to_vec());
}

#[test]
fn test_savepoint_stack_empty() {
    let mut db = open_temp(1);
    let tx = db.begin_transaction();
    let err = tx.rollback_to_save(&mut db).unwrap_err();
    assert_eq!(err.code, StatusCode::NotFound);
    let err = tx.pop_save(&mut db).unwrap_err();
    assert_eq!(err.code, StatusCode::NotFound);
    tx.save(&mut db);
    tx.pop_save(&mut db).unwrap();
    let err = tx.pop_save(&mut db).unwrap_err();
    assert_eq!(err.code, StatusCode::NotFound);
    tx.rollback(&mut db).unwrap();
}

#[test]
fn test_pop_save_keeps_writes() {
    let mut db = open_temp(1);
    let tx = db.begin_transaction();
    tx.put(&mut db, 0, b"k1", b"v1").unwrap();
    tx.save(&mut db);
    tx.put(&mut db, 0, b"k1", b"v2").unwrap();
    tx.pop_save(&mut db).unwrap();
    assert_eq!(tx.get(&db, 0, b"k1").unwrap().unwrap(), b"v2".to_vec());
    tx.commit(&mut db).unwrap();
    assert_eq!(db.get(0, b"k1").unwrap().unwrap(), b"v2".to_vec());
}

#[test]
fn test_rollback_discards() {
    let mut db = open_temp(1);
    db.put(0, b"key", b"value").unwrap();
    let tx = db.begin_transaction();
    tx.put(&mut db, 0, b"key", b"changed").unwrap();
    tx.rollback(&mut db).unwrap();
    assert_eq!(db.get(0, b"key").unwrap().unwrap(), b"value".to_vec());
}

#[test]
fn test_open_missing_refused() {
    let err = DbBuilder::new("./absent", 1).build().unwrap_err();
    assert_eq!(err.code, StatusCode::InvalidArgument);
    assert!(!err.message().is_empty());
}

#[test]
fn test_into_result() {
    assert!(into_result(&Status::new_ok()).is_ok());
    let err = into_result(&Status::with_code(StatusCode::Corruption, "bad block")).unwrap_err();
    assert_eq!(err.code, StatusCode::Corruption);
    assert_eq!(err.message(), "bad block".to_string());
}

#[test]
fn test_load_options_text() {
    let mut b = DbBuilder::new("./db", 1);
    b.load_options_from_text(b"# tuning knobs\n\nmax_subcompactions=2\nttl=36000\n")
        .unwrap();
    assert_eq!(b.options.len(), 2);
    assert_eq!(b.options[0].name, b"max_subcompactions".to_vec());
    assert_eq!(b.options[0].value, b"2".to_vec());
    assert_eq!(b.options[1].name, b"ttl".to_vec());
    assert_eq!(b.options[1].value, b"36000".to_vec());
    // A malformed line has the whole text rejected and nothing merged.
    let err = b.load_options_from_text(b"not a pair").unwrap_err();
    assert_eq!(err.code, StatusCode::InvalidArgument);
    let err = b.load_options_from_text(b"=value").unwrap_err();
    assert_eq!(err.code, StatusCode::InvalidArgument);
    assert_eq!(b.options.len(), 2);
    // The last line may end without a newline.
    b.load_options_from_text(b"write_buffer_size=4096").unwrap();
    assert_eq!(b.options[2].name, b"write_buffer_size".to_vec());
    assert_eq!(b.options[2].value, b"4096".to_vec());
    b.create_if_missing(true).build().unwrap();
}

#[test]
fn test_as_inner() {
    let mut db = open_temp(2);
    db.put(1, b"key", b"value").unwrap();
    assert_eq!(db.as_inner().cols, 3);
    assert_eq!(db.as_inner().log.len(), 1);
    let tx = db.begin_transaction();
    assert_eq!(tx.as_inner(), 0);
}

#[test]
fn test_set_and_clear_snapshot() {
    let mut db = open_temp(1);
    let write_options = WriteOptions::new();
    let txn_options = TransactionOptions::new();
    let tx = db.begin_transaction_with_options(&write_options, &txn_options);
    db.put(0, b"key", b"value").unwrap();
    // Without a pinned view, overwriting a freshly committed key is fine.
    tx.put(&mut db, 0, b"key", b"mine").unwrap();
    tx.rollback(&mut db).unwrap();

    let tx = db.begin_transaction_with_options(&write_options, &txn_options);
    tx.set_snapshot(&mut db);
    db.put(0, b"key", b"newer").unwrap();
    let err = tx.put(&mut db, 0, b"key", b"mine").unwrap_err();
    assert_eq!(err.code, StatusCode::Busy);
    tx.clear_snapshot(&mut db);
    tx.put(&mut db, 0, b"key", b"mine").unwrap();
    tx.commit(&mut db).unwrap();
    assert_eq!(db.get(0, b"key").unwrap().unwrap(), b"mine".to_vec());
}
