//! Engine-level transactions.
//!
//! A [`Transaction`] is checked out of a [`TransactionDb`] and buffers its
//! mutations until commit.  Writing a key takes a lock on it: a second
//! running transaction that tries to write the same key fails `Busy` and
//! must be retried whole.  A transaction begun with a pinned snapshot also
//! refuses to overwrite a key that anyone committed to after that instant.
//! Savepoints mark positions in the buffer, so a suffix of the buffered
//! mutations can be undone without abandoning the transaction.  Commit
//! appends the whole buffer to the committed log at once; rollback discards
//! it.  Both are terminal.

use vstd::prelude::*;

use crate::db::EngineV;
use crate::db::TransactionDb;
use crate::db::TxnState;
use crate::db::TxnV;
use crate::iter::DbIterator;
use crate::iter::Direction;
use crate::model::committed_since;
use crate::model::overlay_at;
use crate::model::overlay_ops;
use crate::model::Entry;
use crate::model::EntryV;
use crate::options::ReadOptions;
use crate::snapshot::SnapshotRef;
use crate::status::into_result;
use crate::status::RocksDBStatusError;
use crate::status::Status;
use crate::status::StatusCode;

verus! {

/// Whether a write of `key` in column family `col` by the transaction in
/// slot `idx` would conflict: another running transaction holds the key,
/// or the transaction pinned a snapshot and someone committed to the key
/// after that instant.
pub open spec fn txn_conflict(e: EngineV, idx: int, col: int, key: Seq<u8>) -> bool {
    ||| e.locked_by_other(idx, col, key)
    ||| (e.txns[idx].snap_seq matches Some(ss) && committed_since(e.log, ss, col, key))
}

/// What a transactional put or delete did to the store: on conflict it
/// fails `Busy` and changes nothing; otherwise it appends the mutation to
/// the transaction's buffer, leaving the committed log untouched either
/// way.
pub open spec fn txn_write_outcome(
    o: EngineV,
    f: EngineV,
    idx: int,
    col: int,
    key: Seq<u8>,
    val: Option<Seq<u8>>,
    r: Result<(), RocksDBStatusError>,
) -> bool {
    &&& f.cols == o.cols
    &&& f.log == o.log
    &&& f.snaps == o.snaps
    &&& if txn_conflict(o, idx, col, key) {
        &&& r matches Err(e) && e.code == StatusCode::Busy
        &&& f.txns == o.txns
    } else {
        &&& r is Ok
        &&& f.txns == o.txns.update(
            idx,
            TxnV { buffer: o.txns[idx].buffer.push(EntryV { col, key, val }), ..o.txns[idx] },
        )
    }
}

/// A handle to one transaction begun on a database handle.
#[derive(Debug)]
pub struct Transaction {
    pub idx: usize,
}

impl Transaction {
    /// The handle names a transaction slot the engine has issued.
    pub open spec fn valid_for(self, e: EngineV) -> bool {
        (self.idx as int) < e.txns.len()
    }

    /// The engine-side record of this transaction.
    pub open spec fn rec(self, e: EngineV) -> TxnV {
        e.txns[self.idx as int]
    }

    /// Buffers a put of `value` under `key` in column family `col`.  Fails
    /// `Busy` on a write conflict; the caller must then retry the whole
    /// transaction.
    pub fn put(&self, db: &mut TransactionDb, col: usize, key: &[u8], value: &[u8]) -> (r: Result<
        (),
        RocksDBStatusError,
    >)
        requires
            old(db)@.wf(),
            self.valid_for(old(db)@),
            self.rec(old(db)@).state == TxnState::Started,
            col < old(db)@.cols,
        ensures
            final(db)@.wf(),
            txn_write_outcome(
                old(db)@,
                final(db)@,
                self.idx as int,
                col as int,
                key@,
                Some(value@),
                r,
            ),
    {
        let e = Entry::new_put(col, key, value);
        self.buffer_write(db, col, key, e)
    }

    /// Buffers a delete of `key` in column family `col`.  Fails `Busy` on
    /// a write conflict, like [`Self::put`].
    pub fn delete(&self, db: &mut TransactionDb, col: usize, key: &[u8]) -> (r: Result<
        (),
        RocksDBStatusError,
    >)
        requires
            old(db)@.wf(),
            self.valid_for(old(db)@),
            self.rec(old(db)@).state == TxnState::Started,
            col < old(db)@.cols,
        ensures
            final(db)@.wf(),
            txn_write_outcome(old(db)@, final(db)@, self.idx as int, col as int, key@, None, r),
    {
        let e = Entry::new_delete(col, key);
        self.buffer_write(db, col, key, e)
    }

    /// Appends one already-built mutation to the buffer after the conflict
    /// checks shared by put and delete.
    fn buffer_write(&self, db: &mut TransactionDb, col: usize, key: &[u8], e: Entry) -> (r: Result<
        (),
        RocksDBStatusError,
    >)
        requires
            old(db)@.wf(),
            self.valid_for(old(db)@),
            self.rec(old(db)@).state == TxnState::Started,
            col < old(db)@.cols,
            e.deep_view().col == col as int,
            e.deep_view().key == key@,
        ensures
            final(db)@.wf(),
            txn_write_outcome(
                old(db)@,
                final(db)@,
                self.idx as int,
                col as int,
                key@,
                e.deep_view().val,
                r,
            ),
    {
        let mut conflict = crate::db::engine_locked_by_other(&db.inner, self.idx, col, key);
        if !conflict {
            conflict = match db.inner.txns[self.idx].snap_seq {
                Some(ss) => crate::db::committed_since_exec(&db.inner.log, ss, col, key),
                None => false,
            };
        }
        let status = if conflict {
            Status::with_code(StatusCode::Busy, "write conflicts with another transaction")
        } else {
            let ghost o = db@;
            let ghost ev = e.deep_view();
            db.inner.txns[self.idx].buffer.push(e);
            proof {
                let idx = self.idx as int;
                let orec = o.txns[idx];
                assert(db.inner.txns@[idx].deep_view().buffer =~= orec.buffer.push(ev));
                assert(db.inner.txns@[idx].deep_view() == (TxnV {
                    buffer: orec.buffer.push(ev),
                    ..orec
                }));
                assert(db.inner.txns.deep_view() =~= o.txns.update(
                    idx,
                    TxnV { buffer: orec.buffer.push(ev), ..orec },
                ));
                assert(orec.wf(o.log.len() as int));
                crate::db::lemma_wf_after_txn_update(o, db@, idx);
            }
            Status::new_ok()
        };
        into_result(&status)
    }

    /// Reads `key` of column family `col` as this transaction sees it: its
    /// own buffered mutations first, then the live committed state.
    pub fn get(&self, db: &TransactionDb, col: usize, key: &[u8]) -> (r: Result<
        Option<Vec<u8>>,
        RocksDBStatusError,
    >)
        requires
            db@.wf(),
            self.valid_for(db@),
            self.rec(db@).state == TxnState::Started,
            col < db@.cols,
        ensures
            r is Ok,
            r matches Ok(v) ==> ({
                let s = overlay_at(
                    db@.log,
                    db@.log.len() as int,
                    self.rec(db@).buffer,
                    col as int,
                    key@,
                );
                &&& (v is Some) == (s is Some)
                &&& (v matches Some(vv) ==> s == Some(vv@))
            }),
    {
        let options = ReadOptions::new();
        self.get_with_options(db, &options, col, key)
    }

    /// As [`Self::get`], with explicit read options; a snapshot attached
    /// to the options makes the read observe that instant instead of the
    /// live state, still underneath this transaction's own buffer.
    pub fn get_with_options(
        &self,
        db: &TransactionDb,
        options: &ReadOptions,
        col: usize,
        key: &[u8],
    ) -> (r: Result<Option<Vec<u8>>, RocksDBStatusError>)
        requires
            db@.wf(),
            self.valid_for(db@),
            self.rec(db@).state == TxnState::Started,
            col < db@.cols,
            options.snapshot_seq matches Some(s) ==> s <= db@.log.len(),
        ensures
            r is Ok,
            r matches Ok(v) ==> ({
                let s = overlay_at(
                    db@.log,
                    options.upto(db@.log.len() as int),
                    self.rec(db@).buffer,
                    col as int,
                    key@,
                );
                &&& (v is Some) == (s is Some)
                &&& (v matches Some(vv) ==> s == Some(vv@))
            }),
    {
        let eng = db.as_inner();
        let upto = match options.snapshot_seq {
            Some(s) => s,
            None => eng.log.len(),
        };
        Ok(crate::db::overlay_lookup(&eng.log, upto, &eng.txns[self.idx].buffer, col, key))
    }

    /// A cursor over column family `col` as this transaction sees it
    /// live: the committed state overlaid with its own buffered
    /// mutations, in ascending key order.
    pub fn iter(&self, db: &TransactionDb, col: usize) -> (it: DbIterator)
        requires
            db@.wf(),
            self.valid_for(db@),
            self.rec(db@).state == TxnState::Started,
            col < db@.cols,
        ensures
            it.wf(),
            it.direction == Direction::Forward,
            it.just_seeked,
            it.pos == crate::iter::start_pos(it.entries_v().len() as int, Direction::Forward),
            crate::iter::represents(
                it.entries_v(),
                overlay_ops(db@.log, db@.log.len() as int, self.rec(db@).buffer),
                db@.log.len() as int + self.rec(db@).buffer.len() as int,
                col as int,
            ),
    {
        let options = ReadOptions::new();
        self.iter_with_options(db, &options, col)
    }

    /// As [`Self::iter`], with explicit read options; a snapshot attached
    /// to the options makes the cursor observe that instant underneath
    /// this transaction's buffer.
    pub fn iter_with_options(&self, db: &TransactionDb, options: &ReadOptions, col: usize) -> (it:
        DbIterator)
        requires
            db@.wf(),
            self.valid_for(db@),
            self.rec(db@).state == TxnState::Started,
            col < db@.cols,
            options.snapshot_seq matches Some(s) ==> s <= db@.log.len(),
        ensures
            it.wf(),
            it.direction == Direction::Forward,
            it.just_seeked,
            it.pos == crate::iter::start_pos(it.entries_v().len() as int, Direction::Forward),
            crate::iter::represents(
                it.entries_v(),
                overlay_ops(db@.log, options.upto(db@.log.len() as int), self.rec(db@).buffer),
                options.upto(db@.log.len() as int) + self.rec(db@).buffer.len(),
                col as int,
            ),
    {
        self.iterator(db, options, col, Direction::Forward)
    }

    /// As [`Self::iter_with_options`], walking in the given direction.
    pub fn iterator(
        &self,
        db: &TransactionDb,
        options: &ReadOptions,
        col: usize,
        direction: Direction,
    ) -> (it: DbIterator)
        requires
            db@.wf(),
            self.valid_for(db@),
            self.rec(db@).state == TxnState::Started,
            col < db@.cols,
            options.snapshot_seq matches Some(s) ==> s <= db@.log.len(),
        ensures
            it.wf(),
            it.direction == direction,
            it.just_seeked,
            it.pos == crate::iter::start_pos(it.entries_v().len() as int, direction),
            crate::iter::represents(
                it.entries_v(),
                overlay_ops(db@.log, options.upto(db@.log.len() as int), self.rec(db@).buffer),
                options.upto(db@.log.len() as int) + self.rec(db@).buffer.len(),
                col as int,
            ),
    {
        let eng = db.as_inner();
        let upto = match options.snapshot_seq {
            Some(s) => s,
            None => eng.log.len(),
        };
        let ops = crate::iter::collect_ops(&eng.log, upto, &eng.txns[self.idx].buffer);
        let pairs = crate::iter::build_pairs(&ops, col);
        DbIterator::from_pairs(pairs, direction)
    }

    /// The read view this transaction pinned when it began.  The view
    /// borrows the transaction, so it cannot outlive it.
    pub fn snapshot(&self, db: &TransactionDb) -> (r: SnapshotRef<'_>)
        requires
            db@.wf(),
            self.valid_for(db@),
            self.rec(db@).state == TxnState::Started,
            self.rec(db@).snap_seq is Some,
        ensures
            r.tx == self,
    {
        SnapshotRef { tx: self }
    }

    /// Pins this transaction's read view at the present instant: writes it
    /// attempts to keys committed to after now will fail `Busy`.
    pub fn set_snapshot(&self, db: &mut TransactionDb)
        requires
            old(db)@.wf(),
            self.valid_for(old(db)@),
            self.rec(old(db)@).state == TxnState::Started,
        ensures
            final(db)@.wf(),
            final(db)@.cols == old(db)@.cols,
            final(db)@.log == old(db)@.log,
            final(db)@.snaps == old(db)@.snaps,
            final(db)@.txns == old(db)@.txns.update(
                self.idx as int,
                TxnV { snap_seq: Some(old(db)@.log.len() as int), ..self.rec(old(db)@) },
            ),
    {
        let ghost o = db@;
        let seq = db.inner.log.len();
        db.inner.txns[self.idx].snap_seq = Some(seq);
        proof {
            let idx = self.idx as int;
            let nrec = TxnV { snap_seq: Some(o.log.len() as int), ..o.txns[idx] };
            assert(db.inner.txns@[idx].deep_view().buffer =~= o.txns[idx].buffer);
            assert(db.inner.txns@[idx].deep_view().saves =~= o.txns[idx].saves);
            assert(db.inner.txns@[idx].deep_view() == nrec);
            assert(db.inner.txns.deep_view() =~= o.txns.update(idx, nrec));
            assert(o.txns[idx].wf(o.log.len() as int));
            crate::db::lemma_wf_after_txn_update(o, db@, idx);
        }
    }

    /// Unpins this transaction's read view: its writes then contend only
    /// with locks held by other running transactions.
    pub fn clear_snapshot(&self, db: &mut TransactionDb)
        requires
            old(db)@.wf(),
            self.valid_for(old(db)@),
            self.rec(old(db)@).state == TxnState::Started,
        ensures
            final(db)@.wf(),
            final(db)@.cols == old(db)@.cols,
            final(db)@.log == old(db)@.log,
            final(db)@.snaps == old(db)@.snaps,
            final(db)@.txns == old(db)@.txns.update(
                self.idx as int,
                TxnV { snap_seq: None, ..self.rec(old(db)@) },
            ),
    {
        let ghost o = db@;
        db.inner.txns[self.idx].snap_seq = None;
        proof {
            let idx = self.idx as int;
            let nrec = TxnV { snap_seq: None, ..o.txns[idx] };
            assert(db.inner.txns@[idx].deep_view().buffer =~= o.txns[idx].buffer);
            assert(db.inner.txns@[idx].deep_view().saves =~= o.txns[idx].saves);
            assert(db.inner.txns@[idx].deep_view() == nrec);
            assert(db.inner.txns.deep_view() =~= o.txns.update(idx, nrec));
            assert(o.txns[idx].wf(o.log.len() as int));
            crate::db::lemma_wf_after_txn_update(o, db@, idx);
        }
    }

    /// Pushes a savepoint: a marker at the current end of the buffer.
    /// Returns the marker's position.
    pub fn save(&self, db: &mut TransactionDb) -> (sp: usize)
        requires
            old(db)@.wf(),
            self.valid_for(old(db)@),
            self.rec(old(db)@).state == TxnState::Started,
        ensures
            final(db)@.wf(),
            final(db)@.cols == old(db)@.cols,
            final(db)@.log == old(db)@.log,
            final(db)@.snaps == old(db)@.snaps,
            sp == self.rec(old(db)@).buffer.len(),
            final(db)@.txns == old(db)@.txns.update(
                self.idx as int,
                TxnV {
                    saves: self.rec(old(db)@).saves.push(self.rec(old(db)@).buffer.len() as int),
                    ..self.rec(old(db)@)
                },
            ),
    {
        let ghost o = db@;
        let sp = db.inner.txns[self.idx].buffer.len();
        db.inner.txns[self.idx].saves.push(sp);
        proof {
            let idx = self.idx as int;
            let orec = o.txns[idx];
            let nrec = TxnV { saves: orec.saves.push(orec.buffer.len() as int), ..orec };
            assert(db.inner.txns@[idx].deep_view().saves =~= orec.saves.push(
                orec.buffer.len() as int,
            ));
            assert(db.inner.txns@[idx].deep_view() == nrec);
            assert(db.inner.txns.deep_view() =~= o.txns.update(idx, nrec));
            assert(o.txns[idx].wf(o.log.len() as int));
            crate::db::lemma_wf_after_txn_update(o, db@, idx);
        }
        sp
    }

    /// Undoes every buffered mutation made since the most recent
    /// savepoint, and pops that savepoint.  Fails `NotFound` when no
    /// savepoint is set.
    pub fn rollback_to_save(&self, db: &mut TransactionDb) -> (r: Result<(), RocksDBStatusError>)
        requires
            old(db)@.wf(),
            self.valid_for(old(db)@),
            self.rec(old(db)@).state == TxnState::Started,
        ensures
            final(db)@.wf(),
            final(db)@.cols == old(db)@.cols,
            final(db)@.log == old(db)@.log,
            final(db)@.snaps == old(db)@.snaps,
            ({
                let orec = self.rec(old(db)@);
                if orec.saves.len() == 0 {
                    &&& r matches Err(e) && e.code == StatusCode::NotFound
                    &&& final(db)@.txns == old(db)@.txns
                } else {
                    &&& r is Ok
                    &&& final(db)@.txns == old(db)@.txns.update(
                        self.idx as int,
                        TxnV {
                            buffer: orec.buffer.subrange(0, orec.saves.last()),
                            saves: orec.saves.drop_last(),
                            ..orec
                        },
                    )
                }
            }),
    {
        let ghost o = db@;
        let popped = db.inner.txns[self.idx].saves.pop();
        match popped {
            None => {
                let status = Status::with_code(StatusCode::NotFound, "no savepoint is set");
                proof {
                    let idx = self.idx as int;
                    assert(db.inner.txns@[idx].deep_view().saves =~= o.txns[idx].saves);
                    assert(db.inner.txns@[idx].deep_view() == o.txns[idx]);
                    assert(db.inner.txns.deep_view() =~= o.txns);
                    crate::db::lemma_wf_congruence(o, db@);
                }
                into_result(&status)
            },
            Some(mark) => {
                proof {
                    let idx = self.idx as int;
                    assert(o.txns[idx].saves.last() == mark as int);
                    assert(0 <= mark as int <= o.txns[idx].buffer.len());
                }
                db.inner.txns[self.idx].buffer.truncate(mark);
                proof {
                    let idx = self.idx as int;
                    let orec = o.txns[idx];
                    let nrec = TxnV {
                        buffer: orec.buffer.subrange(0, orec.saves.last()),
                        saves: orec.saves.drop_last(),
                        ..orec
                    };
                    assert(db.inner.txns@[idx].deep_view().buffer =~= orec.buffer.subrange(
                        0,
                        orec.saves.last(),
                    ));
                    assert(db.inner.txns@[idx].deep_view().saves =~= orec.saves.drop_last());
                    assert(db.inner.txns@[idx].deep_view() == nrec);
                    assert(db.inner.txns.deep_view() =~= o.txns.update(idx, nrec));
                    assert(orec.wf(o.log.len() as int));
                    assert forall|k: int|
                        0 <= k < nrec.saves.len() implies 0 <= #[trigger] nrec.saves[k]
                        <= nrec.buffer.len() by {
                        assert(orec.saves[k] <= orec.saves.last());
                    }
                    crate::db::lemma_wf_after_txn_update(o, db@, idx);
                }
                let status = Status::new_ok();
                into_result(&status)
            },
        }
    }

    /// Pops the most recent savepoint without undoing anything.  Fails
    /// `NotFound` when no savepoint is set.
    pub fn pop_save(&self, db: &mut TransactionDb) -> (r: Result<(), RocksDBStatusError>)
        requires
            old(db)@.wf(),
            self.valid_for(old(db)@),
            self.rec(old(db)@).state == TxnState::Started,
        ensures
            final(db)@.wf(),
            final(db)@.cols == old(db)@.cols,
            final(db)@.log == old(db)@.log,
            final(db)@.snaps == old(db)@.snaps,
            ({
                let orec = self.rec(old(db)@);
                if orec.saves.len() == 0 {
                    &&& r matches Err(e) && e.code == StatusCode::NotFound
                    &&& final(db)@.txns == old(db)@.txns
                } else {
                    &&& r is Ok
                    &&& final(db)@.txns == old(db)@.txns.update(
                        self.idx as int,
                        TxnV { saves: orec.saves.drop_last(), ..orec },
                    )
                }
            }),
    {
        let ghost o = db@;
        let popped = db.inner.txns[self.idx].saves.pop();
        match popped {
            None => {
                let status = Status::with_code(StatusCode::NotFound, "no savepoint is set");
                proof {
                    let idx = self.idx as int;
                    assert(db.inner.txns@[idx].deep_view().saves =~= o.txns[idx].saves);
                    assert(db.inner.txns@[idx].deep_view() == o.txns[idx]);
                    assert(db.inner.txns.deep_view() =~= o.txns);
                    crate::db::lemma_wf_congruence(o, db@);
                }
                into_result(&status)
            },
            Some(_mark) => {
                proof {
                    let idx = self.idx as int;
                    let orec = o.txns[idx];
                    let nrec = TxnV { saves: orec.saves.drop_last(), ..orec };
                    assert(db.inner.txns@[idx].deep_view().saves =~= orec.saves.drop_last());
                    assert(db.inner.txns@[idx].deep_view() == nrec);
                    assert(db.inner.txns.deep_view() =~= o.txns.update(idx, nrec));
                    assert(orec.wf(o.log.len() as int));
                    crate::db::lemma_wf_after_txn_update(o, db@, idx);
                }
                let status = Status::new_ok();
                into_result(&status)
            },
        }
    }

    /// Durably applies every buffered mutation, atomically: the whole
    /// buffer joins the committed log at once.  The transaction is then
    /// finished.  Write conflicts were already resolved when each mutation
    /// was buffered — the locks this transaction holds kept every
    /// conflicting writer out — so the commit itself is owed success.
    pub fn commit(&self, db: &mut TransactionDb) -> (r: Result<(), RocksDBStatusError>)
        requires
            old(db)@.wf(),
            self.valid_for(old(db)@),
            self.rec(old(db)@).state == TxnState::Started,
        ensures
            final(db)@.wf(),
            r is Ok,
            final(db)@.cols == old(db)@.cols,
            final(db)@.snaps == old(db)@.snaps,
            final(db)@.log == old(db)@.log + self.rec(old(db)@).buffer,
            final(db)@.txns == old(db)@.txns.update(
                self.idx as int,
                TxnV { state: TxnState::Committed, ..self.rec(old(db)@) },
            ),
    {
        let ghost o = db@;
        let n = db.inner.txns[self.idx].buffer.len();
        let mut j: usize = 0;
        while j < n
            invariant
                j <= n,
                (self.idx as int) < db@.txns.len(),
                db@.cols == o.cols,
                db@.snaps == o.snaps,
                db@.txns == o.txns,
                n == o.txns[self.idx as int].buffer.len(),
                db@.log == o.log + o.txns[self.idx as int].buffer.subrange(0, j as int),
            decreases n - j,
        {
            let ghost pre = db.inner.log.deep_view();
            let e = db.inner.txns[self.idx].buffer[j].duplicate();
            proof {
                let idx = self.idx as int;
                assert(e.deep_view() == o.txns[idx].buffer[j as int]);
            }
            db.inner.log.push(e);
            proof {
                let idx = self.idx as int;
                assert(db.inner.log.deep_view() =~= pre.push(e.deep_view()));
                assert(pre.push(e.deep_view()) =~= o.log + o.txns[idx].buffer.subrange(
                    0,
                    j + 1,
                ));
            }
            j = j + 1;
        }
        proof {
            let idx = self.idx as int;
            assert(o.txns[idx].buffer.subrange(0, n as int) =~= o.txns[idx].buffer);
        }
        let ghost mid = db@;
        db.inner.txns[self.idx].state = TxnState::Committed;
        proof {
            let idx = self.idx as int;
            let nrec = TxnV { state: TxnState::Committed, ..o.txns[idx] };
            assert(db.inner.txns@[idx].deep_view().buffer =~= o.txns[idx].buffer);
            assert(db.inner.txns@[idx].deep_view().saves =~= o.txns[idx].saves);
            assert(db.inner.txns@[idx].deep_view() == nrec);
            assert(db.inner.txns.deep_view() =~= o.txns.update(idx, nrec));
            assert(o.txns[idx].wf(o.log.len() as int));
            crate::db::lemma_wf_after_txn_update(o, db@, idx);
        }
        let status = Status::new_ok();
        into_result(&status)
    }

    /// Discards every buffered mutation and finishes the transaction.  The
    /// keys it held are released.
    pub fn rollback(&self, db: &mut TransactionDb) -> (r: Result<(), RocksDBStatusError>)
        requires
            old(db)@.wf(),
            self.valid_for(old(db)@),
            self.rec(old(db)@).state == TxnState::Started,
        ensures
            final(db)@.wf(),
            r is Ok,
            final(db)@.cols == old(db)@.cols,
            final(db)@.log == old(db)@.log,
            final(db)@.snaps == old(db)@.snaps,
            final(db)@.txns == old(db)@.txns.update(
                self.idx as int,
                TxnV {
                    state: TxnState::RolledBack,
                    buffer: Seq::empty(),
                    saves: Seq::empty(),
                    ..self.rec(old(db)@)
                },
            ),
    {
        let ghost o = db@;
        db.inner.txns[self.idx].state = TxnState::RolledBack;
        db.inner.txns[self.idx].buffer.clear();
        db.inner.txns[self.idx].saves.clear();
        proof {
            let idx = self.idx as int;
            let nrec = TxnV {
                state: TxnState::RolledBack,
                buffer: Seq::empty(),
                saves: Seq::empty(),
                ..o.txns[idx]
            };
            assert(db.inner.txns@[idx].deep_view().buffer =~= Seq::<EntryV>::empty());
            assert(db.inner.txns@[idx].deep_view().saves =~= Seq::<int>::empty());
            assert(db.inner.txns@[idx].deep_view() == nrec);
            assert(db.inner.txns.deep_view() =~= o.txns.update(idx, nrec));
            assert(o.txns[idx].wf(o.log.len() as int));
            crate::db::lemma_wf_after_txn_update(o, db@, idx);
        }
        let status = Status::new_ok();
        into_result(&status)
    }

    /// The engine-side slot this transaction occupies.
    pub fn as_inner(&self) -> (i: usize)
        ensures
            i == self.idx,
    {
        self.idx
    }
}

} // verus!
