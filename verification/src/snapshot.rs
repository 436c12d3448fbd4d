//! Point-in-time read views.
//!
//! A [`Snapshot`] is an owned view acquired from a [`TransactionDb`]: it
//! reads the store as of the instant it was taken, whatever is committed
//! afterwards.  The handle must be given back through
//! [`TransactionDb::release_snapshot`] exactly once; because release takes
//! the handle by value, a released snapshot cannot be used or released
//! again.  A [`SnapshotRef`] is the borrowed counterpart: the read view a
//! transaction pinned at start, valid only while that transaction is alive,
//! which the borrow checker enforces through its lifetime.

use vstd::prelude::*;

use crate::db::EngineV;
use crate::db::TransactionDb;
use crate::db::TxnState;
use crate::iter::DbIterator;
use crate::iter::Direction;
use crate::model::overlay_at;
use crate::model::overlay_ops;
use crate::model::state_at;
use crate::options::ReadOptions;
use crate::status::RocksDBStatusError;
use crate::transaction::Transaction;

verus! {

/// An owned point-in-time read view of the store.
///
/// Release is explicit, not tied to drop: the contracts of a drop cannot
/// be checked, so the engine's release-exactly-once discipline is carried
/// by ownership instead — [`TransactionDb::release_snapshot`] consumes the
/// handle, which makes a second release or a read after release
/// impossible to verify.  A handle that is dropped without being released
/// merely leaves its entry marked live in the engine's snapshot table;
/// that leaks the entry but changes nothing any reader observes.
#[derive(Debug)]
pub struct Snapshot {
    pub tok: usize,
}

impl Snapshot {
    /// The snapshot is one the engine issued and has not yet released.
    pub open spec fn valid_for(self, e: EngineV) -> bool {
        &&& (self.tok as int) < e.snaps.len()
        &&& e.snaps[self.tok as int].live
    }

    /// The instant this snapshot was taken: the log length at acquisition.
    pub open spec fn seq_of(self, e: EngineV) -> int {
        e.snaps[self.tok as int].seq
    }

    /// Reads the value `key` of column family `col` had when the snapshot
    /// was taken.  Mutations committed after that instant are invisible.
    pub fn get(&self, db: &TransactionDb, col: usize, key: &[u8]) -> (r: Result<
        Option<Vec<u8>>,
        RocksDBStatusError,
    >)
        requires
            db@.wf(),
            self.valid_for(db@),
            col < db@.cols,
        ensures
            r is Ok,
            r matches Ok(v) ==> ({
                let s = state_at(db@.log, self.seq_of(db@), col as int, key@);
                &&& (v is Some) == (s is Some)
                &&& (v matches Some(vv) ==> s == Some(vv@))
            }),
    {
        let seq = db.as_inner().snaps[self.tok].seq;
        let mut options = ReadOptions::new();
        options.snapshot_seq = Some(seq);
        db.get_with_options(&options, col, key)
    }

    /// A cursor over column family `col` as it was when the snapshot was
    /// taken, in ascending key order.
    pub fn iter(&self, db: &TransactionDb, col: usize) -> (it: DbIterator)
        requires
            db@.wf(),
            self.valid_for(db@),
            col < db@.cols,
        ensures
            it.wf(),
            it.direction == Direction::Forward,
            it.just_seeked,
            it.pos == crate::iter::start_pos(it.entries_v().len() as int, Direction::Forward),
            crate::iter::represents(it.entries_v(), db@.log, self.seq_of(db@), col as int),
    {
        self.iterator(db, col, Direction::Forward)
    }

    /// As [`Self::iter`], walking in the given direction.
    pub fn iterator(&self, db: &TransactionDb, col: usize, direction: Direction) -> (it:
        DbIterator)
        requires
            db@.wf(),
            self.valid_for(db@),
            col < db@.cols,
        ensures
            it.wf(),
            it.direction == direction,
            it.just_seeked,
            it.pos == crate::iter::start_pos(it.entries_v().len() as int, direction),
            crate::iter::represents(it.entries_v(), db@.log, self.seq_of(db@), col as int),
    {
        let seq = db.as_inner().snaps[self.tok].seq;
        let mut options = ReadOptions::new();
        options.snapshot_seq = Some(seq);
        db.iterator(col, &options, direction)
    }
}

/// A borrowed read view pinned by a transaction, alive only while the
/// transaction is.
pub struct SnapshotRef<'a> {
    pub tx: &'a Transaction,
}

impl<'a> SnapshotRef<'a> {
    /// The transaction behind this view is still running and has a pinned
    /// instant to read at.
    pub open spec fn valid_for(self, e: EngineV) -> bool {
        &&& self.tx.valid_for(e)
        &&& self.tx.rec(e).state == TxnState::Started
        &&& self.tx.rec(e).snap_seq is Some
    }

    /// The pinned instant this view reads at.
    pub open spec fn seq_of(self, e: EngineV) -> int {
        self.tx.rec(e).snap_seq->0
    }

    /// Reads `key` of column family `col` as the owning transaction saw it
    /// at its pinned instant: the transaction's own buffered mutations
    /// first, then the store as of that instant.
    pub fn get(&self, db: &TransactionDb, col: usize, key: &[u8]) -> (r: Result<
        Option<Vec<u8>>,
        RocksDBStatusError,
    >)
        requires
            db@.wf(),
            self.valid_for(db@),
            col < db@.cols,
        ensures
            r is Ok,
            r matches Ok(v) ==> ({
                let s = overlay_at(
                    db@.log,
                    self.seq_of(db@),
                    self.tx.rec(db@).buffer,
                    col as int,
                    key@,
                );
                &&& (v is Some) == (s is Some)
                &&& (v matches Some(vv) ==> s == Some(vv@))
            }),
    {
        let eng = db.as_inner();
        let seq = match eng.txns[self.tx.idx].snap_seq {
            Some(s) => s,
            None => 0,
        };
        Ok(
            crate::db::overlay_lookup(
                &eng.log,
                seq,
                &eng.txns[self.tx.idx].buffer,
                col,
                key,
            ),
        )
    }

    /// A cursor over column family `col` as the owning transaction saw it
    /// at its pinned instant, its own buffered mutations included, in
    /// ascending key order.
    pub fn iter(&self, db: &TransactionDb, col: usize) -> (it: DbIterator)
        requires
            db@.wf(),
            self.valid_for(db@),
            col < db@.cols,
        ensures
            it.wf(),
            it.direction == Direction::Forward,
            it.just_seeked,
            it.pos == crate::iter::start_pos(it.entries_v().len() as int, Direction::Forward),
            crate::iter::represents(
                it.entries_v(),
                overlay_ops(db@.log, self.seq_of(db@), self.tx.rec(db@).buffer),
                self.seq_of(db@) + self.tx.rec(db@).buffer.len(),
                col as int,
            ),
    {
        self.iterator(db, col, Direction::Forward)
    }

    /// As [`Self::iter`], walking in the given direction.
    pub fn iterator(&self, db: &TransactionDb, col: usize, direction: Direction) -> (it:
        DbIterator)
        requires
            db@.wf(),
            self.valid_for(db@),
            col < db@.cols,
        ensures
            it.wf(),
            it.direction == direction,
            it.just_seeked,
            it.pos == crate::iter::start_pos(it.entries_v().len() as int, direction),
            crate::iter::represents(
                it.entries_v(),
                overlay_ops(db@.log, self.seq_of(db@), self.tx.rec(db@).buffer),
                self.seq_of(db@) + self.tx.rec(db@).buffer.len(),
                col as int,
            ),
    {
        let eng = db.as_inner();
        let seq = match eng.txns[self.tx.idx].snap_seq {
            Some(s) => s,
            None => 0,
        };
        let ops = crate::iter::collect_ops(&eng.log, seq, &eng.txns[self.tx.idx].buffer);
        let pairs = crate::iter::build_pairs(&ops, col);
        DbIterator::from_pairs(pairs, direction)
    }
}

} // verus!
