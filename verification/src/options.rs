//! Caller-tunable options for reads, writes, and transactions.
//!
//! These mirror the knobs the engine exposes.  The durability flags on
//! [`WriteOptions`] do not change what a write means for the store's
//! contents, so the model carries them without interpreting them; the
//! snapshot attached to [`ReadOptions`] selects which log prefix a read
//! observes.

use vstd::prelude::*;

verus! {

/// Options governing one write: fsync before acknowledging, fail fast
/// instead of stalling under write pressure, skip the write-ahead log.
#[derive(Clone, Copy, Debug)]
pub struct WriteOptions {
    pub sync: bool,
    pub no_slowdown: bool,
    pub disable_wal: bool,
}

impl WriteOptions {
    /// The engine's defaults: no fsync, allow stalling, keep the log.
    pub fn new() -> (o: WriteOptions)
        ensures
            !o.sync,
            !o.no_slowdown,
            !o.disable_wal,
    {
        WriteOptions { sync: false, no_slowdown: false, disable_wal: false }
    }
}

/// Options governing one read or one cursor: checksum verification, cache
/// population, and an optional snapshot instant.  When `snapshot_seq` is
/// `Some(n)`, the read observes the store as of log prefix `n`.
#[derive(Clone, Copy, Debug)]
pub struct ReadOptions {
    pub verify_checksums: bool,
    pub fill_cache: bool,
    pub snapshot_seq: Option<usize>,
}

impl ReadOptions {
    /// The engine's defaults: verify checksums, fill the cache, read the
    /// live state.
    pub fn new() -> (o: ReadOptions)
        ensures
            o.verify_checksums,
            o.fill_cache,
            o.snapshot_seq is None,
    {
        ReadOptions { verify_checksums: true, fill_cache: true, snapshot_seq: None }
    }

    /// The log prefix this read observes, given the current log length.
    pub open spec fn upto(&self, log_len: int) -> int {
        match self.snapshot_seq {
            Some(s) => s as int,
            None => log_len,
        }
    }
}

/// Options governing one transaction.  With `set_snapshot`, the
/// transaction pins its read view at creation and refuses to overwrite a
/// key that was committed to after that instant.
#[derive(Clone, Copy, Debug)]
pub struct TransactionOptions {
    pub set_snapshot: bool,
}

impl TransactionOptions {
    /// The engine's default: no pinned snapshot.
    pub fn new() -> (o: TransactionOptions)
        ensures
            !o.set_snapshot,
    {
        TransactionOptions { set_snapshot: false }
    }
}

} // verus!
