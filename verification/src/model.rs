//! The mathematical model of the store.
//!
//! The engine's committed state is modelled as a growing log of mutations,
//! each naming a column family, a key, and either a new value (a put) or no
//! value (a delete).  The contents visible to a reader are a function of a
//! log prefix: a snapshot taken when the log had length `n` reads prefix
//! `n`, a live reader reads the whole log, and a transaction reads the whole
//! log overlaid with its own still-buffered mutations.

use vstd::prelude::*;

use crate::bytes;

verus! {

/// One buffered or committed mutation: a put of `val = Some(v)` or a delete
/// of `val = None`, applied to `key` of column family `col`.
#[derive(Debug)]
pub struct Entry {
    pub col: usize,
    pub key: Vec<u8>,
    pub val: Option<Vec<u8>>,
}

/// The mathematical value of an [`Entry`].
pub struct EntryV {
    pub col: int,
    pub key: Seq<u8>,
    pub val: Option<Seq<u8>>,
}

impl DeepView for Entry {
    type V = EntryV;

    open spec fn deep_view(&self) -> EntryV {
        EntryV {
            col: self.col as int,
            key: self.key@,
            val: match self.val {
                Some(v) => Some(v@),
                None => None,
            },
        }
    }
}

impl Entry {
    /// A put of `val` under `key` in column family `col`.
    pub fn new_put(col: usize, key: &[u8], val: &[u8]) -> (e: Entry)
        ensures
            e.deep_view() == (EntryV { col: col as int, key: key@, val: Some(val@) }),
    {
        Entry { col, key: bytes::copy_bytes(key), val: Some(bytes::copy_bytes(val)) }
    }

    /// A delete of `key` in column family `col`.
    pub fn new_delete(col: usize, key: &[u8]) -> (e: Entry)
        ensures
            e.deep_view() == (EntryV { col: col as int, key: key@, val: None }),
    {
        Entry { col, key: bytes::copy_bytes(key), val: None }
    }

    /// An owned copy of this entry.
    pub fn duplicate(&self) -> (e: Entry)
        ensures
            e.deep_view() == self.deep_view(),
    {
        Entry {
            col: self.col,
            key: bytes::copy_bytes(self.key.as_slice()),
            val: match &self.val {
                Some(v) => Some(bytes::copy_bytes(v.as_slice())),
                None => None,
            },
        }
    }
}

/// The value of `key` in column family `col` after the first `upto` entries
/// of `log` have been applied to an empty store: the value of the last
/// matching put, `None` after a matching delete or when no entry matches.
pub open spec fn state_at(log: Seq<EntryV>, upto: int, col: int, key: Seq<u8>) -> Option<Seq<u8>>
    decreases upto,
{
    if upto <= 0 {
        None
    } else {
        let e = log[upto - 1];
        if e.col == col && e.key == key {
            e.val
        } else {
            state_at(log, upto - 1, col, key)
        }
    }
}

/// Whether `ops` holds an entry for `key` of column family `col`.
pub open spec fn holds_key(ops: Seq<EntryV>, col: int, key: Seq<u8>) -> bool {
    exists|i: int| 0 <= i < ops.len() && ops[i].col == col && ops[i].key == key
}

/// Whether any of `log[since..]` writes `key` of column family `col`: a
/// mutation committed after the instant `since`.
pub open spec fn committed_since(log: Seq<EntryV>, since: int, col: int, key: Seq<u8>) -> bool {
    exists|i: int| since <= i < log.len() && log[i].col == col && log[i].key == key
}

/// The mutation sequence a transaction reads: the committed log up to
/// `upto`, followed by the transaction's own still-buffered mutations.
pub open spec fn overlay_ops(log: Seq<EntryV>, upto: int, buf: Seq<EntryV>) -> Seq<EntryV> {
    log.subrange(0, upto) + buf
}

/// What a transaction reads: the committed log up to `upto`, overlaid with
/// the transaction's own still-buffered mutations, newest last.
pub open spec fn overlay_at(
    log: Seq<EntryV>,
    upto: int,
    buf: Seq<EntryV>,
    col: int,
    key: Seq<u8>,
) -> Option<Seq<u8>> {
    state_at(overlay_ops(log, upto, buf), upto + buf.len(), col, key)
}

/// Reading a prefix of a log reads the same through a subrange that
/// contains it.
pub proof fn lemma_state_at_subrange(log: Seq<EntryV>, n: int, upto: int, col: int, key: Seq<u8>)
    requires
        0 <= upto <= n <= log.len(),
    ensures
        state_at(log.subrange(0, n), upto, col, key) == state_at(log, upto, col, key),
    decreases upto,
{
    if upto > 0 {
        assert(log.subrange(0, n)[upto - 1] == log[upto - 1]);
        lemma_state_at_subrange(log, n, upto - 1, col, key);
    }
}

/// A log prefix reads the same whatever is appended after it: the view of a
/// snapshot taken at `upto` is unaffected by later commits.
pub proof fn lemma_state_at_prefix(log: Seq<EntryV>, ext: Seq<EntryV>, upto: int, col: int, key: Seq<u8>)
    requires
        0 <= upto <= log.len(),
    ensures
        state_at(log + ext, upto, col, key) == state_at(log, upto, col, key),
    decreases upto,
{
    if upto > 0 {
        assert((log + ext)[upto - 1] == log[upto - 1]);
        lemma_state_at_prefix(log, ext, upto - 1, col, key);
    }
}

} // verus!
