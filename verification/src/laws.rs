//! The layer's governing laws, proved once and for all over the store
//! model.
//!
//! Each law is stated against the same spec functions the operations'
//! contracts use — `state_at` for what a reader sees, `overlay_at` for what
//! a transaction sees — so chaining an operation's `ensures` with the law
//! here yields the end-to-end guarantee.

use vstd::prelude::*;

use crate::bytes;
use crate::bytes::lex_lt;
use crate::db::EngineV;
use crate::db::TxnState;
use crate::iter::sorted_strict;
use crate::iter::KvV;
use crate::model::holds_key;
use crate::model::overlay_at;
use crate::model::state_at;
use crate::model::EntryV;
use crate::transaction::txn_conflict;

verus! {

/// Round trip: after a put of `val` under `key`, a read of `key` at the
/// new end of the log returns `Some(val)`; after a delete of `key`, it
/// returns `None`.  With `TransactionDb::put` / `delete` appending exactly
/// such an entry and `TransactionDb::get` reading `state_at` at the log's
/// end, this is the put/get and delete/get round trip for every key and
/// value.
pub proof fn lemma_round_trip(log: Seq<EntryV>, col: int, key: Seq<u8>, val: Seq<u8>)
    ensures
        state_at(
            log.push(EntryV { col, key, val: Some(val) }),
            log.len() as int + 1,
            col,
            key,
        ) == Some(val),
        state_at(log.push(EntryV { col, key, val: None }), log.len() as int + 1, col, key)
            is None,
{
    assert(log.push(EntryV { col, key, val: Some(val) })[log.len() as int] == (EntryV {
        col,
        key,
        val: Some(val),
    }));
    assert(log.push(EntryV { col, key, val: None })[log.len() as int] == (EntryV {
        col,
        key,
        val: None,
    }));
}

/// A write leaves the value of every other key, and of every other column
/// family, unchanged, at every read instant that covers the write.
pub proof fn lemma_other_keys_unchanged(log: Seq<EntryV>, e: EntryV, col: int, key: Seq<u8>)
    requires
        e.col != col || e.key != key,
    ensures
        state_at(log.push(e), log.len() as int + 1, col, key) == state_at(
            log,
            log.len() as int,
            col,
            key,
        ),
{
    assert(log.push(e)[log.len() as int] == e);
    assert(log.push(e) =~= log + seq![e]);
    crate::model::lemma_state_at_prefix(log, seq![e], log.len() as int, col, key);
}

/// Snapshot isolation: a snapshot taken at instant `snap_a` reads the same
/// value for every key after a later write as it did before it, while a
/// snapshot taken after the write sees the written value.  With
/// `TransactionDb::snapshot` recording the log length as the instant and
/// `Snapshot::get` reading `state_at` at that instant, the earlier
/// snapshot is immune to the write and the later one observes it.
pub proof fn lemma_snapshot_isolation(
    log: Seq<EntryV>,
    snap_a: int,
    e: EntryV,
    col: int,
    key: Seq<u8>,
)
    requires
        0 <= snap_a <= log.len(),
    ensures
        state_at(log.push(e), snap_a, col, key) == state_at(log, snap_a, col, key),
        state_at(log.push(e), log.len() as int + 1, e.col, e.key) == e.val,
{
    assert(log.push(e) =~= log + seq![e]);
    crate::model::lemma_state_at_prefix(log, seq![e], snap_a, col, key);
    assert(log.push(e)[log.len() as int] == e);
}

/// A successful transactional write takes the written key: the
/// transaction's buffer then holds it.
pub proof fn lemma_buffered_write_locks(b: Seq<EntryV>, col: int, key: Seq<u8>, val: Option<
    Seq<u8>,
>)
    ensures
        holds_key(b.push(EntryV { col, key, val }), col, key),
{
    assert(b.push(EntryV { col, key, val })[b.len() as int] == (EntryV { col, key, val }));
}

/// Transaction conflict: while one running transaction holds a key in its
/// buffer, a write of that key by any other transaction conflicts.  With
/// `Transaction::put`'s contract, the second writer's put is then owed a
/// `Busy` error, and the store is left unchanged.
pub proof fn lemma_write_conflict(e: EngineV, idx1: int, idx2: int, col: int, key: Seq<u8>)
    requires
        0 <= idx1 < e.txns.len(),
        0 <= idx2 < e.txns.len(),
        idx1 != idx2,
        e.txns[idx1].state == TxnState::Started,
        holds_key(e.txns[idx1].buffer, col, key),
    ensures
        txn_conflict(e, idx2, col, key),
{
    assert(e.txns[idx1].locks(col, key));
    assert(e.locked_by_other(idx2, col, key));
}

/// Savepoint rollback: a transaction that puts `v1` under a key, pushes a
/// savepoint, puts `v2` under the same key, and rolls back to the
/// savepoint, reads `v1` for that key again.  The buffer shapes below are
/// exactly those that `Transaction::put`, `save` and `rollback_to_save`
/// promise, and `Transaction::get` reads `overlay_at`.
pub proof fn lemma_savepoint_rollback(
    log: Seq<EntryV>,
    b0: Seq<EntryV>,
    col: int,
    k1: Seq<u8>,
    v1: Seq<u8>,
    v2: Seq<u8>,
)
    ensures
        ({
            let b1 = b0.push(EntryV { col, key: k1, val: Some(v1) });
            let b2 = b1.push(EntryV { col, key: k1, val: Some(v2) });
            let b3 = b2.subrange(0, b1.len() as int);
            overlay_at(log, log.len() as int, b3, col, k1) == Some(v1)
        }),
{
    let b1 = b0.push(EntryV { col, key: k1, val: Some(v1) });
    let b2 = b1.push(EntryV { col, key: k1, val: Some(v2) });
    let b3 = b2.subrange(0, b1.len() as int);
    assert(b3 =~= b1);
    let ops = crate::model::overlay_ops(log, log.len() as int, b1);
    assert(ops[log.len() as int + b0.len() as int] == (EntryV { col, key: k1, val: Some(v1) }));
}

/// Read your writes: within one transaction, a read of a key observes the
/// transaction's own latest buffered mutation of it immediately, whatever
/// read instant underlies the view.  `Transaction::put` and `delete` push
/// exactly such an entry, and every transactional read reads `overlay_at`.
pub proof fn lemma_read_your_writes(
    log: Seq<EntryV>,
    upto: int,
    buf: Seq<EntryV>,
    col: int,
    key: Seq<u8>,
    val: Option<Seq<u8>>,
)
    requires
        0 <= upto <= log.len(),
    ensures
        overlay_at(log, upto, buf.push(EntryV { col, key, val }), col, key) == val,
{
    let ops = crate::model::overlay_ops(log, upto, buf.push(EntryV { col, key, val }));
    assert(ops[upto + buf.len() as int] == (EntryV { col, key, val }));
}

/// Iterator bounds: in a sorted listing, once a seek has stopped at the
/// first position whose key is not below the sought key, everything from
/// that position on is at or above the sought key and everything before it
/// is strictly below.  With `DbIterator::seek`'s contract and the sorted
/// listing `represents` guarantees, consuming a cursor after `seek(k)`
/// yields exactly the stored keys at or above `k`, in ascending order.
pub proof fn lemma_seek_bounds(s: Seq<KvV>, pos: int, key: Seq<u8>)
    requires
        sorted_strict(s),
        0 <= pos <= s.len(),
        forall|j: int| 0 <= j < pos ==> lex_lt((#[trigger] s[j]).key, key),
        pos < s.len() ==> !lex_lt(s[pos].key, key),
    ensures
        forall|j: int| pos <= j < s.len() ==> !lex_lt((#[trigger] s[j]).key, key),
        forall|j: int| 0 <= j < pos ==> lex_lt((#[trigger] s[j]).key, key),
{
    assert forall|j: int| pos <= j < s.len() implies !lex_lt((#[trigger] s[j]).key, key) by {
        if j > pos && lex_lt(s[j].key, key) {
            bytes::lemma_lex_transitive(s[pos as int].key, s[j].key, key);
        }
    }
}

/// Write-batch atomicity: applying a batch that deletes `key` and puts
/// `v1` under `key1` leaves every reader that froze its view beforehand
/// untouched, while a reader of the applied log sees both changes — never
/// one without the other.  `TransactionDb::write` appends exactly such a
/// batch in one step, so no reader can observe an intermediate state.
pub proof fn lemma_batch_atomicity(
    log: Seq<EntryV>,
    before: int,
    col: int,
    key: Seq<u8>,
    key1: Seq<u8>,
    v1: Seq<u8>,
)
    requires
        0 <= before <= log.len(),
        key != key1,
    ensures
        ({
            let b = seq![
                EntryV { col, key, val: None },
                EntryV { col, key: key1, val: Some(v1) },
            ];
            let after = log + b;
            &&& state_at(after, before, col, key) == state_at(log, before, col, key)
            &&& state_at(after, before, col, key1) == state_at(log, before, col, key1)
            &&& state_at(after, after.len() as int, col, key) is None
            &&& state_at(after, after.len() as int, col, key1) == Some(v1)
        }),
{
    let b = seq![EntryV { col, key, val: None }, EntryV { col, key: key1, val: Some(v1) }];
    let after = log + b;
    crate::model::lemma_state_at_prefix(log, b, before, col, key);
    crate::model::lemma_state_at_prefix(log, b, before, col, key1);
    assert(after[log.len() as int] == (EntryV { col, key, val: None }));
    assert(after[log.len() as int + 1] == (EntryV { col, key: key1, val: Some(v1) }));
    assert(after.len() as int == log.len() as int + 2);
    assert(state_at(after, log.len() as int + 1, col, key) is None);
    assert(state_at(after, after.len() as int, col, key) == state_at(
        after,
        log.len() as int + 1,
        col,
        key,
    ));
}

} // verus!
