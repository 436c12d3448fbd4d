//! Ordered cursors over one column family.
//!
//! A cursor is created from whichever handle owns the view it reads — the
//! database itself, a snapshot, a transaction, or a transaction's pinned
//! view — and walks that view's contents in lexicographic key order.  The
//! element a `seek` lands on is yielded exactly once before the cursor
//! advances: the `just_seeked` flag records that the landing element is
//! still owed.  A consumed cursor restarts only through a fresh seek.

use vstd::prelude::*;

use crate::bytes;
use crate::bytes::lex_lt;
use crate::bytes::KeyOrder;
use crate::model::state_at;
use crate::model::Entry;
use crate::model::EntryV;

verus! {

/// Which way a cursor walks: ascending or descending key order.
#[derive(Clone, Copy, Debug, PartialEq, Eq, Structural)]
pub enum Direction {
    Forward,
    Backward,
}

/// One key/value pair yielded by a cursor.
#[derive(Debug)]
pub struct KvPair {
    pub key: Vec<u8>,
    pub val: Vec<u8>,
}

/// The mathematical value of a [`KvPair`].
pub struct KvV {
    pub key: Seq<u8>,
    pub val: Seq<u8>,
}

impl DeepView for KvPair {
    type V = KvV;

    open spec fn deep_view(&self) -> KvV {
        KvV { key: self.key@, val: self.val@ }
    }
}

/// The pairs are in strictly ascending lexicographic key order; in
/// particular every key occurs once.
pub open spec fn sorted_strict(s: Seq<KvV>) -> bool {
    forall|i: int, j: int|
        0 <= i < j < s.len() ==> lex_lt((#[trigger] s[i]).key, (#[trigger] s[j]).key)
}

/// The pairs `s` are exactly the contents of column family `col` after the
/// first `upto` entries of `ops`: every listed pair reads back as listed,
/// and every key that reads as present is listed.
pub open spec fn represents(s: Seq<KvV>, ops: Seq<EntryV>, upto: int, col: int) -> bool {
    &&& (forall|i: int|
        0 <= i < s.len() ==> state_at(ops, upto, col, (#[trigger] s[i]).key) == Some(s[i].val))
    &&& (forall|k: Seq<u8>|
        (#[trigger] state_at(ops, upto, col, k)) is Some ==> exists|i: int|
            0 <= i < s.len() && s[i].key == k)
}

/// In a strictly sorted run, keys at distinct positions differ.
pub proof fn lemma_sorted_distinct(s: Seq<KvV>, i: int, j: int)
    requires
        sorted_strict(s),
        0 <= i < s.len(),
        0 <= j < s.len(),
        i != j,
    ensures
        s[i].key != s[j].key,
{
    if i < j {
        bytes::lemma_lex_asymmetric(s[i].key, s[j].key);
    } else {
        bytes::lemma_lex_asymmetric(s[j].key, s[i].key);
    }
}

/// The position where `key` belongs: the first index whose key is not
/// below `key`, or the length when every key is below it.
fn find_slot(v: &Vec<KvPair>, key: &[u8]) -> (i: usize)
    ensures
        i <= v@.len(),
        forall|j: int| 0 <= j < i ==> lex_lt((#[trigger] v.deep_view()[j]).key, key@),
        i < v@.len() ==> !lex_lt(v.deep_view()[i as int].key, key@),
{
    let mut i: usize = 0;
    while i < v.len()
        invariant
            i <= v@.len(),
            forall|j: int| 0 <= j < i ==> lex_lt((#[trigger] v.deep_view()[j]).key, key@),
        decreases v@.len() - i,
    {
        match bytes::key_compare(v[i].key.as_slice(), key) {
            KeyOrder::Less => {
                i = i + 1;
            },
            _ => {
                return i;
            },
        }
    }
    i
}

/// Applies one mutation of key `e.key` to the sorted run `cur`: a put
/// replaces or inserts the pair, a delete removes it.  Pairs of other keys
/// are exactly preserved.
fn apply_entry(cur: &mut Vec<KvPair>, e: &Entry)
    requires
        sorted_strict(old(cur).deep_view()),
    ensures
        sorted_strict(final(cur).deep_view()),
        ({
            let ev = e.deep_view();
            let nv = final(cur).deep_view();
            let ov = old(cur).deep_view();
            &&& (ev.val matches Some(v) ==> exists|i: int|
                0 <= i < nv.len() && nv[i] == (KvV { key: ev.key, val: v }))
            &&& (ev.val is None ==> forall|i: int|
                0 <= i < nv.len() ==> (#[trigger] nv[i]).key != ev.key)
            &&& (ev.val matches Some(v) ==> forall|i: int|
                0 <= i < nv.len() && (#[trigger] nv[i]).key == ev.key ==> nv[i].val == v)
            &&& (forall|i: int|
                0 <= i < nv.len() && (#[trigger] nv[i]).key != ev.key ==> exists|w: int|
                    0 <= w < ov.len() && ov[w] == nv[i])
            &&& (forall|w: int|
                0 <= w < ov.len() && (#[trigger] ov[w]).key != ev.key ==> exists|i: int|
                    0 <= i < nv.len() && nv[i] == ov[w])
        }),
{
    let ghost ov = cur.deep_view();
    let ghost ev = e.deep_view();
    let i = find_slot(cur, e.key.as_slice());
    let exact = if i < cur.len() {
        match bytes::key_compare(cur[i].key.as_slice(), e.key.as_slice()) {
            KeyOrder::Equal => true,
            _ => false,
        }
    } else {
        false
    };
    proof {
        if i < ov.len() && !exact {
            // The slot's key is not below ours and differs, so ours is
            // strictly below it and below everything past it.
            bytes::lemma_lex_total(ov[i as int].key, ev.key);
            assert forall|j: int|
                i <= j < ov.len() implies lex_lt(ev.key, (#[trigger] ov[j]).key) by {
                if j > i {
                    bytes::lemma_lex_transitive(ev.key, ov[i as int].key, ov[j].key);
                }
            }
        }
    }
    match &e.val {
        Some(v) => {
            let kv = KvPair { key: bytes::copy_bytes(e.key.as_slice()), val: bytes::copy_bytes(v.as_slice()) };
            if exact {
                cur[i] = kv;
                proof {
                    let nv = cur.deep_view();
                    assert(nv =~= ov.update(i as int, KvV { key: ev.key, val: v@ }));
                    assert(nv[i as int] == (KvV { key: ev.key, val: v@ }));
                    assert forall|a: int, b: int|
                        0 <= a < b < nv.len() implies lex_lt(
                        (#[trigger] nv[a]).key,
                        (#[trigger] nv[b]).key,
                    ) by {
                        assert(nv[a].key == ov[a].key);
                        assert(nv[b].key == ov[b].key);
                    }
                    assert forall|j: int|
                        0 <= j < nv.len() && (#[trigger] nv[j]).key == ev.key implies nv[j].val
                        == v@ by {
                        if j != i {
                            lemma_sorted_distinct(ov, j, i as int);
                        }
                    }
                    assert forall|j: int|
                        0 <= j < nv.len() && (#[trigger] nv[j]).key != ev.key implies exists|w: int|
                            0 <= w < ov.len() && ov[w] == nv[j] by {
                        assert(ov[j] == nv[j]);
                    }
                    assert forall|w: int|
                        0 <= w < ov.len() && (#[trigger] ov[w]).key != ev.key implies exists|j: int|
                            0 <= j < nv.len() && nv[j] == ov[w] by {
                        assert(nv[w] == ov[w]);
                    }
                }
            } else {
                cur.insert(i, kv);
                proof {
                    let nv = cur.deep_view();
                    assert(nv =~= ov.insert(i as int, KvV { key: ev.key, val: v@ }));
                    assert forall|a: int, b: int|
                        0 <= a < b < nv.len() implies lex_lt(
                        (#[trigger] nv[a]).key,
                        (#[trigger] nv[b]).key,
                    ) by {
                        if b < i {
                        } else if a > i {
                        } else if a == i {
                            assert(nv[b] == ov[b - 1]);
                        } else if b == i {
                            assert(nv[a] == ov[a]);
                        } else {
                            assert(nv[a] == ov[a]);
                            assert(nv[b] == ov[b - 1]);
                        }
                    }
                    assert(nv[i as int] == (KvV { key: ev.key, val: v@ }));
                    assert forall|j: int|
                        0 <= j < nv.len() && (#[trigger] nv[j]).key == ev.key implies nv[j].val
                        == v@ by {
                        if j < i {
                            bytes::lemma_lex_asymmetric(ov[j].key, ev.key);
                        } else if j > i {
                            assert(nv[j] == ov[j - 1]);
                            bytes::lemma_lex_asymmetric(ev.key, ov[j - 1].key);
                        }
                    }
                    assert forall|j: int|
                        0 <= j < nv.len() && (#[trigger] nv[j]).key != ev.key implies exists|w: int|
                            0 <= w < ov.len() && ov[w] == nv[j] by {
                        if j < i {
                            assert(ov[j] == nv[j]);
                        } else {
                            assert(j != i);
                            assert(ov[j - 1] == nv[j]);
                        }
                    }
                    assert forall|w: int|
                        0 <= w < ov.len() && (#[trigger] ov[w]).key != ev.key implies exists|j: int|
                            0 <= j < nv.len() && nv[j] == ov[w] by {
                        if w < i {
                            assert(nv[w] == ov[w]);
                        } else {
                            assert(nv[w + 1] == ov[w]);
                        }
                    }
                }
            }
        },
        None => {
            if exact {
                cur.remove(i);
                proof {
                    let nv = cur.deep_view();
                    assert(nv =~= ov.remove(i as int));
                    assert forall|a: int, b: int|
                        0 <= a < b < nv.len() implies lex_lt(
                        (#[trigger] nv[a]).key,
                        (#[trigger] nv[b]).key,
                    ) by {
                        if a < i && b < i {
                        } else if a < i {
                            assert(nv[b] == ov[b + 1]);
                        } else {
                            assert(nv[a] == ov[a + 1]);
                            assert(nv[b] == ov[b + 1]);
                        }
                    }
                    assert forall|j: int|
                        0 <= j < nv.len() implies (#[trigger] nv[j]).key != ev.key by {
                        if j < i {
                            lemma_sorted_distinct(ov, j, i as int);
                        } else {
                            assert(nv[j] == ov[j + 1]);
                            lemma_sorted_distinct(ov, j + 1, i as int);
                        }
                    }
                    assert forall|j: int|
                        0 <= j < nv.len() && (#[trigger] nv[j]).key != ev.key implies exists|w: int|
                            0 <= w < ov.len() && ov[w] == nv[j] by {
                        if j < i {
                            assert(ov[j] == nv[j]);
                        } else {
                            assert(ov[j + 1] == nv[j]);
                        }
                    }
                    assert forall|w: int|
                        0 <= w < ov.len() && (#[trigger] ov[w]).key != ev.key implies exists|j: int|
                            0 <= j < nv.len() && nv[j] == ov[w] by {
                        assert(w != i);
                        if w < i {
                            assert(nv[w] == ov[w]);
                        } else {
                            assert(nv[w - 1] == ov[w]);
                        }
                    }
                }
            } else {
                proof {
                    let nv = cur.deep_view();
                    assert forall|j: int|
                        0 <= j < nv.len() implies (#[trigger] nv[j]).key != ev.key by {
                        if j < i {
                            bytes::lemma_lex_asymmetric(ov[j].key, ev.key);
                        } else {
                            bytes::lemma_lex_asymmetric(ev.key, ov[j].key);
                        }
                    }
                    assert forall|j: int|
                        0 <= j < nv.len() && (#[trigger] nv[j]).key != ev.key implies exists|w: int|
                            0 <= w < ov.len() && ov[w] == nv[j] by {
                        assert(ov[j] == nv[j]);
                    }
                    assert forall|w: int|
                        0 <= w < ov.len() && (#[trigger] ov[w]).key != ev.key implies exists|j: int|
                            0 <= j < nv.len() && nv[j] == ov[w] by {
                        assert(nv[w] == ov[w]);
                    }
                }
            }
        },
    }
}

/// One mutation of the listed column family carries a faithful listing one
/// step forward.
proof fn lemma_apply_step(prev: Seq<KvV>, next: Seq<KvV>, ops: Seq<EntryV>, j: int, col: int)
    requires
        0 <= j < ops.len(),
        ops[j].col == col,
        represents(prev, ops, j, col),
        (ops[j].val matches Some(v) ==> exists|i: int|
            0 <= i < next.len() && next[i] == (KvV { key: ops[j].key, val: v })),
        (ops[j].val is None ==> forall|i: int|
            0 <= i < next.len() ==> (#[trigger] next[i]).key != ops[j].key),
        (ops[j].val matches Some(v) ==> forall|i: int|
            0 <= i < next.len() && (#[trigger] next[i]).key == ops[j].key ==> next[i].val == v),
        (forall|i: int|
            0 <= i < next.len() && (#[trigger] next[i]).key != ops[j].key ==> exists|w: int|
                0 <= w < prev.len() && prev[w] == next[i]),
        (forall|w: int|
            0 <= w < prev.len() && (#[trigger] prev[w]).key != ops[j].key ==> exists|i: int|
                0 <= i < next.len() && next[i] == prev[w]),
    ensures
        represents(next, ops, j + 1, col),
{
    assert forall|i: int|
        0 <= i < next.len() implies state_at(ops, j + 1, col, (#[trigger] next[i]).key) == Some(
        next[i].val,
    ) by {
        if next[i].key == ops[j].key {
            assert(state_at(ops, j + 1, col, next[i].key) == ops[j].val);
        } else {
            let w = choose|w: int| 0 <= w < prev.len() && prev[w] == next[i];
            assert(state_at(ops, j, col, prev[w].key) == Some(prev[w].val));
            assert(state_at(ops, j + 1, col, next[i].key) == state_at(ops, j, col, next[i].key));
        }
    }
    assert forall|k: Seq<u8>|
        (#[trigger] state_at(ops, j + 1, col, k)) is Some implies exists|i: int|
            0 <= i < next.len() && next[i].key == k by {
        if k == ops[j].key {
            assert(state_at(ops, j + 1, col, k) == ops[j].val);
            let v = state_at(ops, j + 1, col, k)->0;
            let i = choose|i: int|
                0 <= i < next.len() && next[i] == (KvV { key: ops[j].key, val: v });
            assert(next[i].key == k);
        } else {
            assert(state_at(ops, j + 1, col, k) == state_at(ops, j, col, k));
            let w = choose|w: int| 0 <= w < prev.len() && prev[w].key == k;
            assert(state_at(ops, j, col, prev[w].key) == Some(prev[w].val));
            let i = choose|i: int| 0 <= i < next.len() && next[i] == prev[w];
            assert(next[i].key == k);
        }
    }
}

/// The sorted listing of one column family's contents after the whole of
/// `ops` has been applied to an empty store.
pub(crate) fn build_pairs(ops: &Vec<Entry>, col: usize) -> (r: Vec<KvPair>)
    ensures
        sorted_strict(r.deep_view()),
        represents(r.deep_view(), ops.deep_view(), ops.deep_view().len() as int, col as int),
{
    let mut cur: Vec<KvPair> = Vec::new();
    let mut j: usize = 0;
    while j < ops.len()
        invariant
            j <= ops@.len(),
            sorted_strict(cur.deep_view()),
            represents(cur.deep_view(), ops.deep_view(), j as int, col as int),
        decreases ops@.len() - j,
    {
        let e = &ops[j];
        let ghost prev = cur.deep_view();
        if e.col == col {
            apply_entry(&mut cur, e);
            proof {
                lemma_apply_step(
                    prev,
                    cur.deep_view(),
                    ops.deep_view(),
                    j as int,
                    col as int,
                );
            }
        } else {
            proof {
                assert forall|k: Seq<u8>|
                    #[trigger] state_at(ops.deep_view(), j + 1, col as int, k) == state_at(
                    ops.deep_view(),
                    j as int,
                    col as int,
                    k,
                ) by {
                    assert(ops.deep_view()[j as int].col != col as int);
                }
            }
        }
        j = j + 1;
    }
    cur
}

/// A faithful listing against a log prefix is one against the whole log,
/// read at that prefix.
pub proof fn lemma_represents_prefix(s: Seq<KvV>, log: Seq<EntryV>, upto: int, col: int)
    requires
        0 <= upto <= log.len(),
        represents(s, log.subrange(0, upto), upto, col),
    ensures
        represents(s, log, upto, col),
{
    assert forall|k: Seq<u8>|
        #[trigger] state_at(log, upto, col, k) == state_at(log.subrange(0, upto), upto, col, k) by {
        crate::model::lemma_state_at_subrange(log, upto, upto, col, k);
    }
    assert forall|i: int|
        0 <= i < s.len() implies state_at(log, upto, col, (#[trigger] s[i]).key) == Some(
        s[i].val,
    ) by {
        assert(state_at(log.subrange(0, upto), upto, col, s[i].key) == Some(s[i].val));
    }
}

/// The mutations a read at instant `upto` overlaid with a buffer observes:
/// the log up to `upto`, then the buffer.
pub(crate) fn collect_ops(log: &Vec<Entry>, upto: usize, buf: &Vec<Entry>) -> (r: Vec<Entry>)
    requires
        upto <= log@.len(),
    ensures
        r.deep_view() == log.deep_view().subrange(0, upto as int) + buf.deep_view(),
{
    let mut r: Vec<Entry> = Vec::new();
    let mut i: usize = 0;
    proof {
        assert(r.deep_view() =~= log.deep_view().subrange(0, 0));
    }
    while i < upto
        invariant
            i <= upto <= log@.len(),
            r.deep_view() == log.deep_view().subrange(0, i as int),
        decreases upto - i,
    {
        let ghost pre = r.deep_view();
        let e = log[i].duplicate();
        r.push(e);
        proof {
            assert(r.deep_view() =~= pre.push(log.deep_view()[i as int]));
            assert(pre.push(log.deep_view()[i as int]) =~= log.deep_view().subrange(0, i + 1));
        }
        i = i + 1;
    }
    let mut j: usize = 0;
    proof {
        assert(r.deep_view() =~= log.deep_view().subrange(0, upto as int)
            + buf.deep_view().subrange(0, 0));
    }
    while j < buf.len()
        invariant
            j <= buf@.len(),
            upto <= log@.len(),
            r.deep_view() == log.deep_view().subrange(0, upto as int) + buf.deep_view().subrange(
                0,
                j as int,
            ),
        decreases buf@.len() - j,
    {
        let ghost pre = r.deep_view();
        let e = buf[j].duplicate();
        r.push(e);
        proof {
            assert(r.deep_view() =~= pre.push(buf.deep_view()[j as int]));
            assert(pre.push(buf.deep_view()[j as int]) =~= log.deep_view().subrange(0, upto as int)
                + buf.deep_view().subrange(0, j + 1));
        }
        j = j + 1;
    }
    proof {
        assert(buf.deep_view().subrange(0, buf@.len() as int) =~= buf.deep_view());
    }
    r
}

/// Where a fresh cursor over `len` pairs stands: on the first pair
/// ascending, on the last descending, off the end when there are none.
pub open spec fn start_pos(len: int, direction: Direction) -> int {
    match direction {
        Direction::Forward => 0,
        Direction::Backward => if len == 0 {
            0
        } else {
            len - 1
        },
    }
}

/// A cursor over one column family's contents, frozen at creation to the
/// view its owner exposed.
#[derive(Debug)]
pub struct DbIterator {
    pub entries: Vec<KvPair>,
    pub pos: usize,
    pub just_seeked: bool,
    pub direction: Direction,
}

impl DbIterator {
    /// The pairs this cursor walks.
    pub open spec fn entries_v(self) -> Seq<KvV> {
        self.entries.deep_view()
    }

    /// The cursor's pairs are sorted and its position lies within them or
    /// one past the end (the exhausted position).
    pub open spec fn wf(self) -> bool {
        &&& sorted_strict(self.entries_v())
        &&& self.pos <= self.entries_v().len()
    }

    /// How many pairs the cursor will still yield.
    pub open spec fn remaining(self) -> int {
        let len = self.entries_v().len() as int;
        match self.direction {
            Direction::Forward => {
                if self.pos < len {
                    if self.just_seeked {
                        len - self.pos
                    } else {
                        len - self.pos - 1
                    }
                } else {
                    0
                }
            },
            Direction::Backward => {
                if self.pos < len {
                    if self.just_seeked {
                        self.pos + 1
                    } else {
                        self.pos as int
                    }
                } else {
                    0
                }
            },
        }
    }

    /// A cursor over `entries`, positioned at the first pair (ascending)
    /// or the last (descending), with that pair still owed.
    pub(crate) fn from_pairs(entries: Vec<KvPair>, direction: Direction) -> (it: DbIterator)
        requires
            sorted_strict(entries.deep_view()),
        ensures
            it.wf(),
            it.entries_v() == entries.deep_view(),
            it.direction == direction,
            it.just_seeked,
            it.pos == start_pos(entries.deep_view().len() as int, direction),
    {
        let pos = match direction {
            Direction::Forward => 0,
            Direction::Backward => {
                if entries.len() == 0 {
                    0
                } else {
                    entries.len() - 1
                }
            },
        };
        DbIterator { entries, pos, just_seeked: true, direction }
    }

    /// Whether the cursor stands on a pair.
    pub fn valid(&self) -> (r: bool)
        ensures
            r == (self.pos < self.entries_v().len()),
    {
        self.pos < self.entries.len()
    }

    /// The key under the cursor, when it stands on a pair.
    pub fn key(&self) -> (r: Option<Vec<u8>>)
        ensures
            (r is Some) == (self.pos < self.entries_v().len()),
            r matches Some(k) ==> k@ == self.entries_v()[self.pos as int].key,
    {
        if self.pos < self.entries.len() {
            Some(bytes::copy_bytes(self.entries[self.pos].key.as_slice()))
        } else {
            None
        }
    }

    /// The value under the cursor, when it stands on a pair.
    pub fn value(&self) -> (r: Option<Vec<u8>>)
        ensures
            (r is Some) == (self.pos < self.entries_v().len()),
            r matches Some(v) ==> v@ == self.entries_v()[self.pos as int].val,
    {
        if self.pos < self.entries.len() {
            Some(bytes::copy_bytes(self.entries[self.pos].val.as_slice()))
        } else {
            None
        }
    }

    /// Repositions the cursor at the first pair whose key is not below
    /// `key`, which is then owed again: the next yield lands on it.
    pub fn seek(&mut self, key: &[u8])
        requires
            old(self).wf(),
        ensures
            final(self).wf(),
            final(self).entries_v() == old(self).entries_v(),
            final(self).direction == old(self).direction,
            final(self).just_seeked,
            forall|j: int|
                0 <= j < final(self).pos ==> lex_lt(
                    (#[trigger] final(self).entries_v()[j]).key,
                    key@,
                ),
            final(self).pos < final(self).entries_v().len() ==> !lex_lt(
                final(self).entries_v()[final(self).pos as int].key,
                key@,
            ),
    {
        let pos = find_slot(&self.entries, key);
        self.pos = pos;
        self.just_seeked = true;
    }

    /// Repositions the cursor at the last pair whose key is not above
    /// `key`, which is then owed again; only when every stored key is
    /// above `key` does the cursor become invalid.
    pub fn seek_for_prev(&mut self, key: &[u8])
        requires
            old(self).wf(),
        ensures
            final(self).wf(),
            final(self).entries_v() == old(self).entries_v(),
            final(self).direction == old(self).direction,
            final(self).just_seeked,
            final(self).pos < final(self).entries_v().len() ==> !lex_lt(
                key@,
                final(self).entries_v()[final(self).pos as int].key,
            ),
            forall|j: int|
                final(self).pos < j < final(self).entries_v().len() ==> lex_lt(
                    key@,
                    (#[trigger] final(self).entries_v()[j]).key,
                ),
            final(self).pos == final(self).entries_v().len() ==> forall|j: int|
                0 <= j < final(self).entries_v().len() ==> lex_lt(
                    key@,
                    (#[trigger] final(self).entries_v()[j]).key,
                ),
    {
        let ghost ov = self.entries.deep_view();
        let slot = find_slot(&self.entries, key);
        let exact = if slot < self.entries.len() {
            match bytes::key_compare(self.entries[slot].key.as_slice(), key) {
                KeyOrder::Equal => true,
                _ => false,
            }
        } else {
            false
        };
        proof {
            if slot < ov.len() {
                if exact {
                    bytes::lemma_lex_irreflexive(key@);
                    assert forall|j: int|
                        slot < j < ov.len() implies lex_lt(key@, (#[trigger] ov[j]).key) by {
                        assert(lex_lt(ov[slot as int].key, ov[j].key));
                    }
                } else {
                    bytes::lemma_lex_total(ov[slot as int].key, key@);
                    assert(lex_lt(key@, ov[slot as int].key));
                    assert forall|j: int|
                        slot <= j < ov.len() implies lex_lt(key@, (#[trigger] ov[j]).key) by {
                        if j > slot {
                            bytes::lemma_lex_transitive(key@, ov[slot as int].key, ov[j].key);
                        }
                    }
                }
            }
            if slot > 0 {
                bytes::lemma_lex_asymmetric(ov[slot as int - 1].key, key@);
            }
        }
        if exact {
            self.pos = slot;
        } else if slot == 0 {
            // Every key is above the sought one: no pair qualifies.
            self.pos = self.entries.len();
        } else {
            self.pos = slot - 1;
        }
        self.just_seeked = true;
    }

    /// Yields the owed pair, or advances one step in the cursor's
    /// direction and yields the pair there; `None` once the cursor has
    /// walked off its pairs, which is then permanent until a fresh seek.
    pub fn next(&mut self) -> (r: Option<(Vec<u8>, Vec<u8>)>)
        requires
            old(self).wf(),
        ensures
            final(self).wf(),
            final(self).entries_v() == old(self).entries_v(),
            final(self).direction == old(self).direction,
            !final(self).just_seeked,
            final(self).pos == ({
                let len = old(self).entries_v().len() as int;
                if old(self).just_seeked {
                    old(self).pos as int
                } else {
                    match old(self).direction {
                        Direction::Forward => {
                            if old(self).pos < len {
                                old(self).pos + 1
                            } else {
                                old(self).pos as int
                            }
                        },
                        Direction::Backward => {
                            if old(self).pos >= len || old(self).pos == 0 {
                                len
                            } else {
                                old(self).pos - 1
                            }
                        },
                    }
                }
            }),
            (r is Some) == (final(self).pos < final(self).entries_v().len()),
            r matches Some(p) ==> ({
                let kv = final(self).entries_v()[final(self).pos as int];
                p.0@ == kv.key && p.1@ == kv.val
            }),
            final(self).remaining() == if old(self).remaining() > 0 {
                old(self).remaining() - 1
            } else {
                0
            },
    {
        if !self.just_seeked {
            match self.direction {
                Direction::Forward => {
                    if self.pos < self.entries.len() {
                        self.pos = self.pos + 1;
                    }
                },
                Direction::Backward => {
                    if self.pos >= self.entries.len() || self.pos == 0 {
                        self.pos = self.entries.len();
                    } else {
                        self.pos = self.pos - 1;
                    }
                },
            }
        } else {
            self.just_seeked = false;
        }
        if self.pos < self.entries.len() {
            let k = bytes::copy_bytes(self.entries[self.pos].key.as_slice());
            let v = bytes::copy_bytes(self.entries[self.pos].val.as_slice());
            Some((k, v))
        } else {
            None
        }
    }

    /// Consumes the cursor, counting the pairs it still yields.
    pub fn count(self) -> (n: usize)
        requires
            self.wf(),
        ensures
            n == self.remaining(),
    {
        let mut it = self;
        let mut n: usize = 0;
        proof {
            vstd::std_specs::vec::axiom_spec_len(&it.entries);
        }
        loop
            invariant
                it.wf(),
                n + it.remaining() == self.remaining(),
                self.remaining() <= usize::MAX,
            decreases it.remaining(),
        {
            match it.next() {
                Some(_) => {
                    n = n + 1;
                },
                None => {
                    return n;
                },
            }
        }
    }
}

} // verus!
