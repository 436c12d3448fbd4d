//! The database handle: the owner of the engine state.
//!
//! [`TransactionDb`] owns the whole engine model: the column-family count
//! fixed at open time, the log of committed mutations, the table of issued
//! snapshots, and the records of every transaction begun on this handle.
//! Direct reads and writes act on the live end of the log; snapshots and
//! transactions are checked out of the handle and act through it.

use vstd::prelude::*;

use crate::bytes;
use crate::bytes::KeyOrder;
use crate::iter::DbIterator;
use crate::iter::Direction;
use crate::model::committed_since;
use crate::model::holds_key;
use crate::model::overlay_at;
use crate::model::state_at;
use crate::model::Entry;
use crate::model::EntryV;
use crate::options::ReadOptions;
use crate::options::TransactionOptions;
use crate::options::WriteOptions;
use crate::snapshot::Snapshot;
use crate::transaction::Transaction;
use crate::write_batch::WriteBatch;
use crate::status::into_result;
use crate::status::RocksDBStatusError;
use crate::status::Status;
use crate::status::StatusCode;

verus! {

/// One snapshot issued by the handle: the log length at acquisition, and
/// whether the snapshot is still live (not yet released).
#[derive(Debug)]
pub struct SnapRecord {
    pub seq: usize,
    pub live: bool,
}

/// The mathematical value of a [`SnapRecord`].
pub struct SnapV {
    pub seq: int,
    pub live: bool,
}

impl DeepView for SnapRecord {
    type V = SnapV;

    open spec fn deep_view(&self) -> SnapV {
        SnapV { seq: self.seq as int, live: self.live }
    }
}

/// Where a transaction stands in its lifecycle.  Both end states are
/// terminal: no operation is permitted once a transaction has committed or
/// rolled back.
#[derive(Clone, Copy, Debug, PartialEq, Eq, Structural)]
pub enum TxnState {
    Started,
    Committed,
    RolledBack,
}

/// The engine-side record of one transaction: its lifecycle state, its
/// still-buffered mutations, its savepoint markers (positions in the
/// buffer), and its pinned read instant, if any.
#[derive(Debug)]
pub struct TxnRecord {
    pub state: TxnState,
    pub buffer: Vec<Entry>,
    pub saves: Vec<usize>,
    pub snap_seq: Option<usize>,
}

/// The mathematical value of a [`TxnRecord`].
pub struct TxnV {
    pub state: TxnState,
    pub buffer: Seq<EntryV>,
    pub saves: Seq<int>,
    pub snap_seq: Option<int>,
}

impl DeepView for TxnRecord {
    type V = TxnV;

    open spec fn deep_view(&self) -> TxnV {
        TxnV {
            state: self.state,
            buffer: self.buffer.deep_view(),
            saves: Seq::new(self.saves@.len(), |i: int| self.saves@[i] as int),
            snap_seq: match self.snap_seq {
                Some(s) => Some(s as int),
                None => None,
            },
        }
    }
}

impl TxnV {
    /// Internal consistency of one transaction record: the pinned instant
    /// lies within the log, and the savepoint markers form a stack of
    /// positions inside the buffer, oldest first.
    pub open spec fn wf(self, log_len: int) -> bool {
        &&& (self.snap_seq matches Some(s) ==> 0 <= s <= log_len)
        &&& (forall|i: int| 0 <= i < self.saves.len() ==> 0 <= #[trigger] self.saves[i] <= self.buffer.len())
        &&& (forall|i: int, j: int| 0 <= i <= j < self.saves.len() ==> self.saves[i] <= self.saves[j])
    }

    /// Whether this record holds a write lock on `key` of column family
    /// `col`: it is still running and has buffered a mutation of that key.
    pub open spec fn locks(self, col: int, key: Seq<u8>) -> bool {
        self.state == TxnState::Started && holds_key(self.buffer, col, key)
    }
}

/// The engine state owned by one database handle.
#[derive(Debug)]
pub struct Engine {
    pub cols: usize,
    pub log: Vec<Entry>,
    pub snaps: Vec<SnapRecord>,
    pub txns: Vec<TxnRecord>,
}

/// The mathematical value of the whole engine state.
pub struct EngineV {
    pub cols: int,
    pub log: Seq<EntryV>,
    pub snaps: Seq<SnapV>,
    pub txns: Seq<TxnV>,
}

impl View for Engine {
    type V = EngineV;

    open spec fn view(&self) -> EngineV {
        EngineV {
            cols: self.cols as int,
            log: self.log.deep_view(),
            snaps: self.snaps.deep_view(),
            txns: self.txns.deep_view(),
        }
    }
}

impl EngineV {
    /// Well-formedness of the engine state: every snapshot's instant lies
    /// within the log, and every transaction record is internally
    /// consistent.
    pub open spec fn wf(self) -> bool {
        &&& (forall|i: int|
            0 <= i < self.snaps.len() ==> 0 <= (#[trigger] self.snaps[i]).seq <= self.log.len())
        &&& (forall|i: int|
            0 <= i < self.txns.len() ==> (#[trigger] self.txns[i]).wf(self.log.len() as int))
    }

    /// Whether any running transaction holds a write lock on `key` of
    /// column family `col`.
    pub open spec fn any_lock(self, col: int, key: Seq<u8>) -> bool {
        exists|i: int| 0 <= i < self.txns.len() && (#[trigger] self.txns[i]).locks(col, key)
    }

    /// Whether a running transaction other than the one in slot `idx`
    /// holds a write lock on `key` of column family `col`.
    pub open spec fn locked_by_other(self, idx: int, col: int, key: Seq<u8>) -> bool {
        exists|i: int|
            0 <= i < self.txns.len() && i != idx && (#[trigger] self.txns[i]).locks(col, key)
    }
}

/// What a direct (auto-committed) put or delete did to the store: when any
/// running transaction holds the key, it fails `Busy` and changes nothing;
/// otherwise it appends its mutation to the log.  Snapshots and
/// transactions are untouched either way.
pub open spec fn direct_write_outcome(
    o: EngineV,
    f: EngineV,
    col: int,
    key: Seq<u8>,
    val: Option<Seq<u8>>,
    r: Result<(), RocksDBStatusError>,
) -> bool {
    &&& f.cols == o.cols
    &&& f.snaps == o.snaps
    &&& f.txns == o.txns
    &&& if o.any_lock(col, key) {
        &&& r matches Err(e) && e.code == StatusCode::Busy
        &&& f.log == o.log
    } else {
        &&& r is Ok
        &&& f.log == o.log.push(EntryV { col, key, val })
    }
}

/// Well-formedness survives any step that only appends to the log and
/// leaves snapshots and transactions alone.
pub proof fn lemma_wf_after_log_growth(o: EngineV, f: EngineV)
    requires
        o.wf(),
        f.snaps == o.snaps,
        f.txns == o.txns,
        f.log.len() >= o.log.len(),
    ensures
        f.wf(),
{
    assert forall|i: int|
        0 <= i < f.txns.len() implies (#[trigger] f.txns[i]).wf(f.log.len() as int) by {
        assert(o.txns[i].wf(o.log.len() as int));
    }
    assert forall|i: int|
        0 <= i < f.snaps.len() implies 0 <= (#[trigger] f.snaps[i]).seq <= f.log.len() by {
        assert(0 <= o.snaps[i].seq <= o.log.len());
    }
}

/// Well-formedness survives a step that rewrites one transaction record
/// (and possibly appends to the log): the other records and the snapshots
/// carry over, so only the rewritten record is left to check.
pub proof fn lemma_wf_after_txn_update(o: EngineV, f: EngineV, idx: int)
    requires
        o.wf(),
        0 <= idx < o.txns.len(),
        f.snaps == o.snaps,
        f.log.len() >= o.log.len(),
        f.txns.len() == o.txns.len(),
        forall|i: int| 0 <= i < f.txns.len() && i != idx ==> f.txns[i] == o.txns[i],
        f.txns[idx].wf(f.log.len() as int),
    ensures
        f.wf(),
{
    assert forall|i: int|
        0 <= i < f.txns.len() implies (#[trigger] f.txns[i]).wf(f.log.len() as int) by {
        if i != idx {
            assert(o.txns[i].wf(o.log.len() as int));
        }
    }
    assert forall|i: int|
        0 <= i < f.snaps.len() implies 0 <= (#[trigger] f.snaps[i]).seq <= f.log.len() by {
        assert(0 <= o.snaps[i].seq <= o.log.len());
    }
}

/// Well-formedness is a function of the state: it carries over to any
/// equal state.
pub proof fn lemma_wf_congruence(o: EngineV, f: EngineV)
    requires
        o.wf(),
        f.log == o.log,
        f.snaps == o.snaps,
        f.txns == o.txns,
    ensures
        f.wf(),
{
    assert forall|i: int|
        0 <= i < f.txns.len() implies (#[trigger] f.txns[i]).wf(f.log.len() as int) by {
        assert(o.txns[i].wf(o.log.len() as int));
    }
    assert forall|i: int|
        0 <= i < f.snaps.len() implies 0 <= (#[trigger] f.snaps[i]).seq <= f.log.len() by {
        assert(0 <= o.snaps[i].seq <= o.log.len());
    }
}

/// Whether any mutation of the batch `b` touches a key some running
/// transaction holds.
pub open spec fn batch_conflict(e: EngineV, b: Seq<EntryV>) -> bool {
    exists|i: int| 0 <= i < b.len() && e.any_lock((#[trigger] b[i]).col, b[i].key)
}

/// What applying a write batch did to the store: when any batched key is
/// held by a running transaction, the call fails `Busy` and nothing is
/// applied; otherwise the whole batch joins the committed log at once.
/// Snapshots and transactions are untouched either way.
pub open spec fn batch_write_outcome(
    o: EngineV,
    f: EngineV,
    b: Seq<EntryV>,
    r: Result<(), RocksDBStatusError>,
) -> bool {
    &&& f.cols == o.cols
    &&& f.snaps == o.snaps
    &&& f.txns == o.txns
    &&& if batch_conflict(o, b) {
        &&& r matches Err(e) && e.code == StatusCode::Busy
        &&& f.log == o.log
    } else {
        &&& r is Ok
        &&& f.log == o.log + b
    }
}

/// Whether a buffer holds a mutation of `key` in column family `col`.
pub(crate) fn buffer_holds_exec(buf: &Vec<Entry>, col: usize, key: &[u8]) -> (r: bool)
    ensures
        r == holds_key(buf.deep_view(), col as int, key@),
{
    let mut i: usize = 0;
    while i < buf.len()
        invariant
            i <= buf.len(),
            forall|j: int|
                0 <= j < i ==> !((#[trigger] buf.deep_view()[j]).col == col
                    && buf.deep_view()[j].key == key@),
        decreases buf.len() - i,
    {
        let e = &buf[i];
        if e.col == col {
            match bytes::key_compare(e.key.as_slice(), key) {
                KeyOrder::Equal => {
                    assert(buf.deep_view()[i as int].col == col
                        && buf.deep_view()[i as int].key == key@);
                    return true;
                },
                _ => {},
            }
        }
        i = i + 1;
    }
    false
}

/// Whether any running transaction holds a write lock on `key` of column
/// family `col`.
pub(crate) fn engine_any_lock(eng: &Engine, col: usize, key: &[u8]) -> (r: bool)
    ensures
        r == eng@.any_lock(col as int, key@),
{
    let mut i: usize = 0;
    while i < eng.txns.len()
        invariant
            i <= eng.txns.len(),
            forall|j: int| 0 <= j < i ==> !(#[trigger] eng@.txns[j]).locks(col as int, key@),
        decreases eng.txns.len() - i,
    {
        let t = &eng.txns[i];
        let started = match t.state {
            TxnState::Started => true,
            _ => false,
        };
        if started && buffer_holds_exec(&t.buffer, col, key) {
            assert(eng@.txns[i as int].locks(col as int, key@));
            return true;
        }
        i = i + 1;
    }
    false
}

/// Whether a running transaction other than the one in slot `idx` holds a
/// write lock on `key` of column family `col`.
pub(crate) fn engine_locked_by_other(eng: &Engine, idx: usize, col: usize, key: &[u8]) -> (r: bool)
    ensures
        r == eng@.locked_by_other(idx as int, col as int, key@),
{
    let mut i: usize = 0;
    while i < eng.txns.len()
        invariant
            i <= eng.txns.len(),
            forall|j: int|
                0 <= j < i && j != idx ==> !(#[trigger] eng@.txns[j]).locks(col as int, key@),
        decreases eng.txns.len() - i,
    {
        if i != idx {
            let t = &eng.txns[i];
            let started = match t.state {
                TxnState::Started => true,
                _ => false,
            };
            if started && buffer_holds_exec(&t.buffer, col, key) {
                assert(eng@.txns[i as int].locks(col as int, key@));
                return true;
            }
        }
        i = i + 1;
    }
    false
}

/// The value of `key` in column family `col` after the first `upto` log
/// entries, scanning from the most recent entry backwards.
pub(crate) fn lookup_at(log: &Vec<Entry>, upto: usize, col: usize, key: &[u8]) -> (r: Option<
    Vec<u8>,
>)
    requires
        upto <= log.len(),
    ensures
        ({
            let s = state_at(log.deep_view(), upto as int, col as int, key@);
            &&& (r is Some) == (s is Some)
            &&& (r matches Some(v) ==> s == Some(v@))
        }),
{
    let mut i: usize = upto;
    while i > 0
        invariant
            i <= upto <= log.len(),
            state_at(log.deep_view(), upto as int, col as int, key@) == state_at(
                log.deep_view(),
                i as int,
                col as int,
                key@,
            ),
        decreases i,
    {
        i = i - 1;
        let e = &log[i];
        if e.col == col {
            match bytes::key_compare(e.key.as_slice(), key) {
                KeyOrder::Equal => {
                    return match &e.val {
                        Some(v) => Some(bytes::copy_bytes(v.as_slice())),
                        None => None,
                    };
                },
                _ => {},
            }
        }
    }
    None
}

/// The value of `key` in column family `col` as a transaction sees it: its
/// own buffered mutations first, newest first, then the committed log up to
/// `upto`.
pub(crate) fn overlay_lookup(
    log: &Vec<Entry>,
    upto: usize,
    buf: &Vec<Entry>,
    col: usize,
    key: &[u8],
) -> (r: Option<Vec<u8>>)
    requires
        upto <= log.len(),
    ensures
        ({
            let s = overlay_at(log.deep_view(), upto as int, buf.deep_view(), col as int, key@);
            &&& (r is Some) == (s is Some)
            &&& (r matches Some(v) ==> s == Some(v@))
        }),
{
    let ghost comb = log.deep_view().subrange(0, upto as int) + buf.deep_view();
    let mut j: usize = buf.len();
    while j > 0
        invariant
            j <= buf.len(),
            upto <= log.len(),
            comb == log.deep_view().subrange(0, upto as int) + buf.deep_view(),
            state_at(comb, comb.len() as int, col as int, key@) == state_at(
                comb,
                upto + j,
                col as int,
                key@,
            ),
        decreases j,
    {
        j = j - 1;
        let e = &buf[j];
        proof {
            assert(comb[upto + j] == buf.deep_view()[j as int]);
        }
        if e.col == col {
            match bytes::key_compare(e.key.as_slice(), key) {
                KeyOrder::Equal => {
                    return match &e.val {
                        Some(v) => Some(bytes::copy_bytes(v.as_slice())),
                        None => None,
                    };
                },
                _ => {},
            }
        }
    }
    proof {
        crate::model::lemma_state_at_prefix(
            log.deep_view().subrange(0, upto as int),
            buf.deep_view(),
            upto as int,
            col as int,
            key@,
        );
        crate::model::lemma_state_at_subrange(
            log.deep_view(),
            upto as int,
            upto as int,
            col as int,
            key@,
        );
    }
    lookup_at(log, upto, col, key)
}

/// Whether any of `log[since..]` writes `key` of column family `col`.
pub(crate) fn committed_since_exec(log: &Vec<Entry>, since: usize, col: usize, key: &[u8]) -> (r:
    bool)
    requires
        since <= log.len(),
    ensures
        r == committed_since(log.deep_view(), since as int, col as int, key@),
{
    let mut i: usize = since;
    while i < log.len()
        invariant
            since <= i <= log.len(),
            forall|j: int|
                since <= j < i ==> !((#[trigger] log.deep_view()[j]).col == col
                    && log.deep_view()[j].key == key@),
        decreases log.len() - i,
    {
        let e = &log[i];
        if e.col == col {
            match bytes::key_compare(e.key.as_slice(), key) {
                KeyOrder::Equal => {
                    assert(log.deep_view()[i as int].col == col
                        && log.deep_view()[i as int].key == key@);
                    return true;
                },
                _ => {},
            }
        }
        i = i + 1;
    }
    false
}

/// One engine option taken from an external options text: a name and the
/// value it is set to.
#[derive(Debug)]
pub struct OptionKv {
    pub name: Vec<u8>,
    pub value: Vec<u8>,
}

/// The mathematical value of an [`OptionKv`].
pub struct OptionKvV {
    pub name: Seq<u8>,
    pub value: Seq<u8>,
}

impl DeepView for OptionKv {
    type V = OptionKvV;

    open spec fn deep_view(&self) -> OptionKvV {
        OptionKvV { name: self.name@, value: self.value@ }
    }
}

/// The position of the first occurrence of `b` in `s`, or a negative
/// answer when `b` does not occur.
pub open spec fn find_byte(s: Seq<u8>, b: u8) -> int
    decreases s.len(),
{
    if s.len() == 0 {
        -1
    } else if s[0] == b {
        0
    } else {
        let r = find_byte(s.drop_first(), b);
        if r < 0 {
            -1
        } else {
            r + 1
        }
    }
}

/// What `find_byte` answers: the first occurrence when there is one, a
/// negative answer when there is none.
pub proof fn lemma_find_byte(s: Seq<u8>, b: u8)
    ensures
        find_byte(s, b) < 0 ==> forall|j: int| 0 <= j < s.len() ==> s[j] != b,
        find_byte(s, b) >= 0 ==> {
            let r = find_byte(s, b);
            &&& r < s.len()
            &&& s[r] == b
            &&& forall|j: int| 0 <= j < r ==> s[j] != b
        },
    decreases s.len(),
{
    if s.len() > 0 && s[0] != b {
        lemma_find_byte(s.drop_first(), b);
        let d = s.drop_first();
        let r = find_byte(d, b);
        if r < 0 {
            assert forall|j: int| 0 <= j < s.len() implies s[j] != b by {
                if j >= 1 {
                    assert(d[j - 1] != b);
                }
            }
        } else {
            assert(s[r + 1] == d[r]);
            assert forall|j: int| 0 <= j < r + 1 implies s[j] != b by {
                if j >= 1 {
                    assert(d[j - 1] != b);
                }
            }
        }
    }
}

/// What one line of an options text means: nothing when it is empty or a
/// comment, the option it sets when it has the shape `name=value` with a
/// nonempty name, and a rejection otherwise.
pub open spec fn parse_option_line(line: Seq<u8>) -> Result<Option<OptionKvV>, ()> {
    if line.len() == 0 || line[0] == 35 {
        Ok(None)
    } else {
        let i = find_byte(line, 61);
        if i <= 0 {
            Err(())
        } else {
            Ok(
                Some(
                    OptionKvV {
                        name: line.subrange(0, i),
                        value: line.subrange(i + 1, line.len() as int),
                    },
                ),
            )
        }
    }
}

/// What a whole options text means: its lines' options in order, or a
/// rejection when any line is malformed.
pub open spec fn parse_options(text: Seq<u8>) -> Result<Seq<OptionKvV>, ()>
    decreases text.len(),
{
    if text.len() == 0 {
        Ok(Seq::empty())
    } else {
        let i = find_byte(text, 10);
        if i < 0 || i >= text.len() {
            match parse_option_line(text) {
                Ok(None) => Ok(Seq::empty()),
                Ok(Some(kv)) => Ok(seq![kv]),
                Err(e) => Err(e),
            }
        } else {
            match parse_option_line(text.subrange(0, i)) {
                Err(e) => Err(e),
                Ok(head) => match parse_options(text.subrange(i + 1, text.len() as int)) {
                    Err(e) => Err(e),
                    Ok(rest) => match head {
                        None => Ok(rest),
                        Some(kv) => Ok(seq![kv] + rest),
                    },
                },
            }
        }
    }
}

/// Configuration assembled before opening a database: the store's location,
/// how many column families it is partitioned into, whether missing pieces
/// are created on open, and the engine options merged in from an external
/// options text.
#[derive(Debug)]
pub struct DbBuilder {
    pub path: String,
    pub columns: usize,
    pub create_if_missing: bool,
    pub create_missing_column_families: bool,
    pub options: Vec<OptionKv>,
}

impl DbBuilder {
    /// Starts a configuration for a store at `path` with `columns` column
    /// families declared (the engine adds its default family after them).
    pub fn new(path: &str, columns: usize) -> (b: DbBuilder)
        ensures
            b.path@ == path@,
            b.columns == columns,
            !b.create_if_missing,
            !b.create_missing_column_families,
            b.options.deep_view() == Seq::<OptionKvV>::empty(),
    {
        let b = DbBuilder {
            path: path.to_owned(),
            columns,
            create_if_missing: false,
            create_missing_column_families: false,
            options: Vec::new(),
        };
        proof {
            assert(b.options.deep_view() =~= Seq::<OptionKvV>::empty());
        }
        b
    }

    /// Merges an external options text (lines of `name=value`, with empty
    /// lines and `#` comments ignored) into this configuration.  A
    /// malformed line has the whole text rejected as an invalid argument,
    /// and the configuration is left untouched.
    pub fn load_options_from_text(&mut self, text: &[u8]) -> (r: Result<(), RocksDBStatusError>)
        ensures
            final(self).path == old(self).path,
            final(self).columns == old(self).columns,
            final(self).create_if_missing == old(self).create_if_missing,
            final(self).create_missing_column_families == old(self).create_missing_column_families,
            match parse_options(text@) {
                Ok(kvs) => {
                    &&& r is Ok
                    &&& final(self).options.deep_view() == old(self).options.deep_view() + kvs
                },
                Err(_) => {
                    &&& r matches Err(e) && e.code == StatusCode::InvalidArgument
                    &&& final(self).options.deep_view() == old(self).options.deep_view()
                },
            },
    {
        let n = text.len();
        let mut parsed: Vec<OptionKv> = Vec::new();
        let mut pos: usize = 0;
        proof {
            assert(parsed.deep_view() =~= Seq::<OptionKvV>::empty());
            assert(text@.subrange(0, n as int) =~= text@);
            if parse_options(text@) is Ok {
                assert(parse_options(text@)->Ok_0 =~= parsed.deep_view() + parse_options(text@)->Ok_0);
            }
        }
        while pos < n
            invariant
                pos <= n,
                n == text@.len(),
                ({
                    let suffix = text@.subrange(pos as int, n as int);
                    match parse_options(suffix) {
                        Ok(rest) => parse_options(text@) == Ok::<Seq<OptionKvV>, ()>(
                            parsed.deep_view() + rest,
                        ),
                        Err(_) => parse_options(text@) is Err,
                    }
                }),
            decreases n - pos,
        {
            let ghost suffix = text@.subrange(pos as int, n as int);
            let ghost prev_parsed_v = parsed.deep_view();
            // The line runs to the next newline, or to the end of the text.
            let mut j: usize = pos;
            while j < n && text[j] != 10
                invariant
                    pos <= j <= n,
                    n == text@.len(),
                    forall|k: int| pos <= k < j ==> text@[k] != 10,
                decreases n - j,
            {
                j = j + 1;
            }
            proof {
                lemma_find_byte(suffix, 10);
                if j < n {
                    assert(suffix[j - pos] == 10);
                    assert(find_byte(suffix, 10) == j - pos);
                } else {
                    assert(find_byte(suffix, 10) < 0);
                }
            }
            let ghost line = text@.subrange(pos as int, j as int);
            proof {
                if j < n {
                    assert(suffix.subrange(0, j - pos) =~= line);
                } else {
                    assert(suffix =~= line);
                }
            }
            if j == pos || text[pos] == 35 {
                // An empty line or a comment sets nothing.
                proof {
                    assert(parse_option_line(line) == Ok::<Option<OptionKvV>, ()>(None));
                }
            } else {
                // The line must have the shape `name=value`.
                let mut e: usize = pos;
                while e < j && text[e] != 61
                    invariant
                        pos <= e <= j <= n,
                        n == text@.len(),
                        forall|k: int| pos <= k < e ==> text@[k] != 61,
                    decreases j - e,
                {
                    e = e + 1;
                }
                proof {
                    lemma_find_byte(line, 61);
                    if e < j {
                        assert(line[e - pos] == 61);
                        assert(find_byte(line, 61) == e - pos);
                    } else {
                        assert(find_byte(line, 61) < 0);
                    }
                }
                if e == j || e == pos {
                    // No `=`, or an empty name: the text is rejected whole.
                    proof {
                        assert(parse_option_line(line) is Err);
                    }
                    let status = Status::with_code(
                        StatusCode::InvalidArgument,
                        "options text line is not name=value",
                    );
                    return match into_result(&status) {
                        Ok(_) => Ok(()),
                        Err(err) => Err(err),
                    };
                }
                let name = bytes::copy_bytes(vstd::slice::slice_subrange(text, pos, e));
                let value = bytes::copy_bytes(vstd::slice::slice_subrange(text, e + 1, j));
                let ghost prev = parsed.deep_view();
                let ghost kv = OptionKvV {
                    name: line.subrange(0, e - pos),
                    value: line.subrange(e - pos + 1, line.len() as int),
                };
                proof {
                    assert(name@ =~= kv.name);
                    assert(value@ =~= kv.value);
                    assert(parse_option_line(line) == Ok::<Option<OptionKvV>, ()>(Some(kv)));
                }
                parsed.push(OptionKv { name, value });
                proof {
                    assert(parsed.deep_view() =~= prev.push(kv));
                }
            }
            proof {
                let ghost prev_parsed = prev_parsed_v;
                if j < n {
                    let rest_suffix = text@.subrange(j + 1, n as int);
                    assert(suffix.subrange(j - pos + 1, suffix.len() as int) =~= rest_suffix);
                    match parse_options(rest_suffix) {
                        Ok(rest) => {
                            match parse_option_line(line) {
                                Ok(Some(kv2)) => {
                                    assert(parse_options(suffix) == Ok::<Seq<OptionKvV>, ()>(
                                        seq![kv2] + rest,
                                    ));
                                    assert(prev_parsed + (seq![kv2] + rest) =~= parsed.deep_view()
                                        + rest);
                                },
                                Ok(None) => {
                                    assert(parse_options(suffix) == Ok::<Seq<OptionKvV>, ()>(
                                        rest,
                                    ));
                                },
                                Err(_) => {},
                            }
                        },
                        Err(_) => {},
                    }
                } else {
                    let rest_suffix = text@.subrange(j as int, n as int);
                    assert(rest_suffix.len() == 0);
                    assert(parse_options(rest_suffix) == Ok::<Seq<OptionKvV>, ()>(Seq::empty()));
                    match parse_option_line(line) {
                        Ok(Some(kv2)) => {
                            assert(parse_options(suffix) == Ok::<Seq<OptionKvV>, ()>(seq![kv2]));
                            assert(prev_parsed + seq![kv2] =~= parsed.deep_view()
                                + Seq::<OptionKvV>::empty());
                        },
                        Ok(None) => {
                            assert(parse_options(suffix) == Ok::<Seq<OptionKvV>, ()>(
                                Seq::empty(),
                            ));
                            assert(prev_parsed + Seq::<OptionKvV>::empty() =~= parsed.deep_view()
                                + Seq::<OptionKvV>::empty());
                        },
                        Err(_) => {},
                    }
                }
            }
            pos = if j < n {
                j + 1
            } else {
                j
            };
        }
        proof {
            let suffix = text@.subrange(pos as int, n as int);
            assert(suffix.len() == 0);
            assert(parse_options(suffix) == Ok::<Seq<OptionKvV>, ()>(Seq::empty()));
            assert(parsed.deep_view() + Seq::<OptionKvV>::empty() =~= parsed.deep_view());
        }
        let ghost before = self.options.deep_view();
        let ghost add = parsed.deep_view();
        self.options.append(&mut parsed);
        proof {
            assert(self.options.deep_view() =~= before + add);
        }
        Ok(())
    }

    /// Asks the open to create the store when none exists at the path.
    pub fn create_if_missing(self, val: bool) -> (b: DbBuilder)
        ensures
            b == (DbBuilder { create_if_missing: val, ..self }),
    {
        DbBuilder { create_if_missing: val, ..self }
    }

    /// Asks the open to create declared column families that the store does
    /// not hold yet.
    pub fn create_missing_column_families(self, val: bool) -> (b: DbBuilder)
        ensures
            b == (DbBuilder { create_missing_column_families: val, ..self }),
    {
        DbBuilder { create_missing_column_families: val, ..self }
    }

    /// Opens the store described by this configuration.  A fresh store must
    /// be created, so the open succeeds exactly when `create_if_missing`
    /// was granted; it then holds the declared column families followed by
    /// the engine's default family, all empty, with no snapshots and no
    /// transactions.
    pub fn build(self) -> (r: Result<TransactionDb, RocksDBStatusError>)
        requires
            self.columns < usize::MAX,
        ensures
            r is Ok <==> self.create_if_missing,
            r matches Ok(db) ==> ({
                &&& db@.wf()
                &&& db@.cols == self.columns + 1
                &&& db@.log == Seq::<EntryV>::empty()
                &&& db@.snaps == Seq::<SnapV>::empty()
                &&& db@.txns == Seq::<TxnV>::empty()
            }),
            r matches Err(e) ==> e.code == StatusCode::InvalidArgument,
    {
        TransactionDb::open(self)
    }
}

/// A handle to an open store.  It owns the engine state; snapshots,
/// transactions, write batches and cursors are checked out of it and act
/// through it.
#[derive(Debug)]
pub struct TransactionDb {
    pub inner: Engine,
}

impl View for TransactionDb {
    type V = EngineV;

    open spec fn view(&self) -> EngineV {
        self.inner@
    }
}

impl TransactionDb {
    /// Opens the store that `options` describes.  A fresh store must be
    /// created, so the open succeeds exactly when `create_if_missing` was
    /// granted; it then holds the declared column families followed by the
    /// engine's default family, all empty, with no snapshots and no
    /// transactions.
    pub fn open(options: DbBuilder) -> (r: Result<TransactionDb, RocksDBStatusError>)
        requires
            options.columns < usize::MAX,
        ensures
            r is Ok <==> options.create_if_missing,
            r matches Ok(db) ==> ({
                &&& db@.wf()
                &&& db@.cols == options.columns + 1
                &&& db@.log == Seq::<EntryV>::empty()
                &&& db@.snaps == Seq::<SnapV>::empty()
                &&& db@.txns == Seq::<TxnV>::empty()
            }),
            r matches Err(e) ==> e.code == StatusCode::InvalidArgument,
    {
        if !options.create_if_missing {
            let status = Status::with_code(
                StatusCode::InvalidArgument,
                "store does not exist and create_if_missing is off",
            );
            match into_result(&status) {
                Err(e) => Err(e),
                Ok(_) => Err(RocksDBStatusError {
                    msg: String::new(),
                    code: StatusCode::InvalidArgument,
                }),
            }
        } else {
            let db = TransactionDb {
                inner: Engine {
                    cols: options.columns + 1,
                    log: Vec::new(),
                    snaps: Vec::new(),
                    txns: Vec::new(),
                },
            };
            proof {
                assert(db@.log =~= Seq::<EntryV>::empty());
                assert(db@.snaps =~= Seq::<SnapV>::empty());
                assert(db@.txns =~= Seq::<TxnV>::empty());
            }
            Ok(db)
        }
    }

    /// Writes `value` under `key` in column family `col`, auto-committed.
    /// Fails `Busy` when a running transaction holds the key.
    pub fn put(&mut self, col: usize, key: &[u8], value: &[u8]) -> (r: Result<
        (),
        RocksDBStatusError,
    >)
        requires
            old(self)@.wf(),
            col < old(self)@.cols,
        ensures
            final(self)@.wf(),
            direct_write_outcome(old(self)@, final(self)@, col as int, key@, Some(value@), r),
    {
        let options = WriteOptions::new();
        self.put_with_options(&options, col, key, value)
    }

    /// As [`Self::put`], with explicit write options.
    pub fn put_with_options(
        &mut self,
        options: &WriteOptions,
        col: usize,
        key: &[u8],
        value: &[u8],
    ) -> (r: Result<(), RocksDBStatusError>)
        requires
            old(self)@.wf(),
            col < old(self)@.cols,
        ensures
            final(self)@.wf(),
            direct_write_outcome(old(self)@, final(self)@, col as int, key@, Some(value@), r),
    {
        let status = if engine_any_lock(&self.inner, col, key) {
            Status::with_code(StatusCode::Busy, "key is locked by a running transaction")
        } else {
            let e = Entry::new_put(col, key, value);
            self.inner.log.push(e);
            proof {
                assert(self.inner.log.deep_view() =~= old(self).inner.log.deep_view().push(
                    EntryV { col: col as int, key: key@, val: Some(value@) },
                ));
                lemma_wf_after_log_growth(old(self)@, self@);
            }
            Status::new_ok()
        };
        into_result(&status)
    }

    /// Deletes `key` from column family `col`, auto-committed.  Fails
    /// `Busy` when a running transaction holds the key.
    pub fn delete(&mut self, col: usize, key: &[u8]) -> (r: Result<(), RocksDBStatusError>)
        requires
            old(self)@.wf(),
            col < old(self)@.cols,
        ensures
            final(self)@.wf(),
            direct_write_outcome(old(self)@, final(self)@, col as int, key@, None, r),
    {
        let options = WriteOptions::new();
        self.delete_with_options(&options, col, key)
    }

    /// As [`Self::delete`], with explicit write options.
    pub fn delete_with_options(&mut self, options: &WriteOptions, col: usize, key: &[u8]) -> (r:
        Result<(), RocksDBStatusError>)
        requires
            old(self)@.wf(),
            col < old(self)@.cols,
        ensures
            final(self)@.wf(),
            direct_write_outcome(old(self)@, final(self)@, col as int, key@, None, r),
    {
        let status = if engine_any_lock(&self.inner, col, key) {
            Status::with_code(StatusCode::Busy, "key is locked by a running transaction")
        } else {
            let e = Entry::new_delete(col, key);
            self.inner.log.push(e);
            proof {
                assert(self.inner.log.deep_view() =~= old(self).inner.log.deep_view().push(
                    EntryV { col: col as int, key: key@, val: None },
                ));
                lemma_wf_after_log_growth(old(self)@, self@);
            }
            Status::new_ok()
        };
        into_result(&status)
    }

    /// Reads the live value of `key` in column family `col`.  Absence is
    /// not an error: a key never written, or deleted last, reads `None`.
    pub fn get(&self, col: usize, key: &[u8]) -> (r: Result<Option<Vec<u8>>, RocksDBStatusError>)
        requires
            self@.wf(),
            col < self@.cols,
        ensures
            r is Ok,
            r matches Ok(v) ==> ({
                let s = state_at(self@.log, self@.log.len() as int, col as int, key@);
                &&& (v is Some) == (s is Some)
                &&& (v matches Some(vv) ==> s == Some(vv@))
            }),
    {
        let options = ReadOptions::new();
        self.get_with_options(&options, col, key)
    }

    /// As [`Self::get`], with explicit read options; a snapshot attached to
    /// the options selects the log prefix the read observes.
    pub fn get_with_options(&self, options: &ReadOptions, col: usize, key: &[u8]) -> (r: Result<
        Option<Vec<u8>>,
        RocksDBStatusError,
    >)
        requires
            self@.wf(),
            col < self@.cols,
            options.snapshot_seq matches Some(s) ==> s <= self@.log.len(),
        ensures
            r is Ok,
            r matches Ok(v) ==> ({
                let s = state_at(self@.log, options.upto(self@.log.len() as int), col as int, key@);
                &&& (v is Some) == (s is Some)
                &&& (v matches Some(vv) ==> s == Some(vv@))
            }),
    {
        let upto = match options.snapshot_seq {
            Some(s) => s,
            None => self.inner.log.len(),
        };
        Ok(lookup_at(&self.inner.log, upto, col, key))
    }

    /// Acquires a point-in-time read view of the store as it is now.  The
    /// snapshot must later be handed back through
    /// [`Self::release_snapshot`], exactly once.
    pub fn snapshot(&mut self) -> (snap: Snapshot)
        requires
            old(self)@.wf(),
        ensures
            final(self)@.wf(),
            final(self)@.cols == old(self)@.cols,
            final(self)@.log == old(self)@.log,
            final(self)@.txns == old(self)@.txns,
            final(self)@.snaps == old(self)@.snaps.push(
                SnapV { seq: old(self)@.log.len() as int, live: true },
            ),
            snap.tok == old(self)@.snaps.len(),
            snap.valid_for(final(self)@),
            snap.seq_of(final(self)@) == old(self)@.log.len(),
    {
        let tok = self.inner.snaps.len();
        let seq = self.inner.log.len();
        self.inner.snaps.push(SnapRecord { seq, live: true });
        proof {
            assert(self.inner.snaps.deep_view() =~= old(self).inner.snaps.deep_view().push(
                SnapV { seq: seq as int, live: true },
            ));
            assert forall|i: int|
                0 <= i < self@.snaps.len() implies 0 <= (#[trigger] self@.snaps[i]).seq
                <= self@.log.len() by {
                if i < old(self)@.snaps.len() {
                    assert(0 <= old(self)@.snaps[i].seq <= old(self)@.log.len());
                }
            }
            assert forall|i: int|
                0 <= i < self@.txns.len() implies (#[trigger] self@.txns[i]).wf(
                self@.log.len() as int,
            ) by {
                assert(old(self)@.txns[i].wf(old(self)@.log.len() as int));
            }
        }
        Snapshot { tok }
    }

    /// Releases a snapshot back to the engine.  Taking the snapshot by
    /// value makes a second release impossible: the token is marked dead
    /// and the handle is gone.
    pub fn release_snapshot(&mut self, snap: Snapshot)
        requires
            old(self)@.wf(),
            snap.valid_for(old(self)@),
        ensures
            final(self)@.wf(),
            final(self)@.cols == old(self)@.cols,
            final(self)@.log == old(self)@.log,
            final(self)@.txns == old(self)@.txns,
            final(self)@.snaps == old(self)@.snaps.update(
                snap.tok as int,
                SnapV { seq: old(self)@.snaps[snap.tok as int].seq, live: false },
            ),
    {
        let seq = self.inner.snaps[snap.tok].seq;
        self.inner.snaps[snap.tok] = SnapRecord { seq, live: false };
        proof {
            assert(self.inner.snaps.deep_view() =~= old(self).inner.snaps.deep_view().update(
                snap.tok as int,
                SnapV { seq: seq as int, live: false },
            ));
            assert forall|i: int|
                0 <= i < self@.snaps.len() implies 0 <= (#[trigger] self@.snaps[i]).seq
                <= self@.log.len() by {
                assert(0 <= old(self)@.snaps[i].seq <= old(self)@.log.len());
            }
            assert forall|i: int|
                0 <= i < self@.txns.len() implies (#[trigger] self@.txns[i]).wf(
                self@.log.len() as int,
            ) by {
                assert(old(self)@.txns[i].wf(old(self)@.log.len() as int));
            }
        }
    }

    /// Begins a transaction with a pinned read view: writes it attempts to
    /// keys committed to after this instant will fail `Busy`.
    pub fn begin_transaction(&mut self) -> (tx: Transaction)
        requires
            old(self)@.wf(),
        ensures
            final(self)@.wf(),
            final(self)@.cols == old(self)@.cols,
            final(self)@.log == old(self)@.log,
            final(self)@.snaps == old(self)@.snaps,
            final(self)@.txns == old(self)@.txns.push(
                TxnV {
                    state: TxnState::Started,
                    buffer: Seq::empty(),
                    saves: Seq::empty(),
                    snap_seq: Some(old(self)@.log.len() as int),
                },
            ),
            tx.idx == old(self)@.txns.len(),
    {
        let write_options = WriteOptions::new();
        let mut transaction_options = TransactionOptions::new();
        transaction_options.set_snapshot = true;
        self.begin_transaction_with_options(&write_options, &transaction_options)
    }

    /// Begins a transaction.  With `set_snapshot` the transaction pins its
    /// read view at this instant; otherwise its writes contend only with
    /// locks held by other running transactions.
    pub fn begin_transaction_with_options(
        &mut self,
        write_options: &WriteOptions,
        transaction_options: &TransactionOptions,
    ) -> (tx: Transaction)
        requires
            old(self)@.wf(),
        ensures
            final(self)@.wf(),
            final(self)@.cols == old(self)@.cols,
            final(self)@.log == old(self)@.log,
            final(self)@.snaps == old(self)@.snaps,
            final(self)@.txns == old(self)@.txns.push(
                TxnV {
                    state: TxnState::Started,
                    buffer: Seq::empty(),
                    saves: Seq::empty(),
                    snap_seq: if transaction_options.set_snapshot {
                        Some(old(self)@.log.len() as int)
                    } else {
                        None
                    },
                },
            ),
            tx.idx == old(self)@.txns.len(),
    {
        let idx = self.inner.txns.len();
        let snap_seq = if transaction_options.set_snapshot {
            Some(self.inner.log.len())
        } else {
            None
        };
        let rec = TxnRecord {
            state: TxnState::Started,
            buffer: Vec::new(),
            saves: Vec::new(),
            snap_seq,
        };
        proof {
            assert(rec.deep_view().buffer =~= Seq::<EntryV>::empty());
            assert(rec.deep_view().saves =~= Seq::<int>::empty());
        }
        self.inner.txns.push(rec);
        proof {
            assert(self.inner.txns.deep_view() =~= old(self).inner.txns.deep_view().push(
                TxnV {
                    state: TxnState::Started,
                    buffer: Seq::empty(),
                    saves: Seq::empty(),
                    snap_seq: if transaction_options.set_snapshot {
                        Some(old(self)@.log.len() as int)
                    } else {
                        None
                    },
                },
            ));
            assert forall|i: int|
                0 <= i < self@.txns.len() implies (#[trigger] self@.txns[i]).wf(
                self@.log.len() as int,
            ) by {
                if i < old(self)@.txns.len() {
                    assert(old(self)@.txns[i].wf(old(self)@.log.len() as int));
                }
            }
            assert forall|i: int|
                0 <= i < self@.snaps.len() implies 0 <= (#[trigger] self@.snaps[i]).seq
                <= self@.log.len() by {
                assert(0 <= old(self)@.snaps[i].seq <= old(self)@.log.len());
            }
        }
        Transaction { idx }
    }

    /// A cursor over the live contents of column family `col`, in
    /// ascending key order, positioned at the first pair.
    pub fn iter(&self, col: usize) -> (it: DbIterator)
        requires
            self@.wf(),
            col < self@.cols,
        ensures
            it.wf(),
            it.direction == Direction::Forward,
            it.just_seeked,
            it.pos == crate::iter::start_pos(it.entries_v().len() as int, Direction::Forward),
            crate::iter::represents(it.entries_v(), self@.log, self@.log.len() as int, col as int),
    {
        let options = ReadOptions::new();
        self.iter_with_options(&options, col)
    }

    /// As [`Self::iter`], with explicit read options; a snapshot attached
    /// to the options freezes the cursor at that instant.
    pub fn iter_with_options(&self, options: &ReadOptions, col: usize) -> (it: DbIterator)
        requires
            self@.wf(),
            col < self@.cols,
            options.snapshot_seq matches Some(s) ==> s <= self@.log.len(),
        ensures
            it.wf(),
            it.direction == Direction::Forward,
            it.just_seeked,
            it.pos == crate::iter::start_pos(it.entries_v().len() as int, Direction::Forward),
            crate::iter::represents(
                it.entries_v(),
                self@.log,
                options.upto(self@.log.len() as int),
                col as int,
            ),
    {
        self.iterator(col, options, Direction::Forward)
    }

    /// A cursor over column family `col` walking in the given direction,
    /// frozen at the instant the read options name (or live without one),
    /// positioned at its first pair in that direction.
    pub fn iterator(&self, col: usize, options: &ReadOptions, direction: Direction) -> (it:
        DbIterator)
        requires
            self@.wf(),
            col < self@.cols,
            options.snapshot_seq matches Some(s) ==> s <= self@.log.len(),
        ensures
            it.wf(),
            it.direction == direction,
            it.just_seeked,
            it.pos == crate::iter::start_pos(it.entries_v().len() as int, direction),
            crate::iter::represents(
                it.entries_v(),
                self@.log,
                options.upto(self@.log.len() as int),
                col as int,
            ),
    {
        let upto = match options.snapshot_seq {
            Some(s) => s,
            None => self.inner.log.len(),
        };
        let empty: Vec<Entry> = Vec::new();
        let ops = crate::iter::collect_ops(&self.inner.log, upto, &empty);
        proof {
            assert(ops.deep_view() =~= self@.log.subrange(0, upto as int));
        }
        let pairs = crate::iter::build_pairs(&ops, col);
        proof {
            crate::iter::lemma_represents_prefix(
                pairs.deep_view(),
                self@.log,
                upto as int,
                col as int,
            );
        }
        DbIterator::from_pairs(pairs, direction)
    }

    /// A fresh, empty write batch bound to this handle's column families.
    pub fn new_write_batch(&self) -> (wb: WriteBatch)
        ensures
            wb.cols == self@.cols,
            wb.entries_v() == Seq::<EntryV>::empty(),
    {
        let wb = WriteBatch { cols: self.inner.cols, entries: Vec::new() };
        proof {
            assert(wb.entries_v() =~= Seq::<EntryV>::empty());
        }
        wb
    }

    /// Applies a write batch atomically: either every buffered mutation
    /// joins the committed log, in order, or — when a running transaction
    /// holds any key the batch touches — none does and the call fails
    /// `Busy`.
    pub fn write(&mut self, updates: &mut WriteBatch) -> (r: Result<(), RocksDBStatusError>)
        requires
            old(self)@.wf(),
        ensures
            final(self)@.wf(),
            *final(updates) == *old(updates),
            batch_write_outcome(old(self)@, final(self)@, old(updates).entries_v(), r),
    {
        let options = WriteOptions::new();
        self.write_with_options(&options, updates)
    }

    /// As [`Self::write`], with explicit write options.
    pub fn write_with_options(&mut self, options: &WriteOptions, updates: &mut WriteBatch) -> (r:
        Result<(), RocksDBStatusError>)
        requires
            old(self)@.wf(),
        ensures
            final(self)@.wf(),
            *final(updates) == *old(updates),
            batch_write_outcome(old(self)@, final(self)@, old(updates).entries_v(), r),
    {
        let ghost o = self@;
        let ghost b = updates.entries_v();
        let mut conflict = false;
        let mut i: usize = 0;
        while i < updates.entries.len() && !conflict
            invariant
                i <= b.len(),
                self@ == o,
                updates.entries.deep_view() == b,
                !conflict ==> forall|j: int|
                    0 <= j < i ==> !o.any_lock((#[trigger] b[j]).col, b[j].key),
                conflict ==> batch_conflict(o, b),
            decreases b.len() - i,
        {
            let e = &updates.entries[i];
            if engine_any_lock(&self.inner, e.col, e.key.as_slice()) {
                proof {
                    assert(o.any_lock(b[i as int].col, b[i as int].key));
                }
                conflict = true;
            }
            i = i + 1;
        }
        let status = if conflict {
            Status::with_code(StatusCode::Busy, "a batched key is locked by a running transaction")
        } else {
            assert(!batch_conflict(o, b));
            let n = updates.entries.len();
            let mut j: usize = 0;
            while j < n
                invariant
                    j <= n,
                    n == b.len(),
                    updates.entries.deep_view() == b,
                    self@.cols == o.cols,
                    self@.snaps == o.snaps,
                    self@.txns == o.txns,
                    self@.log == o.log + b.subrange(0, j as int),
                decreases n - j,
            {
                let ghost pre = self.inner.log.deep_view();
                let e = updates.entries[j].duplicate();
                proof {
                    assert(e.deep_view() == b[j as int]);
                }
                self.inner.log.push(e);
                proof {
                    assert(self.inner.log.deep_view() =~= pre.push(e.deep_view()));
                    assert(pre.push(e.deep_view()) =~= o.log + b.subrange(0, j + 1));
                }
                j = j + 1;
            }
            proof {
                assert(b.subrange(0, b.len() as int) =~= b);
                lemma_wf_after_log_growth(o, self@);
            }
            Status::new_ok()
        };
        into_result(&status)
    }

    /// The engine state behind this handle.
    pub fn as_inner(&self) -> (e: &Engine)
        ensures
            e == self.inner,
    {
        &self.inner
    }
}

} // verus!
