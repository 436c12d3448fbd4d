//! Ordered buffers of mutations applied in one atomic step.
//!
//! A [`WriteBatch`] collects puts and deletes in call order.  Nothing in it
//! is visible to any reader until the batch is handed to
//! [`TransactionDb::write`], which appends the whole buffer to the
//! committed log at once: a reader sees the store before the batch or
//! after all of it, never in between.

use vstd::prelude::*;

use crate::model::Entry;
use crate::model::EntryV;
use crate::status::RocksDBStatusError;

verus! {

/// An ordered buffer of mutations, bound to the column-family count of the
/// handle that created it.
#[derive(Debug)]
pub struct WriteBatch {
    pub cols: usize,
    pub entries: Vec<Entry>,
}

impl WriteBatch {
    /// The buffered mutations, in call order.
    pub open spec fn entries_v(self) -> Seq<EntryV> {
        self.entries.deep_view()
    }

    /// Buffers a put of `value` under `key` in column family `col`.
    pub fn put(&mut self, col: usize, key: &[u8], value: &[u8]) -> (r: Result<
        (),
        RocksDBStatusError,
    >)
        requires
            col < old(self).cols,
        ensures
            r is Ok,
            final(self).cols == old(self).cols,
            final(self).entries_v() == old(self).entries_v().push(
                EntryV { col: col as int, key: key@, val: Some(value@) },
            ),
    {
        let e = Entry::new_put(col, key, value);
        self.entries.push(e);
        proof {
            assert(self.entries.deep_view() =~= old(self).entries.deep_view().push(
                EntryV { col: col as int, key: key@, val: Some(value@) },
            ));
        }
        Ok(())
    }

    /// Buffers a delete of `key` in column family `col`.
    pub fn delete(&mut self, col: usize, key: &[u8]) -> (r: Result<(), RocksDBStatusError>)
        requires
            col < old(self).cols,
        ensures
            r is Ok,
            final(self).cols == old(self).cols,
            final(self).entries_v() == old(self).entries_v().push(
                EntryV { col: col as int, key: key@, val: None },
            ),
    {
        let e = Entry::new_delete(col, key);
        self.entries.push(e);
        proof {
            assert(self.entries.deep_view() =~= old(self).entries.deep_view().push(
                EntryV { col: col as int, key: key@, val: None },
            ));
        }
        Ok(())
    }

    /// How many mutations the batch holds.
    pub fn len(&self) -> (n: usize)
        ensures
            n == self.entries_v().len(),
    {
        self.entries.len()
    }
}

} // verus!
