//! A transactional key-value access layer in front of an embedded storage
//! engine, partitioned into independent column families.
//!
//! The layer offers direct reads and writes, point-in-time consistent read
//! views (snapshots), engine-level transactions with nested savepoints and
//! write-conflict detection, ordered cursor iteration, and atomically applied
//! write batches.  Every operation is specified against a mathematical model
//! of the store: a growing log of committed mutations, from which the visible
//! contents of each column family at any instant are derived.

pub mod bytes;
pub mod db;
pub mod eval;
pub mod iter;
pub mod laws;
pub mod model;
pub mod options;
pub mod snapshot;
pub mod status;
pub mod transaction;
pub mod write_batch;

pub use db::DbBuilder;
pub use db::Engine;
pub use db::TransactionDb;
pub use eval::BareEvaluator;
pub use eval::Evaluator;
pub use eval::EvaluatorWithStorage;
pub use iter::DbIterator;
pub use iter::Direction;
pub use options::ReadOptions;
pub use options::TransactionOptions;
pub use options::WriteOptions;
pub use snapshot::Snapshot;
pub use snapshot::SnapshotRef;
pub use status::into_result;
pub use status::RocksDBStatusError;
pub use status::Status;
pub use status::StatusCode;
pub use transaction::Transaction;
pub use write_batch::WriteBatch;
