//! Bidirectional table synchronisation between a local replica and a remote
//! database reached through a statement-batch endpoint.
//!
//! The engine decides and the caller acts. Nothing here opens a file, a
//! socket or a database: the caller hands in what it read and gets back what
//! to do next. Conflicts are settled by one comparison of `updated_at`, last
//! writer wins; a sync is a cycle that is asked for, not a stream.
//!
//! - [`schema`]: the tables, their columns, keys and declared types.
//! - [`watermark`]: the `last_sync_time` of a table and its two encodings.
//! - [`sql`]: the statements sent to either side.
//! - [`remote`]: requests to the statement-batch endpoint and its answers.
//! - [`cycle`]: one table's push, pull and ledger write, step by step.
//! - [`orchestrator`]: the remote schema, the plans and the sum of outcomes.
//! - [`bootstrap`]: opening the replica, with one quarantine and rebuild.
//! - [`connection`]: the manager that holds the opened database.
//! - [`guarantees`]: what is proved of the cycle and of the bootstrap.
//! - [`text`]: what the text operations used throughout return.

pub mod bootstrap;
pub mod connection;
pub mod cycle;
pub mod guarantees;
pub mod orchestrator;
pub mod remote;
pub mod schema;
pub mod sql;
pub mod text;
pub mod watermark;
