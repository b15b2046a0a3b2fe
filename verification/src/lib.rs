//! A schema-driven engine for moving the contents of a row-oriented
//! relational store into a wide-column distributed store.
//!
//! The engine introspects the source catalog, synthesizes idempotent
//! target schema statements, and streams row data in bounded batches.
//! All statement text, batching, and per-table state handling is
//! verified; the surrounding process performs the actual reads and
//! writes against the two stores.

pub mod batch;
pub mod engine;
pub mod error;
pub mod schema;
pub mod statement;
pub mod target;
pub mod task;
pub mod typemap;
pub mod value;

pub use batch::{make_batches, Batch};
pub use engine::{
    any_failed, decode_row, decode_rows, migrate_all, migrate_table, plan_table, FetchedRow,
    RowPolicy, TablePlan, TableReport,
};
pub use error::MigrationError;
pub use schema::{Column, TableSchema};
pub use statement::{create_keyspace_statement, MappedColumn};
pub use target::TargetStoreModel;
pub use task::{should_retry, retry_backoff_ms, step_task, TableEvent, TaskState};
pub use typemap::{default_mapper, TypeMapper, TypePolicy};
pub use value::{Row, Value};
