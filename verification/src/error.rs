//! The error taxonomy of the migration engine.

use vstd::prelude::*;

verus! {

/// Everything that can go wrong while migrating.
///
/// Catalog-scoped errors (`SchemaRead`) are fatal for the whole run;
/// every other variant is scoped to a single table and never stops
/// sibling tables.
#[derive(Debug, Clone, PartialEq, Eq)]
pub enum MigrationError {
    /// The source catalog could not be enumerated, or a table's
    /// column metadata was unusable.
    SchemaRead { detail: String },
    /// A column's source type has no target mapping; names the table
    /// and column at fault.
    UnsupportedType { table: String, column: String, source_type: String },
    /// The target store rejected a schema-definition statement.
    SchemaWrite { table: String },
    /// A row failed to decode from the source; `row_index` is its
    /// position in the scan.
    RowRead { table: String, row_index: usize },
    /// A batch failed to commit to the target after retries were
    /// exhausted; carries the batch's row range in scan order.
    BatchWrite { table: String, first_row: usize, last_row: usize },
}

} // verus!
