//! Table descriptions as introspected from the source catalog.

use vstd::prelude::*;
use vstd::string::StrSliceExecFns;

use crate::error::MigrationError;

verus! {

/// One column of a source table: its name and its source type name,
/// both exactly as the source catalog declares them.
#[derive(Debug, Clone, PartialEq, Eq)]
pub struct Column {
    pub name: String,
    pub source_type: String,
}

/// The shape of one source table.
///
/// Column order is significant: it is fixed at introspection time and
/// reused unchanged for the target schema statement, the insert
/// statement, and every row tuple.
#[derive(Debug, Clone, PartialEq, Eq)]
pub struct TableSchema {
    pub name: String,
    pub columns: Vec<Column>,
    /// Indices of the source table's primary-key columns, in
    /// ascending declaration order. When the source names no key, the
    /// list is empty and the synthesizer falls back to the first
    /// declared column.
    pub key_columns: Vec<usize>,
}

/// A character that may start an identifier.
pub open spec fn is_ident_start(c: char) -> bool {
    ('a' <= c && c <= 'z') || ('A' <= c && c <= 'Z') || c == '_'
}

/// A character that may continue an identifier.
pub open spec fn is_ident_char(c: char) -> bool {
    is_ident_start(c) || ('0' <= c && c <= '9')
}

/// A plain identifier: non-empty, starts with a letter or underscore,
/// and holds only letters, digits and underscores. Statement synthesis
/// splices only identifiers into statement text, so no name can carry
/// statement syntax along with it.
pub open spec fn is_identifier(s: Seq<char>) -> bool {
    &&& s.len() > 0
    &&& is_ident_start(s[0])
    &&& forall|i: int| 0 <= i < s.len() ==> is_ident_char(s[i])
}

/// All column names in `cols` are pairwise distinct.
pub open spec fn distinct_column_names(cols: Seq<Column>) -> bool {
    forall|i: int, j: int| 0 <= i < j < cols.len() ==> cols[i].name@ != cols[j].name@
}

/// Well-formedness of a table description: identifier-shaped names,
/// at least one column, no duplicate column names, and key indices
/// that point at existing columns in strictly ascending order.
pub open spec fn schema_wf(name: Seq<char>, cols: Seq<Column>, keys: Seq<usize>) -> bool {
    &&& is_identifier(name)
    &&& cols.len() > 0
    &&& forall|i: int| 0 <= i < cols.len() ==> is_identifier(#[trigger] cols[i].name@)
    &&& distinct_column_names(cols)
    &&& forall|i: int| 0 <= i < keys.len() ==> keys[i] < cols.len()
    &&& forall|i: int, j: int| 0 <= i < j < keys.len() ==> keys[i] < keys[j]
}

impl TableSchema {
    /// The invariant every schema used by the engine satisfies.
    pub open spec fn wf(&self) -> bool {
        schema_wf(self.name@, self.columns@, self.key_columns@)
    }

    /// Validates raw catalog data into a usable table description.
    ///
    /// Returns `Ok` exactly when the inputs satisfy the schema
    /// invariant; anything else is reported as unreadable catalog
    /// metadata for this table.
    pub fn new(name: String, columns: Vec<Column>, key_columns: Vec<usize>) -> (r: Result<
        TableSchema,
        MigrationError,
    >)
        ensures
            (r is Ok) == schema_wf(name@, columns@, key_columns@),
            r matches Ok(t) ==> t.name == name && t.columns == columns && t.key_columns
                == key_columns && t.wf(),
            r matches Err(e) ==> e is SchemaRead,
    {
        if !check_identifier(name.as_str()) {
            return Err(MigrationError::SchemaRead { detail: name });
        }
        if columns.len() == 0 {
            return Err(MigrationError::SchemaRead { detail: name });
        }
        let n = columns.len();
        for i in 0..n
            invariant
                n == columns@.len(),
                forall|p: int| 0 <= p < i ==> is_identifier(#[trigger] columns@[p].name@),
        {
            if !check_identifier(columns[i].name.as_str()) {
                return Err(MigrationError::SchemaRead { detail: name });
            }
        }
        if !check_distinct_names(&columns) {
            return Err(MigrationError::SchemaRead { detail: name });
        }
        let m = key_columns.len();
        for i in 0..m
            invariant
                m == key_columns@.len(),
                n == columns@.len(),
                forall|p: int| 0 <= p < i ==> key_columns@[p] < n,
                forall|p: int, q: int| 0 <= p < q < i ==> key_columns@[p] < key_columns@[q],
        {
            if key_columns[i] >= n {
                return Err(MigrationError::SchemaRead { detail: name });
            }
            if i > 0 && key_columns[i - 1] >= key_columns[i] {
                return Err(MigrationError::SchemaRead { detail: name });
            }
        }
        Ok(TableSchema { name, columns, key_columns })
    }

    /// Number of columns, for callers that only need the arity.
    pub fn arity(&self) -> (n: usize)
        ensures
            n == self.columns@.len(),
    {
        self.columns.len()
    }
}

/// Decides whether `s` is a plain identifier.
pub fn check_identifier(s: &str) -> (r: bool)
    ensures
        r == is_identifier(s@),
{
    let n = s.unicode_len();
    if n == 0 {
        return false;
    }
    let c0 = s.get_char(0);
    if !(('a' <= c0 && c0 <= 'z') || ('A' <= c0 && c0 <= 'Z') || c0 == '_') {
        return false;
    }
    for i in 0..n
        invariant
            n == s@.len(),
            forall|j: int| 0 <= j < i ==> is_ident_char(s@[j]),
    {
        let c = s.get_char(i);
        if !(('a' <= c && c <= 'z') || ('A' <= c && c <= 'Z') || c == '_' || ('0' <= c && c
            <= '9')) {
            return false;
        }
    }
    true
}

/// Decides whether all column names are pairwise distinct.
pub fn check_distinct_names(cols: &Vec<Column>) -> (r: bool)
    ensures
        r == distinct_column_names(cols@),
{
    let n = cols.len();
    for i in 0..n
        invariant
            n == cols@.len(),
            forall|p: int, q: int| 0 <= p < q < n && p < i ==> cols@[p].name@ != cols@[q].name@,
    {
        let mut j = i + 1;
        while j < n
            invariant
                n == cols@.len(),
                i < j,
                forall|q: int| i < q < j ==> cols@[i as int].name@ != cols@[q].name@,
            decreases n - j,
        {
            if cols[i].name == cols[j].name {
                return false;
            }
            j = j + 1;
        }
    }
    true
}

} // verus!
