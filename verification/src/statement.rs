//! Synthesis of target-store statement text: idempotent schema
//! definitions and positional insert statements.
//!
//! All text is assembled from validated identifiers and mapped type
//! names only; row values are never spliced into statement text, they
//! are bound positionally by the batch layer.

use vstd::prelude::*;
use vstd::string::StringExecFns;

use crate::error::MigrationError;
use crate::schema::TableSchema;
use crate::typemap::{column_maps, resolved_type, TypeMapper, TypePolicy};

verus! {

/// One column with its target type already resolved.
#[derive(Debug, Clone, PartialEq, Eq)]
pub struct MappedColumn {
    pub name: String,
    pub target_type: String,
}

/// The key-column indices a schema definition actually uses: the
/// declared key columns, or the first declared column when the source
/// names none (the target model requires an explicit key).
pub open spec fn effective_keys(keys: Seq<usize>) -> Seq<usize> {
    if keys.len() == 0 {
        seq![0usize]
    } else {
        keys
    }
}

/// Text of one column in a schema definition: name, a space, the
/// mapped type, and an inline key marker when the whole key is this
/// single column.
pub open spec fn column_ddl(c: MappedColumn, inline_key: bool) -> Seq<char> {
    if inline_key {
        c.name@ + " "@ + c.target_type@ + " PRIMARY KEY"@
    } else {
        c.name@ + " "@ + c.target_type@
    }
}

/// The comma-separated column definitions for the first `i` columns.
pub open spec fn columns_ddl_prefix(cols: Seq<MappedColumn>, key: int, i: int) -> Seq<char>
    decreases i,
{
    if i <= 0 {
        Seq::empty()
    } else if i == 1 {
        column_ddl(cols[0], key == 0)
    } else {
        columns_ddl_prefix(cols, key, i - 1) + ", "@ + column_ddl(cols[i - 1], key == i - 1)
    }
}

/// The comma-separated names of the key columns `keys[..i]`.
pub open spec fn key_names_prefix(cols: Seq<MappedColumn>, keys: Seq<usize>, i: int) -> Seq<char>
    decreases i,
{
    if i <= 0 {
        Seq::empty()
    } else if i == 1 {
        cols[keys[0] as int].name@
    } else {
        key_names_prefix(cols, keys, i - 1) + ", "@ + cols[keys[i - 1] as int].name@
    }
}

/// The trailing composite-key clause, present only when the key spans
/// more than one column.
pub open spec fn key_clause(cols: Seq<MappedColumn>, keys: Seq<usize>) -> Seq<char> {
    if effective_keys(keys).len() > 1 {
        ", PRIMARY KEY ("@ + key_names_prefix(cols, effective_keys(keys), effective_keys(keys).len() as int)
            + ")"@
    } else {
        Seq::empty()
    }
}

/// Index of the column that carries the inline key marker, or -1 when
/// the key is composite.
pub open spec fn inline_key_index(keys: Seq<usize>) -> int {
    if effective_keys(keys).len() == 1 {
        effective_keys(keys)[0] as int
    } else {
        -1
    }
}

/// The full idempotent schema-definition statement for one table.
pub open spec fn create_table_text(
    keyspace: Seq<char>,
    table: Seq<char>,
    cols: Seq<MappedColumn>,
    keys: Seq<usize>,
) -> Seq<char> {
    "CREATE TABLE IF NOT EXISTS "@ + keyspace + "."@ + table + " ("@ + columns_ddl_prefix(
        cols,
        inline_key_index(keys),
        cols.len() as int,
    ) + key_clause(cols, keys) + ");"@
}

/// The comma-separated names of the first `i` columns.
pub open spec fn column_names_prefix(cols: Seq<MappedColumn>, i: int) -> Seq<char>
    decreases i,
{
    if i <= 0 {
        Seq::empty()
    } else if i == 1 {
        cols[0].name@
    } else {
        column_names_prefix(cols, i - 1) + ", "@ + cols[i - 1].name@
    }
}

/// `i` positional placeholders, comma-separated.
pub open spec fn placeholders_prefix(i: int) -> Seq<char>
    decreases i,
{
    if i <= 0 {
        Seq::empty()
    } else if i == 1 {
        "?"@
    } else {
        placeholders_prefix(i - 1) + ", "@ + "?"@
    }
}

/// The positional insert statement for one table: the schema's column
/// names in schema order, one placeholder per column.
pub open spec fn insert_text(
    keyspace: Seq<char>,
    table: Seq<char>,
    cols: Seq<MappedColumn>,
) -> Seq<char> {
    "INSERT INTO "@ + keyspace + "."@ + table + " ("@ + column_names_prefix(
        cols,
        cols.len() as int,
    ) + ") VALUES ("@ + placeholders_prefix(cols.len() as int) + ")"@
}

/// The idempotent keyspace-definition statement.
pub open spec fn create_keyspace_text(keyspace: Seq<char>) -> Seq<char> {
    "CREATE KEYSPACE IF NOT EXISTS "@ + keyspace
        + " WITH REPLICATION = {'class': 'SimpleStrategy', 'replication_factor': 1};"@
}

/// Every column of `schema` maps under the mapper and policy.
pub open spec fn all_columns_map(
    schema: TableSchema,
    mapper: TypeMapper,
    policy: TypePolicy,
) -> bool {
    forall|i: int| 0 <= i < schema.columns@.len() ==> column_maps(
        mapper.pairs@,
        policy,
        #[trigger] schema.columns@[i].source_type@,
    )
}

/// The mapped columns agree with the schema: same names in the same
/// order, each type resolved under the mapper and policy.
pub open spec fn mapped_matches_schema(
    m: Seq<MappedColumn>,
    schema: TableSchema,
    mapper: TypeMapper,
    policy: TypePolicy,
) -> bool {
    &&& m.len() == schema.columns@.len()
    &&& forall|i: int| 0 <= i < m.len() ==> (#[trigger] m[i].name)@ == schema.columns@[i].name@
    &&& forall|i: int| 0 <= i < m.len() ==> (#[trigger] m[i].target_type)@ == resolved_type(
        mapper.pairs@,
        policy,
        schema.columns@[i].source_type@,
    )
}

/// Resolves the target type of every column of `schema`, in schema
/// column order.
///
/// Returns `Ok` exactly when every column maps; otherwise an
/// `UnsupportedType` error naming the first column that does not.
pub fn map_schema(schema: &TableSchema, mapper: &TypeMapper, policy: TypePolicy) -> (r: Result<
    Vec<MappedColumn>,
    MigrationError,
>)
    ensures
        (r is Ok) == all_columns_map(*schema, *mapper, policy),
        r matches Ok(m) ==> mapped_matches_schema(m@, *schema, *mapper, policy),
        r matches Err(e) ==> (e matches MigrationError::UnsupportedType {
            table: et,
            column: ec,
            source_type: es,
        } && et@ == schema.name@ && exists|k: int|
            {
                &&& 0 <= k < schema.columns@.len()
                &&& !column_maps(mapper.pairs@, policy, #[trigger] schema.columns@[k].source_type@)
                &&& forall|j: int| 0 <= j < k ==> column_maps(
                    mapper.pairs@,
                    policy,
                    #[trigger] schema.columns@[j].source_type@,
                )
                &&& ec@ == schema.columns@[k].name@
                &&& es@ == schema.columns@[k].source_type@
            }),
{
    let n = schema.columns.len();
    let mut m: Vec<MappedColumn> = Vec::new();
    for i in 0..n
        invariant
            n == schema.columns@.len(),
            m@.len() == i,
            forall|j: int| 0 <= j < i ==> (#[trigger] m@[j].name)@ == schema.columns@[j].name@,
            forall|j: int| 0 <= j < i ==> (#[trigger] m@[j].target_type)@ == resolved_type(
                mapper.pairs@,
                policy,
                schema.columns@[j].source_type@,
            ),
            forall|j: int| 0 <= j < i ==> column_maps(
                mapper.pairs@,
                policy,
                #[trigger] schema.columns@[j].source_type@,
            ),
    {
        match crate::typemap::resolve_column_type(mapper, policy, &schema.name, &schema.columns[i]) {
            Ok(t) => {
                m.push(MappedColumn { name: schema.columns[i].name.clone(), target_type: t });
            },
            Err(e) => {
                return Err(e);
            },
        }
    }
    Ok(m)
}

/// Builds the idempotent schema-definition statement for one table.
pub fn create_table_statement(keyspace: &String, schema: &TableSchema, cols: &Vec<MappedColumn>) -> (r:
    String)
    requires
        schema.wf(),
        cols@.len() == schema.columns@.len(),
    ensures
        r@ == create_table_text(keyspace@, schema.name@, cols@, schema.key_columns@),
{
    let ghost keys = schema.key_columns@;
    let ghost kidx = inline_key_index(keys);
    let mut s = String::new();
    s.append("CREATE TABLE IF NOT EXISTS ");
    s.append(keyspace.as_str());
    s.append(".");
    s.append(schema.name.as_str());
    s.append(" (");
    let ghost header = s@;
    let n = cols.len();
    // Which column, if any, carries the inline key marker.
    let inline_key: Option<usize> = if schema.key_columns.len() == 0 {
        Some(0)
    } else if schema.key_columns.len() == 1 {
        Some(schema.key_columns[0])
    } else {
        None
    };
    proof {
        match inline_key {
            Some(k) => {
                assert(kidx == k as int);
            },
            None => {
                assert(kidx == -1);
            },
        }
    }
    for i in 0..n
        invariant
            n == cols@.len(),
            s@ == header + columns_ddl_prefix(cols@, kidx, i as int),
            (match inline_key {
                Some(k) => kidx == k as int,
                None => kidx == -1,
            }),
    {
        if i > 0 {
            s.append(", ");
        }
        s.append(cols[i].name.as_str());
        s.append(" ");
        s.append(cols[i].target_type.as_str());
        let marked = match inline_key {
            Some(k) => i == k,
            None => false,
        };
        if marked {
            s.append(" PRIMARY KEY");
        }
        proof {
            assert(marked == (kidx == i as int));
            if i == 0 {
                assert(s@ =~= header + columns_ddl_prefix(cols@, kidx, 1));
            } else {
                assert(s@ =~= header + columns_ddl_prefix(cols@, kidx, i + 1));
            }
        }
    }
    if schema.key_columns.len() > 1 {
        s.append(", PRIMARY KEY (");
        let ghost mid = s@;
        let m = schema.key_columns.len();
        for j in 0..m
            invariant
                m == keys.len(),
                m > 1,
                keys == schema.key_columns@,
                schema.wf(),
                cols@.len() == schema.columns@.len(),
                s@ == mid + key_names_prefix(cols@, keys, j as int),
                mid == header + columns_ddl_prefix(cols@, kidx, cols@.len() as int)
                    + ", PRIMARY KEY ("@,
        {
            if j > 0 {
                s.append(", ");
            }
            s.append(cols[schema.key_columns[j]].name.as_str());
            proof {
                if j == 0 {
                    assert(s@ =~= mid + key_names_prefix(cols@, keys, 1));
                } else {
                    assert(s@ =~= mid + key_names_prefix(cols@, keys, j + 1));
                }
            }
        }
        s.append(")");
        proof {
            assert(effective_keys(keys) =~= keys);
        }
    }
    s.append(");");
    proof {
        assert(s@ =~= create_table_text(keyspace@, schema.name@, cols@, keys));
    }
    s
}

/// Builds the positional insert statement for one table.
pub fn insert_statement(keyspace: &String, schema: &TableSchema, cols: &Vec<MappedColumn>) -> (r:
    String)
    requires
        cols@.len() == schema.columns@.len(),
    ensures
        r@ == insert_text(keyspace@, schema.name@, cols@),
{
    let mut s = String::new();
    s.append("INSERT INTO ");
    s.append(keyspace.as_str());
    s.append(".");
    s.append(schema.name.as_str());
    s.append(" (");
    let ghost header = s@;
    let n = cols.len();
    for i in 0..n
        invariant
            n == cols@.len(),
            s@ == header + column_names_prefix(cols@, i as int),
    {
        if i > 0 {
            s.append(", ");
        }
        s.append(cols[i].name.as_str());
        proof {
            if i == 0 {
                assert(s@ =~= header + column_names_prefix(cols@, 1));
            } else {
                assert(s@ =~= header + column_names_prefix(cols@, i + 1));
            }
        }
    }
    s.append(") VALUES (");
    let ghost mid = s@;
    for i in 0..n
        invariant
            n == cols@.len(),
            s@ == mid + placeholders_prefix(i as int),
            mid == header + column_names_prefix(cols@, cols@.len() as int) + ") VALUES ("@,
    {
        if i > 0 {
            s.append(", ");
        }
        s.append("?");
        proof {
            if i == 0 {
                assert(s@ =~= mid + placeholders_prefix(1));
            } else {
                assert(s@ =~= mid + placeholders_prefix(i + 1));
            }
        }
    }
    s.append(")");
    proof {
        assert(s@ =~= insert_text(keyspace@, schema.name@, cols@));
    }
    s
}

/// Builds the idempotent keyspace-definition statement.
pub fn create_keyspace_statement(keyspace: &String) -> (r: String)
    ensures
        r@ == create_keyspace_text(keyspace@),
{
    let mut s = String::new();
    s.append("CREATE KEYSPACE IF NOT EXISTS ");
    s.append(keyspace.as_str());
    s.append(" WITH REPLICATION = {'class': 'SimpleStrategy', 'replication_factor': 1};");
    proof {
        assert(s@ =~= create_keyspace_text(keyspace@));
    }
    s
}

} // verus!
