//! The migration orchestrator: decoding fetched rows, loading them in
//! bounded batches, and sequencing whole tables with per-table
//! failure isolation.

use vstd::prelude::*;

use crate::batch::{batch_count, flatten_batches, lemma_flatten_push, make_batches, Batch};
use crate::error::MigrationError;
use crate::schema::TableSchema;
use crate::statement::{
    all_columns_map, create_table_text, insert_text, map_schema, mapped_matches_schema,
    insert_statement, create_table_statement, MappedColumn,
};
use crate::target::{has_table, model_wf, table_at, TargetStoreModel, TargetTable};
use crate::task::TaskState;
use crate::typemap::{TypeMapper, TypePolicy};
use crate::value::{row_has_arity, Row, Value};

verus! {

/// One row as fetched from the source scan: either its cell values,
/// or a marker for a row that could not be decoded at all.
#[derive(Debug, PartialEq, Eq)]
pub enum FetchedRow {
    Cells(Vec<Value>),
    Unreadable,
}

/// What to do with a row that fails to decode.
#[derive(Debug, Clone, Copy, PartialEq, Eq)]
pub enum RowPolicy {
    /// Skip the offending row and keep going; the report counts it.
    SkipRow,
    /// Treat the table as failed.
    AbortTable,
}

/// A fetched row decodes under a schema of `arity` columns: it was
/// readable and holds exactly one value per column.
pub open spec fn row_ok(arity: nat, f: FetchedRow) -> bool {
    f matches FetchedRow::Cells(c) && row_has_arity(c@, arity)
}

/// The cell values of a readable row.
pub open spec fn cells_of(f: FetchedRow) -> Row
    recommends
        f is Cells,
{
    f->0
}

/// The rows among `fs[..i]` that decode, in scan order.
pub open spec fn decoded_prefix(arity: nat, fs: Seq<FetchedRow>, i: int) -> Seq<Row>
    decreases i,
{
    if i <= 0 {
        Seq::empty()
    } else if row_ok(arity, fs[i - 1]) {
        decoded_prefix(arity, fs, i - 1).push(cells_of(fs[i - 1]))
    } else {
        decoded_prefix(arity, fs, i - 1)
    }
}

/// All rows of the scan that decode, in scan order.
pub open spec fn decoded_rows(arity: nat, fs: Seq<FetchedRow>) -> Seq<Row> {
    decoded_prefix(arity, fs, fs.len() as int)
}

/// How many of `fs[..i]` fail to decode.
pub open spec fn bad_prefix(arity: nat, fs: Seq<FetchedRow>, i: int) -> int
    decreases i,
{
    if i <= 0 {
        0
    } else if row_ok(arity, fs[i - 1]) {
        bad_prefix(arity, fs, i - 1)
    } else {
        bad_prefix(arity, fs, i - 1) + 1
    }
}

/// How many rows of the scan fail to decode.
pub open spec fn bad_row_count(arity: nat, fs: Seq<FetchedRow>) -> int {
    bad_prefix(arity, fs, fs.len() as int)
}

proof fn lemma_bad_prefix_bounds(arity: nat, fs: Seq<FetchedRow>, i: int)
    requires
        0 <= i <= fs.len(),
    ensures
        0 <= bad_prefix(arity, fs, i) <= i,
    decreases i,
{
    if i > 0 {
        lemma_bad_prefix_bounds(arity, fs, i - 1);
    }
}

proof fn lemma_decoded_prefix_len(arity: nat, fs: Seq<FetchedRow>, i: int)
    requires
        0 <= i <= fs.len(),
    ensures
        decoded_prefix(arity, fs, i).len() + bad_prefix(arity, fs, i) == i,
    decreases i,
{
    if i > 0 {
        lemma_decoded_prefix_len(arity, fs, i - 1);
    }
}

/// No row is silently dropped: every row read from the source either
/// decodes into the migrated sequence or is counted as bad, so the
/// rows that reach the target fall short of the rows read by exactly
/// the bad-row count.
pub proof fn lemma_no_row_lost(arity: nat, fs: Seq<FetchedRow>)
    ensures
        decoded_rows(arity, fs).len() + bad_row_count(arity, fs) == fs.len(),
{
    lemma_decoded_prefix_len(arity, fs, fs.len() as int);
}

/// Decodes one fetched row against a schema of `arity` columns.
pub fn decode_row(f: FetchedRow, arity: usize) -> (r: Option<Row>)
    ensures
        (r is Some) == row_ok(arity as nat, f),
        r matches Some(row) ==> row == cells_of(f),
{
    match f {
        FetchedRow::Cells(c) => {
            if c.len() == arity {
                Some(c)
            } else {
                None
            }
        },
        FetchedRow::Unreadable => None,
    }
}

/// Decodes a whole scan under the row policy.
///
/// Under `SkipRow` this always succeeds, yielding the decodable rows
/// in scan order together with the count of skipped rows. Under
/// `AbortTable` it succeeds exactly when every row decodes, and
/// otherwise reports the first offending row's index.
pub fn decode_rows(table: &String, arity: usize, fs: Vec<FetchedRow>, policy: RowPolicy) -> (r:
    Result<(Vec<Row>, usize), MigrationError>)
    ensures
        (r is Ok) == (policy is SkipRow || bad_row_count(arity as nat, fs@) == 0),
        r matches Ok(p) ==> p.0@ == decoded_rows(arity as nat, fs@) && p.1 == bad_row_count(
            arity as nat,
            fs@,
        ),
        r matches Err(e) ==> policy is AbortTable && (e matches MigrationError::RowRead {
            table: t,
            row_index: ri,
        } && t@ == table@ && 0 <= ri < fs@.len() && !row_ok(arity as nat, fs@[ri as int]) && forall|
            j: int,
        |
            0 <= j < ri ==> row_ok(arity as nat, fs@[j])),
{
    let ghost all = fs@;
    let mut rest = fs;
    let n0 = rest.len();
    let mut rows: Vec<Row> = Vec::new();
    let mut skipped: usize = 0;
    let mut i: usize = 0;
    while rest.len() > 0
        invariant
            all == fs@,
            all.len() == n0,
            i + rest@.len() == n0,
            rest@ == all.skip(i as int),
            rows@ == decoded_prefix(arity as nat, all, i as int),
            skipped == bad_prefix(arity as nat, all, i as int),
            policy is AbortTable ==> skipped == 0,
        decreases rest@.len(),
    {
        proof {
            lemma_bad_prefix_bounds(arity as nat, all, i as int);
        }
        let f = rest.remove(0);
        proof {
            assert(all.skip(i as int)[0] == all[i as int]);
            assert(f == all[i as int]);
            assert(rest@ =~= all.skip(i as int + 1));
        }
        match decode_row(f, arity) {
            Some(row) => {
                rows.push(row);
            },
            None => {
                match policy {
                    RowPolicy::AbortTable => {
                        proof {
                            lemma_bad_prefix_zero(arity as nat, all, i as int);
                            assert(bad_prefix(arity as nat, all, i as int + 1) == 1);
                            lemma_bad_prefix_mono(arity as nat, all, i as int + 1, all.len() as int);
                            assert(bad_row_count(arity as nat, all) >= 1);
                        }
                        return Err(
                            MigrationError::RowRead { table: table.clone(), row_index: i },
                        );
                    },
                    RowPolicy::SkipRow => {
                        skipped = skipped + 1;
                    },
                }
            },
        }
        i = i + 1;
    }
    proof {
        assert(i == n0);
    }
    Ok((rows, skipped))
}

/// Bad-row counts only grow along the scan.
proof fn lemma_bad_prefix_mono(arity: nat, fs: Seq<FetchedRow>, i: int, j: int)
    requires
        0 <= i <= j <= fs.len(),
    ensures
        bad_prefix(arity, fs, i) <= bad_prefix(arity, fs, j),
    decreases j - i,
{
    if i < j {
        lemma_bad_prefix_mono(arity, fs, i, j - 1);
    }
}

/// A prefix with no bad rows has every row decodable.
proof fn lemma_bad_prefix_zero(arity: nat, fs: Seq<FetchedRow>, i: int)
    requires
        0 <= i <= fs.len(),
        bad_prefix(arity, fs, i) == 0,
    ensures
        forall|j: int| 0 <= j < i ==> row_ok(arity, fs[j]),
    decreases i,
{
    if i > 0 {
        lemma_bad_prefix_bounds(arity, fs, i - 1);
        lemma_bad_prefix_zero(arity, fs, i - 1);
    }
}

/// Everything the driver of a real target store needs for one table:
/// the idempotent schema statement and the positional insert
/// statement, both synthesized from the introspected schema and the
/// type mapping.
#[derive(Debug, PartialEq, Eq)]
pub struct TablePlan {
    pub create_statement: String,
    pub insert_statement: String,
    pub columns: Vec<MappedColumn>,
}

/// Synthesizes the statements for one table.
///
/// Succeeds exactly when every column's type maps under the mapper
/// and policy; the statements then follow the schema's column order
/// exactly.
pub fn plan_table(keyspace: &String, schema: &TableSchema, mapper: &TypeMapper, tpolicy: TypePolicy) -> (r:
    Result<TablePlan, MigrationError>)
    requires
        schema.wf(),
    ensures
        (r is Ok) == all_columns_map(*schema, *mapper, tpolicy),
        r matches Ok(p) ==> {
            &&& mapped_matches_schema(p.columns@, *schema, *mapper, tpolicy)
            &&& p.create_statement@ == create_table_text(
                keyspace@,
                schema.name@,
                p.columns@,
                schema.key_columns@,
            )
            &&& p.insert_statement@ == insert_text(keyspace@, schema.name@, p.columns@)
        },
        r matches Err(e) ==> e is UnsupportedType,
{
    match map_schema(schema, mapper, tpolicy) {
        Ok(cols) => {
            let create = create_table_statement(keyspace, schema, &cols);
            let insert = insert_statement(keyspace, schema, &cols);
            Ok(TablePlan { create_statement: create, insert_statement: insert, columns: cols })
        },
        Err(e) => Err(e),
    }
}

/// The terminal report for one table.
#[derive(Debug, PartialEq, Eq)]
pub struct TableReport {
    pub table: String,
    pub state: TaskState,
    /// Rows read from the source scan.
    pub rows_read: usize,
    /// Rows skipped under the skip-row policy.
    pub rows_skipped: usize,
    /// Batches submitted to the target.
    pub batches_submitted: usize,
}

/// A table migrates to completion exactly when its columns all map
/// and, unless the skip-row policy is active, every row decodes.
pub open spec fn table_succeeds(
    schema: TableSchema,
    mapper: TypeMapper,
    tpolicy: TypePolicy,
    rpolicy: RowPolicy,
    fetched: Seq<FetchedRow>,
) -> bool {
    &&& all_columns_map(schema, mapper, tpolicy)
    &&& (rpolicy is SkipRow || bad_row_count(schema.columns@.len(), fetched) == 0)
}

/// Migrates one table into the target model: create the table if
/// absent, decode the scan, and append the decoded rows in bounded
/// batches, in scan order.
///
/// On success the target gains exactly the decoded rows, appended in
/// order with every value in its schema position; the report counts
/// the batches as `ceil(rows / bound)`, with an empty scan making
/// zero batches and still completing. On failure the target gains no
/// rows (though the idempotent creation may have happened), and the
/// report's error names the cause.
pub fn migrate_table(
    model: &mut TargetStoreModel,
    schema: &TableSchema,
    mapper: &TypeMapper,
    tpolicy: TypePolicy,
    rpolicy: RowPolicy,
    fetched: Vec<FetchedRow>,
    bound: usize,
) -> (report: TableReport)
    requires
        schema.wf(),
        bound >= 1,
        model_wf(old(model).tables@),
    ensures
        model_wf(final(model).tables@),
        report.table@ == schema.name@,
        report.rows_read == fetched@.len(),
        (report.state is DataMigrated) == table_succeeds(
            *schema,
            *mapper,
            tpolicy,
            rpolicy,
            fetched@,
        ),
        report.state is DataMigrated ==> ({
            let arity = schema.columns@.len();
            let decoded = decoded_rows(arity, fetched@);
            &&& report.rows_skipped == bad_row_count(arity, fetched@)
            &&& report.batches_submitted == batch_count(decoded.len() as int, bound as int)
            &&& (fetched@.len() == 0 ==> report.batches_submitted == 0)
            &&& (!has_table(old(model).tables@, schema.name@) ==> {
                &&& final(model).tables@.len() == old(model).tables@.len() + 1
                &&& (forall|j: int| 0 <= j < old(model).tables@.len()
                    ==> final(model).tables@[j] == old(model).tables@[j])
                &&& final(model).tables@.last().name@ == schema.name@
                &&& final(model).tables@.last().rows@ == decoded
            })
            &&& (has_table(old(model).tables@, schema.name@) ==> {
                let k = table_at(old(model).tables@, schema.name@);
                &&& final(model).tables@.len() == old(model).tables@.len()
                &&& final(model).tables@[k].name == old(model).tables@[k].name
                &&& final(model).tables@[k].rows@ == old(model).tables@[k].rows@ + decoded
                &&& (forall|j: int| 0 <= j < old(model).tables@.len() && j != k
                    ==> final(model).tables@[j] == old(model).tables@[j])
            })
        }),
        report.state matches TaskState::Failed(e) ==> ({
            ||| (e is UnsupportedType && !all_columns_map(*schema, *mapper, tpolicy)
                && *final(model) == *old(model))
            ||| (e matches MigrationError::RowRead { table: t, row_index: ri } && t@
                == schema.name@ && 0 <= ri < fetched@.len() && !row_ok(
                schema.columns@.len(),
                fetched@[ri as int],
            ) && rpolicy is AbortTable && (has_table(old(model).tables@, schema.name@)
                ==> *final(model) == *old(model)) && (!has_table(old(model).tables@, schema.name@)
                ==> final(model).tables@.len() == old(model).tables@.len() + 1
                    && final(model).tables@.last().name@ == schema.name@
                    && final(model).tables@.last().rows@.len() == 0 && (forall|j: int|
                    0 <= j < old(model).tables@.len()
                        ==> final(model).tables@[j] == old(model).tables@[j])))
        }),
        report.state is DataMigrated || report.state is Failed,
{
    let arity = schema.columns.len();
    let rows_read = fetched.len();
    match map_schema(schema, mapper, tpolicy) {
        Err(e) => {
            return TableReport {
                table: schema.name.clone(),
                state: TaskState::Failed(e),
                rows_read,
                rows_skipped: 0,
                batches_submitted: 0,
            };
        },
        Ok(_) => {},
    }
    model.create_table(&schema.name);
    let ghost mid = *model;
    let ghost k = table_at(model.tables@, schema.name@);
    proof {
        assert(0 <= k < model.tables@.len() && model.tables@[k].name@ == schema.name@);
    }
    let (rows, skipped) = match decode_rows(&schema.name, arity, fetched, rpolicy) {
        Err(e) => {
            return TableReport {
                table: schema.name.clone(),
                state: TaskState::Failed(e),
                rows_read,
                rows_skipped: 0,
                batches_submitted: 0,
            };
        },
        Ok(p) => p,
    };
    let ghost decoded = rows@;
    let batches = make_batches(rows, bound);
    let submitted = batches.len();
    let ghost bs = batches@;
    let mut rest = batches;
    let mut i: usize = 0;
    while rest.len() > 0
        invariant
            i + rest@.len() == bs.len(),
            bs.len() <= usize::MAX,
            rest@ == bs.skip(i as int),
            model_wf(mid.tables@),
            model.tables@.len() == mid.tables@.len(),
            0 <= k < mid.tables@.len(),
            mid.tables@[k].name@ == schema.name@,
            model.tables@[k].name == mid.tables@[k].name,
            model.tables@[k].rows@ == mid.tables@[k].rows@ + flatten_batches(bs.take(i as int)),
            forall|j: int| 0 <= j < mid.tables@.len() && j != k ==> model.tables@[j]
                == mid.tables@[j],
        decreases rest@.len(),
    {
        let b = rest.remove(0);
        proof {
            assert(bs.skip(i as int)[0] == bs[i as int]);
            assert(b == bs[i as int]);
            assert(rest@ =~= bs.skip(i as int + 1));
            assert(model_wf(model.tables@)) by {
                assert forall|p: int, q: int|
                    0 <= p < q < model.tables@.len() implies model.tables@[p].name@
                    != model.tables@[q].name@ by {
                    assert(model.tables@[p].name@ == mid.tables@[p].name@);
                    assert(model.tables@[q].name@ == mid.tables@[q].name@);
                }
            }
            assert(has_table(model.tables@, schema.name@));
            assert(table_at(model.tables@, schema.name@) == k) by {
                let k2 = table_at(model.tables@, schema.name@);
                assert(0 <= k2 < model.tables@.len() && model.tables@[k2].name@ == schema.name@);
                if k2 != k {
                    assert(model.tables@[k].name@ == schema.name@);
                }
            }
        }
        model.append_batch(&schema.name, b);
        proof {
            assert(bs.take(i as int).push(bs[i as int]) =~= bs.take(i as int + 1));
            lemma_flatten_push(bs.take(i as int), bs[i as int]);
            assert(model.tables@[k].rows@ =~= mid.tables@[k].rows@ + flatten_batches(
                bs.take(i as int + 1),
            ));
        }
        i = i + 1;
    }
    proof {
        assert(bs.take(bs.len() as int) =~= bs);
        assert(model.tables@[k].rows@ =~= mid.tables@[k].rows@ + decoded);
        assert(model_wf(model.tables@)) by {
            assert forall|p: int, q: int|
                0 <= p < q < model.tables@.len() implies model.tables@[p].name@
                != model.tables@[q].name@ by {
                assert(model.tables@[p].name@ == mid.tables@[p].name@);
                assert(model.tables@[q].name@ == mid.tables@[q].name@);
            }
        }
        if !has_table(old(model).tables@, schema.name@) {
            assert(k == mid.tables@.len() - 1) by {
                if k < mid.tables@.len() - 1 {
                    assert(mid.tables@[k] == old(model).tables@[k]);
                    assert(has_table(old(model).tables@, schema.name@));
                }
            }
            assert(model.tables@.last().rows@ =~= decoded);
        } else {
            let k0 = table_at(old(model).tables@, schema.name@);
            assert(0 <= k0 < old(model).tables@.len() && old(model).tables@[k0].name@
                == schema.name@);
            assert(mid == *old(model));
            assert(k0 == k) by {
                if k0 != k {
                    assert(mid.tables@[k0].name@ == schema.name@);
                    assert(mid.tables@[k].name@ == schema.name@);
                }
            }
        }
    }
    TableReport {
        table: schema.name.clone(),
        state: TaskState::DataMigrated,
        rows_read,
        rows_skipped: skipped,
        batches_submitted: submitted,
    }
}

/// The schemas of one catalog name pairwise distinct tables.
pub open spec fn distinct_schema_names(schemas: Seq<TableSchema>) -> bool {
    forall|i: int, j: int| 0 <= i < j < schemas.len() ==> schemas[i].name@ != schemas[j].name@
}

/// The target holds none of the catalog's tables yet.
pub open spec fn fresh_target(ts: Seq<TargetTable>, schemas: Seq<TableSchema>) -> bool {
    forall|i: int| 0 <= i < schemas.len() ==> !has_table(ts, (#[trigger] schemas[i]).name@)
}

/// Runs the whole migration: one table after another, in catalog
/// order, against the target model.
///
/// Tables are isolated: each table's outcome depends on its own
/// schema and rows alone, so one table's failure never stops a
/// sibling. The report list carries one terminal state per table, in
/// catalog order.
///
/// On a clean run (distinct table names, none of them in the target
/// yet), every table that completes leaves the target holding exactly
/// the decodable rows of its scan, in scan order, with every value in
/// its schema position.
pub fn migrate_all(
    model: &mut TargetStoreModel,
    schemas: &Vec<TableSchema>,
    mapper: &TypeMapper,
    tpolicy: TypePolicy,
    rpolicy: RowPolicy,
    data: Vec<Vec<FetchedRow>>,
    bound: usize,
) -> (reports: Vec<TableReport>)
    requires
        schemas@.len() == data@.len(),
        forall|i: int| 0 <= i < schemas@.len() ==> (#[trigger] schemas@[i]).wf(),
        bound >= 1,
        model_wf(old(model).tables@),
    ensures
        model_wf(final(model).tables@),
        reports@.len() == schemas@.len(),
        forall|i: int| 0 <= i < reports@.len() ==> (#[trigger] reports@[i].table)@
            == schemas@[i].name@,
        forall|i: int| 0 <= i < reports@.len() ==> (#[trigger] reports@[i].rows_read)
            == data@[i]@.len(),
        forall|i: int| 0 <= i < reports@.len() ==> ((#[trigger] reports@[i].state) is DataMigrated)
            == table_succeeds(schemas@[i], *mapper, tpolicy, rpolicy, data@[i]@),
        forall|i: int| 0 <= i < reports@.len() ==> (#[trigger] reports@[i].state) is DataMigrated
            || reports@[i].state is Failed,
        distinct_schema_names(schemas@) && fresh_target(old(model).tables@, schemas@) ==> forall|
            i: int,
        |
            0 <= i < schemas@.len() && table_succeeds(
                #[trigger] schemas@[i],
                *mapper,
                tpolicy,
                rpolicy,
                data@[i]@,
            ) ==> has_table(final(model).tables@, schemas@[i].name@) && final(model).tables@[
                table_at(final(model).tables@, schemas@[i].name@)
            ].rows@ == decoded_rows(schemas@[i].columns@.len(), data@[i]@),
{
    let ghost all = data@;
    let ghost clean = distinct_schema_names(schemas@) && fresh_target(
        old(model).tables@,
        schemas@,
    );
    let mut rest = data;
    let mut reports: Vec<TableReport> = Vec::new();
    let n = schemas.len();
    let mut i: usize = 0;
    while i < n
        invariant
            n == schemas@.len(),
            all.len() == n,
            i + rest@.len() == n,
            rest@ == all.skip(i as int),
            reports@.len() == i,
            forall|p: int| 0 <= p < i ==> (#[trigger] schemas@[p]).wf(),
            forall|p: int| i <= p < n ==> (#[trigger] schemas@[p]).wf(),
            bound >= 1,
            model_wf(model.tables@),
            forall|p: int| 0 <= p < i ==> (#[trigger] reports@[p].table)@ == schemas@[p].name@,
            forall|p: int| 0 <= p < i ==> (#[trigger] reports@[p].rows_read) == all[p]@.len(),
            forall|p: int| 0 <= p < i ==> ((#[trigger] reports@[p].state) is DataMigrated)
                == table_succeeds(schemas@[p], *mapper, tpolicy, rpolicy, all[p]@),
            forall|p: int| 0 <= p < i ==> (#[trigger] reports@[p].state) is DataMigrated
                || reports@[p].state is Failed,
            clean == (distinct_schema_names(schemas@) && fresh_target(
                old(model).tables@,
                schemas@,
            )),
            clean ==> forall|p: int|
                0 <= p < i && table_succeeds(
                    #[trigger] schemas@[p],
                    *mapper,
                    tpolicy,
                    rpolicy,
                    all[p]@,
                ) ==> has_table(model.tables@, schemas@[p].name@) && model.tables@[
                    table_at(model.tables@, schemas@[p].name@)
                ].rows@ == decoded_rows(schemas@[p].columns@.len(), all[p]@),
            clean ==> forall|p: int|
                i <= p < n ==> !has_table(model.tables@, (#[trigger] schemas@[p]).name@),
        decreases n - i,
    {
        let fetched = rest.remove(0);
        proof {
            assert(all.skip(i as int)[0] == all[i as int]);
            assert(fetched == all[i as int]);
            assert(rest@ =~= all.skip(i as int + 1));
        }
        let ghost m0 = *model;
        let report = migrate_table(model, &schemas[i], mapper, tpolicy, rpolicy, fetched, bound);
        proof {
            if clean {
                let ghost iname = schemas@[i as int].name@;
                assert(!has_table(m0.tables@, iname));
                // Whatever the outcome, earlier tables are untouched
                // and at most one table, named for this schema, was
                // appended.
                assert(forall|j: int| 0 <= j < m0.tables@.len() ==> model.tables@[j]
                    == m0.tables@[j]);
                assert(model.tables@.len() == m0.tables@.len() || (model.tables@.len()
                    == m0.tables@.len() + 1 && model.tables@.last().name@ == iname));
                assert forall|p: int|
                    0 <= p < i + 1 && table_succeeds(
                        #[trigger] schemas@[p],
                        *mapper,
                        tpolicy,
                        rpolicy,
                        all[p]@,
                    ) implies has_table(model.tables@, schemas@[p].name@) && model.tables@[
                    table_at(model.tables@, schemas@[p].name@)
                ].rows@ == decoded_rows(schemas@[p].columns@.len(), all[p]@) by {
                    if p < i {
                        let kp = table_at(m0.tables@, schemas@[p].name@);
                        assert(0 <= kp < m0.tables@.len() && m0.tables@[kp].name@
                            == schemas@[p].name@);
                        assert(model.tables@[kp].name@ == schemas@[p].name@);
                        assert(has_table(model.tables@, schemas@[p].name@));
                        let k2 = table_at(model.tables@, schemas@[p].name@);
                        assert(0 <= k2 < model.tables@.len() && model.tables@[k2].name@
                            == schemas@[p].name@);
                        if k2 != kp {
                            if k2 < m0.tables@.len() {
                                assert(model.tables@[k2] == m0.tables@[k2]);
                            } else {
                                assert(model.tables@[k2].name@ == iname);
                                assert(schemas@[p].name@ != iname);
                            }
                            assert(false);
                        }
                    } else {
                        assert(report.state is DataMigrated);
                        assert(model.tables@.last().name@ == iname);
                        assert(has_table(model.tables@, iname));
                        let k2 = table_at(model.tables@, iname);
                        assert(0 <= k2 < model.tables@.len() && model.tables@[k2].name@ == iname);
                        if k2 != model.tables@.len() - 1 {
                            assert(model.tables@[k2] == m0.tables@[k2]);
                            assert(has_table(m0.tables@, iname));
                            assert(false);
                        }
                    }
                }
                assert forall|p: int| i + 1 <= p < n implies !has_table(
                    model.tables@,
                    (#[trigger] schemas@[p]).name@,
                ) by {
                    if has_table(model.tables@, schemas@[p].name@) {
                        let w = choose|w: int|
                            0 <= w < model.tables@.len() && model.tables@[w].name@
                                == schemas@[p].name@;
                        if w < m0.tables@.len() {
                            assert(m0.tables@[w].name@ == schemas@[p].name@);
                            assert(has_table(m0.tables@, schemas@[p].name@));
                        } else {
                            assert(model.tables@[w].name@ == iname);
                            assert(schemas@[p].name@ != iname);
                        }
                        assert(false);
                    }
                }
            }
        }
        reports.push(report);
        i = i + 1;
    }
    reports
}

/// Whether any table ended `Failed`; the process exit code is
/// non-zero exactly in this case.
pub fn any_failed(reports: &Vec<TableReport>) -> (r: bool)
    ensures
        r == exists|i: int| 0 <= i < reports@.len() && (#[trigger] reports@[i].state) is Failed,
{
    let n = reports.len();
    for i in 0..n
        invariant
            n == reports@.len(),
            forall|j: int| 0 <= j < i ==> !((#[trigger] reports@[j].state) is Failed),
    {
        let failed = match &reports[i].state {
            TaskState::Failed(_) => true,
            _ => false,
        };
        if failed {
            return true;
        }
    }
    false
}

} // verus!
