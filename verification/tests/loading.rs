//! Batching, the task state machine, the target model, and the
//! end-to-end engine run.

use rowferry::{
    any_failed, decode_row, decode_rows, default_mapper, make_batches, migrate_all, migrate_table,
    retry_backoff_ms, should_retry, step_task, Column, FetchedRow, MigrationError, Row, RowPolicy,
    TableEvent, TableSchema, TargetStoreModel, TaskState, Value,
};

fn col(name: &str, source_type: &str) -> Column {
    Column { name: name.to_string(), source_type: source_type.to_string() }
}

fn artists_schema() -> TableSchema {
    TableSchema::new(
        "artists".to_string(),
        vec![col("artist_id", "INTEGER"), col("name", "NVARCHAR(120)")],
        vec![0],
    )
    .unwrap()
}

fn artist_row(id: i64, name: &str) -> Row {
    vec![Value::Int(id), Value::Text(name.to_string())]
}

fn dummy_rows(n: usize) -> Vec<Row> {
    (0..n).map(|i| vec![Value::Int(i as i64)]).collect()
}

#[test]
fn batches_of_five_rows_bound_two() {
    let bs = make_batches(dummy_rows(5), 2);
    assert_eq!(bs.len(), 3);
    assert_eq!(bs[0].rows.len(), 2);
    assert_eq!(bs[1].rows.len(), 2);
    assert_eq!(bs[2].rows.len(), 1);
    let flat: Vec<Row> = bs.into_iter().flat_map(|b| b.rows).collect();
    assert_eq!(flat, dummy_rows(5));
}

#[test]
fn batches_exact_division() {
    let bs = make_batches(dummy_rows(4), 2);
    assert_eq!(bs.len(), 2);
    assert_eq!(bs[0].rows.len(), 2);
    assert_eq!(bs[1].rows.len(), 2);
}

#[test]
fn batches_of_nothing() {
    let bs = make_batches(dummy_rows(0), 3);
    assert_eq!(bs.len(), 0);
}

#[test]
fn batches_bound_one() {
    let bs = make_batches(dummy_rows(3), 1);
    assert_eq!(bs.len(), 3);
    for b in &bs {
        assert_eq!(b.rows.len(), 1);
    }
}

#[test]
fn decode_row_checks_arity() {
    assert_eq!(
        decode_row(FetchedRow::Cells(vec![Value::Int(1)]), 1),
        Some(vec![Value::Int(1)])
    );
    assert_eq!(decode_row(FetchedRow::Cells(vec![Value::Int(1)]), 2), None);
    assert_eq!(decode_row(FetchedRow::Unreadable, 1), None);
}

#[test]
fn decode_skip_policy_counts() {
    let fs = vec![
        FetchedRow::Cells(vec![Value::Int(1)]),
        FetchedRow::Unreadable,
        FetchedRow::Cells(vec![Value::Int(3)]),
    ];
    let (rows, skipped) = decode_rows(&"t".to_string(), 1, fs, RowPolicy::SkipRow).unwrap();
    assert_eq!(rows, vec![vec![Value::Int(1)], vec![Value::Int(3)]]);
    assert_eq!(skipped, 1);
}

#[test]
fn decode_abort_policy_names_first_bad_row() {
    let fs = vec![
        FetchedRow::Cells(vec![Value::Int(1)]),
        FetchedRow::Unreadable,
        FetchedRow::Unreadable,
    ];
    let err = decode_rows(&"t".to_string(), 1, fs, RowPolicy::AbortTable).unwrap_err();
    match err {
        MigrationError::RowRead { table, row_index } => {
            assert_eq!(table, "t");
            assert_eq!(row_index, 1);
        }
        other => panic!("wrong error: {:?}", other),
    }
}

#[test]
fn task_steps_forward() {
    let t = "albums".to_string();
    let s1 = step_task(&t, &TaskState::Pending, &TableEvent::SchemaWritten);
    assert_eq!(s1, TaskState::SchemaCreated);
    let s2 = step_task(&t, &s1, &TableEvent::RowsLoaded);
    assert_eq!(s2, TaskState::DataMigrated);
}

#[test]
fn task_schema_rejection_is_terminal() {
    let t = "albums".to_string();
    let s = step_task(&t, &TaskState::Pending, &TableEvent::SchemaRejected);
    assert_eq!(s, TaskState::Failed(MigrationError::SchemaWrite { table: "albums".to_string() }));
}

#[test]
fn task_batch_failure_carries_row_range() {
    let t = "albums".to_string();
    let s = step_task(
        &t,
        &TaskState::SchemaCreated,
        &TableEvent::BatchFailed { first_row: 40, last_row: 59 },
    );
    assert_eq!(
        s,
        TaskState::Failed(MigrationError::BatchWrite {
            table: "albums".to_string(),
            first_row: 40,
            last_row: 59,
        })
    );
}

#[test]
fn retry_policy_bounds_attempts() {
    assert!(should_retry(0, 3));
    assert!(should_retry(3, 3));
    assert!(!should_retry(4, 3));
}

#[test]
fn backoff_doubles_and_saturates() {
    assert_eq!(retry_backoff_ms(0, 100), 100);
    assert_eq!(retry_backoff_ms(1, 100), 200);
    assert_eq!(retry_backoff_ms(3, 100), 800);
    assert_eq!(retry_backoff_ms(80, 100), u64::MAX);
}

#[test]
fn create_twice_no_error_no_duplicate() {
    let mut model = TargetStoreModel::new();
    let name = "artists".to_string();
    model.create_table(&name);
    assert_eq!(model.table_count(), 1);
    model.create_table(&name);
    assert_eq!(model.table_count(), 1);
}

#[test]
fn recreate_keeps_existing_rows() {
    let mut model = TargetStoreModel::new();
    let schema = artists_schema();
    let fetched = vec![FetchedRow::Cells(artist_row(1, "A"))];
    migrate_table(
        &mut model,
        &schema,
        &default_mapper(),
        rowferry::TypePolicy::AbortTable,
        RowPolicy::AbortTable,
        fetched,
        10,
    );
    model.create_table(&"artists".to_string());
    let i = model.find_table(&"artists".to_string()).unwrap();
    assert_eq!(model.rows_of(i).len(), 1);
    assert_eq!(model.table_count(), 1);
}

#[test]
fn empty_table_completes_with_zero_batches() {
    let mut model = TargetStoreModel::new();
    let report = migrate_table(
        &mut model,
        &artists_schema(),
        &default_mapper(),
        rowferry::TypePolicy::AbortTable,
        RowPolicy::AbortTable,
        vec![],
        25,
    );
    assert_eq!(report.state, TaskState::DataMigrated);
    assert_eq!(report.batches_submitted, 0);
    assert_eq!(report.rows_read, 0);
    let i = model.find_table(&"artists".to_string()).unwrap();
    assert_eq!(model.rows_of(i).len(), 0);
}

#[test]
fn two_artists_two_single_row_batches() {
    let mut model = TargetStoreModel::new();
    let fetched = vec![
        FetchedRow::Cells(artist_row(1, "A")),
        FetchedRow::Cells(artist_row(2, "B")),
    ];
    let report = migrate_table(
        &mut model,
        &artists_schema(),
        &default_mapper(),
        rowferry::TypePolicy::AbortTable,
        RowPolicy::AbortTable,
        fetched,
        1,
    );
    assert_eq!(report.state, TaskState::DataMigrated);
    assert_eq!(report.batches_submitted, 2);
    assert_eq!(report.rows_read, 2);
    let i = model.find_table(&"artists".to_string()).unwrap();
    assert_eq!(model.rows_of(i), &vec![artist_row(1, "A"), artist_row(2, "B")]);
}

#[test]
fn sentinel_values_keep_their_positions() {
    let mut model = TargetStoreModel::new();
    let schema = TableSchema::new(
        "probe".to_string(),
        vec![
            col("a", "INTEGER"),
            col("b", "TEXT"),
            col("c", "NUMERIC(10,2)"),
            col("d", "TEXT"),
        ],
        vec![0],
    )
    .unwrap();
    let sentinel = vec![
        Value::Int(7001),
        Value::Text("sentinel-b".to_string()),
        Value::Decimal("12.34".to_string()),
        Value::Null,
    ];
    let report = migrate_table(
        &mut model,
        &schema,
        &default_mapper(),
        rowferry::TypePolicy::AbortTable,
        RowPolicy::AbortTable,
        vec![FetchedRow::Cells(sentinel.clone())],
        10,
    );
    assert_eq!(report.state, TaskState::DataMigrated);
    let i = model.find_table(&"probe".to_string()).unwrap();
    let stored = &model.rows_of(i)[0];
    assert_eq!(stored, &sentinel);
    assert_eq!(stored[0], Value::Int(7001));
    assert_eq!(stored[1], Value::Text("sentinel-b".to_string()));
    assert_eq!(stored[2], Value::Decimal("12.34".to_string()));
    assert_eq!(stored[3], Value::Null);
}

#[test]
fn skip_policy_deficit_equals_skipped() {
    let mut model = TargetStoreModel::new();
    let fetched = vec![
        FetchedRow::Cells(artist_row(1, "A")),
        FetchedRow::Unreadable,
        FetchedRow::Cells(artist_row(3, "C")),
    ];
    let report = migrate_table(
        &mut model,
        &artists_schema(),
        &default_mapper(),
        rowferry::TypePolicy::AbortTable,
        RowPolicy::SkipRow,
        fetched,
        10,
    );
    assert_eq!(report.state, TaskState::DataMigrated);
    assert_eq!(report.rows_read, 3);
    assert_eq!(report.rows_skipped, 1);
    let i = model.find_table(&"artists".to_string()).unwrap();
    assert_eq!(model.rows_of(i).len(), report.rows_read - report.rows_skipped);
}

#[test]
fn abort_policy_fails_table_on_bad_row() {
    let mut model = TargetStoreModel::new();
    let fetched = vec![FetchedRow::Cells(artist_row(1, "A")), FetchedRow::Unreadable];
    let report = migrate_table(
        &mut model,
        &artists_schema(),
        &default_mapper(),
        rowferry::TypePolicy::AbortTable,
        RowPolicy::AbortTable,
        fetched,
        10,
    );
    match report.state {
        TaskState::Failed(MigrationError::RowRead { table, row_index }) => {
            assert_eq!(table, "artists");
            assert_eq!(row_index, 1);
        }
        other => panic!("wrong state: {:?}", other),
    }
    let i = model.find_table(&"artists".to_string()).unwrap();
    assert_eq!(model.rows_of(i).len(), 0);
}

#[test]
fn unmapped_column_fails_table_but_not_siblings() {
    let mut model = TargetStoreModel::new();
    let invoices = TableSchema::new(
        "invoices".to_string(),
        vec![col("invoice_id", "INTEGER"), col("total", "arbitrary precision decimal")],
        vec![0],
    )
    .unwrap();
    let schemas = vec![invoices, artists_schema()];
    let data = vec![
        vec![FetchedRow::Cells(vec![Value::Int(1), Value::Decimal("9.99".to_string())])],
        vec![FetchedRow::Cells(artist_row(1, "A"))],
    ];
    let reports = migrate_all(
        &mut model,
        &schemas,
        &default_mapper(),
        rowferry::TypePolicy::AbortTable,
        RowPolicy::AbortTable,
        data,
        10,
    );
    assert_eq!(reports.len(), 2);
    match &reports[0].state {
        TaskState::Failed(MigrationError::UnsupportedType { table, column, source_type }) => {
            assert_eq!(table, "invoices");
            assert_eq!(column, "total");
            assert_eq!(source_type, "arbitrary precision decimal");
        }
        other => panic!("wrong state: {:?}", other),
    }
    assert_eq!(reports[1].state, TaskState::DataMigrated);
    assert!(any_failed(&reports));
    let i = model.find_table(&"artists".to_string()).unwrap();
    assert_eq!(model.rows_of(i).len(), 1);
    assert!(model.find_table(&"invoices".to_string()).is_none());
}

#[test]
fn all_tables_clean_run() {
    let mut model = TargetStoreModel::new();
    let genres = TableSchema::new(
        "genres".to_string(),
        vec![col("genre_id", "INTEGER"), col("name", "NVARCHAR(120)")],
        vec![0],
    )
    .unwrap();
    let schemas = vec![artists_schema(), genres];
    let data = vec![
        vec![
            FetchedRow::Cells(artist_row(1, "A")),
            FetchedRow::Cells(artist_row(2, "B")),
            FetchedRow::Cells(artist_row(3, "C")),
        ],
        vec![FetchedRow::Cells(vec![Value::Int(1), Value::Text("Rock".to_string())])],
    ];
    let reports = migrate_all(
        &mut model,
        &schemas,
        &default_mapper(),
        rowferry::TypePolicy::AbortTable,
        RowPolicy::AbortTable,
        data,
        2,
    );
    assert!(!any_failed(&reports));
    assert_eq!(reports[0].batches_submitted, 2);
    assert_eq!(reports[1].batches_submitted, 1);
    assert_eq!(reports[0].rows_read, 3);
    let ai = model.find_table(&"artists".to_string()).unwrap();
    assert_eq!(
        model.rows_of(ai),
        &vec![artist_row(1, "A"), artist_row(2, "B"), artist_row(3, "C")]
    );
    let gi = model.find_table(&"genres".to_string()).unwrap();
    assert_eq!(
        model.rows_of(gi),
        &vec![vec![Value::Int(1), Value::Text("Rock".to_string())]]
    );
}
