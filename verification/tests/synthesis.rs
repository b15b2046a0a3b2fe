//! Schema validation, type mapping, and statement synthesis.

use rowferry::schema::check_identifier;
use rowferry::typemap::{base_type_name, resolve_column_type};
use rowferry::{
    create_keyspace_statement, default_mapper, plan_table, Column, MigrationError, TableSchema,
    TypeMapper, TypePolicy,
};

fn col(name: &str, source_type: &str) -> Column {
    Column { name: name.to_string(), source_type: source_type.to_string() }
}

fn artists_schema() -> TableSchema {
    TableSchema::new(
        "artists".to_string(),
        vec![col("artist_id", "INTEGER"), col("name", "NVARCHAR(120)")],
        vec![0],
    )
    .unwrap()
}

#[test]
fn identifier_accepts_plain_names() {
    assert!(check_identifier("artists"));
    assert!(check_identifier("_tmp2"));
    assert!(check_identifier("PlaylistTrack"));
}

#[test]
fn identifier_rejects_other_text() {
    assert!(!check_identifier(""));
    assert!(!check_identifier("2cool"));
    assert!(!check_identifier("drop table"));
    assert!(!check_identifier("x;--"));
}

#[test]
fn schema_rejects_bad_table_name() {
    let r = TableSchema::new("bad name".to_string(), vec![col("a", "INTEGER")], vec![]);
    assert!(matches!(r, Err(MigrationError::SchemaRead { .. })));
}

#[test]
fn schema_rejects_duplicate_columns() {
    let r = TableSchema::new(
        "t".to_string(),
        vec![col("a", "INTEGER"), col("a", "TEXT")],
        vec![],
    );
    assert!(matches!(r, Err(MigrationError::SchemaRead { .. })));
}

#[test]
fn schema_rejects_key_out_of_range() {
    let r = TableSchema::new("t".to_string(), vec![col("a", "INTEGER")], vec![1]);
    assert!(matches!(r, Err(MigrationError::SchemaRead { .. })));
}

#[test]
fn schema_rejects_no_columns() {
    let r = TableSchema::new("t".to_string(), vec![], vec![]);
    assert!(matches!(r, Err(MigrationError::SchemaRead { .. })));
}

#[test]
fn base_type_strips_size_suffix() {
    assert_eq!(base_type_name("NVARCHAR(160)"), "NVARCHAR");
    assert_eq!(base_type_name("NUMERIC(10,2)"), "NUMERIC");
    assert_eq!(base_type_name("INTEGER"), "INTEGER");
    assert_eq!(base_type_name(""), "");
}

#[test]
fn default_mapping_families() {
    let m = default_mapper();
    let table = "t".to_string();
    let cases = [
        ("INTEGER", "int"),
        ("NVARCHAR(160)", "text"),
        ("TEXT", "text"),
        ("DATETIME", "timestamp"),
        ("NUMERIC(10,2)", "decimal"),
        ("REAL", "decimal"),
    ];
    for (src, want) in cases {
        let got = resolve_column_type(&m, TypePolicy::AbortTable, &table, &col("c", src)).unwrap();
        assert_eq!(got, want);
    }
}

#[test]
fn unmapped_type_aborts_or_falls_back() {
    let m = default_mapper();
    let table = "invoices".to_string();
    let c = col("total", "arbitrary precision decimal");
    let err = resolve_column_type(&m, TypePolicy::AbortTable, &table, &c).unwrap_err();
    match err {
        MigrationError::UnsupportedType { table: t, column, source_type } => {
            assert_eq!(t, "invoices");
            assert_eq!(column, "total");
            assert_eq!(source_type, "arbitrary precision decimal");
        }
        other => panic!("wrong error: {:?}", other),
    }
    let fallback = resolve_column_type(&m, TypePolicy::FallbackToText, &table, &c).unwrap();
    assert_eq!(fallback, "text");
}

#[test]
fn keyspace_statement_text() {
    let s = create_keyspace_statement(&"music".to_string());
    assert_eq!(
        s,
        "CREATE KEYSPACE IF NOT EXISTS music WITH REPLICATION = \
         {'class': 'SimpleStrategy', 'replication_factor': 1};"
    );
}

#[test]
fn create_statement_single_key() {
    let plan = plan_table(
        &"music".to_string(),
        &artists_schema(),
        &default_mapper(),
        TypePolicy::AbortTable,
    )
    .unwrap();
    assert_eq!(
        plan.create_statement,
        "CREATE TABLE IF NOT EXISTS music.artists (artist_id int PRIMARY KEY, name text);"
    );
}

#[test]
fn insert_statement_positional() {
    let plan = plan_table(
        &"music".to_string(),
        &artists_schema(),
        &default_mapper(),
        TypePolicy::AbortTable,
    )
    .unwrap();
    assert_eq!(
        plan.insert_statement,
        "INSERT INTO music.artists (artist_id, name) VALUES (?, ?)"
    );
}

#[test]
fn create_statement_composite_key() {
    let schema = TableSchema::new(
        "playlist_track".to_string(),
        vec![col("playlist_id", "INTEGER"), col("track_id", "INTEGER")],
        vec![0, 1],
    )
    .unwrap();
    let plan = plan_table(
        &"music".to_string(),
        &schema,
        &default_mapper(),
        TypePolicy::AbortTable,
    )
    .unwrap();
    assert_eq!(
        plan.create_statement,
        "CREATE TABLE IF NOT EXISTS music.playlist_track \
         (playlist_id int, track_id int, PRIMARY KEY (playlist_id, track_id));"
    );
    assert_eq!(
        plan.insert_statement,
        "INSERT INTO music.playlist_track (playlist_id, track_id) VALUES (?, ?)"
    );
}

#[test]
fn create_statement_synthesizes_missing_key() {
    let schema = TableSchema::new(
        "notes".to_string(),
        vec![col("body", "TEXT"), col("added", "DATETIME")],
        vec![],
    )
    .unwrap();
    let plan = plan_table(
        &"music".to_string(),
        &schema,
        &default_mapper(),
        TypePolicy::AbortTable,
    )
    .unwrap();
    assert_eq!(
        plan.create_statement,
        "CREATE TABLE IF NOT EXISTS music.notes (body text PRIMARY KEY, added timestamp);"
    );
}

#[test]
fn create_statement_tracks_full_table() {
    let schema = TableSchema::new(
        "tracks".to_string(),
        vec![
            col("track_id", "INTEGER"),
            col("name", "NVARCHAR(200)"),
            col("album_id", "INTEGER"),
            col("media_type_id", "INTEGER"),
            col("genre_id", "INTEGER"),
            col("composer", "NVARCHAR(220)"),
            col("milliseconds", "INTEGER"),
            col("bytes", "INTEGER"),
            col("unit_price", "NUMERIC(10,2)"),
        ],
        vec![0],
    )
    .unwrap();
    let plan = plan_table(
        &"music".to_string(),
        &schema,
        &default_mapper(),
        TypePolicy::AbortTable,
    )
    .unwrap();
    assert_eq!(
        plan.create_statement,
        "CREATE TABLE IF NOT EXISTS music.tracks (track_id int PRIMARY KEY, name text, \
         album_id int, media_type_id int, genre_id int, composer text, milliseconds int, \
         bytes int, unit_price decimal);"
    );
    assert_eq!(
        plan.insert_statement,
        "INSERT INTO music.tracks (track_id, name, album_id, media_type_id, genre_id, \
         composer, milliseconds, bytes, unit_price) VALUES (?, ?, ?, ?, ?, ?, ?, ?, ?)"
    );
}

#[test]
fn plan_fails_on_unmapped_column() {
    let schema = TableSchema::new(
        "invoices".to_string(),
        vec![col("invoice_id", "INTEGER"), col("total", "arbitrary precision decimal")],
        vec![0],
    )
    .unwrap();
    let err = plan_table(
        &"music".to_string(),
        &schema,
        &default_mapper(),
        TypePolicy::AbortTable,
    )
    .unwrap_err();
    match err {
        MigrationError::UnsupportedType { table, column, .. } => {
            assert_eq!(table, "invoices");
            assert_eq!(column, "total");
        }
        other => panic!("wrong error: {:?}", other),
    }
}

#[test]
fn custom_mapper_first_match_wins() {
    let m = TypeMapper::new(vec![
        ("X".to_string(), "first".to_string()),
        ("X".to_string(), "second".to_string()),
    ]);
    assert_eq!(m.map_type(&"X".to_string()), Some("first".to_string()));
    assert_eq!(m.map_type(&"Y".to_string()), None);
}
