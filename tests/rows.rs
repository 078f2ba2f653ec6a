use stock_restore::domain::Domain;
use stock_restore::snapshot::{check_columns, check_row, decode_snapshot, ImportError};
use stock_restore::table::{restore_tables, Table};
use stock_restore::value::{ColumnType, SqlValue};

fn text(s: &str) -> SqlValue {
    SqlValue::Text(s.to_string())
}

fn float_bits(x: f64) -> SqlValue {
    SqlValue::Real(x.to_bits())
}

fn holding(id: i64, code: &str, quantity: i64) -> Vec<SqlValue> {
    vec![
        SqlValue::Integer(id),
        text(code),
        text("浦发银行"),
        float_bits(7.5),
        SqlValue::Integer(quantity),
        text("2024-01-02 10:00:00"),
        SqlValue::Integer(1),
        SqlValue::Null,
        SqlValue::Null,
        SqlValue::Null,
    ]
}

fn config(key: &str, value: &str) -> Vec<SqlValue> {
    vec![text(key), text(value)]
}

#[test]
fn values_fit_their_column_types() {
    assert!(SqlValue::Integer(3).fits(ColumnType::Integer));
    assert!(!float_bits(1.0).fits(ColumnType::Integer));
    assert!(SqlValue::Integer(3).fits(ColumnType::Real));
    assert!(float_bits(1.0).fits(ColumnType::Real));
    assert!(!SqlValue::Null.fits(ColumnType::Real));
    assert!(SqlValue::Null.fits(ColumnType::NullableReal));
    assert!(SqlValue::Null.fits(ColumnType::NullableText));
    assert!(SqlValue::Null.fits(ColumnType::NullableInteger));
    assert!(!text("1").fits(ColumnType::Integer));
    assert!(!SqlValue::Blob(vec![1]).fits(ColumnType::Text));
    assert!(!SqlValue::Blob(vec![1]).fits(ColumnType::NullableText));
}

#[test]
fn values_compare_by_content() {
    assert!(text("a").same_as(&text("a")));
    assert!(!text("a").same_as(&text("b")));
    assert!(!SqlValue::Integer(1).same_as(&float_bits(1.0)));
    assert!(SqlValue::Blob(vec![1, 2]).same_as(&SqlValue::Blob(vec![1, 2])));
    assert!(!SqlValue::Blob(vec![1, 2]).same_as(&SqlValue::Blob(vec![1])));
}

#[test]
fn a_short_row_is_a_schema_mismatch() {
    let r = check_row(Domain::AppConfig, &vec![text("k")], 4);
    assert!(matches!(r, Err(ImportError::SchemaMismatch { row: 4, expected: 2, found: 1 })));
}

#[test]
fn the_first_bad_value_is_reported() {
    let mut row = holding(1, "SH600000", 100);
    row[4] = text("many");
    row[6] = SqlValue::Null;
    let r = check_row(Domain::Holdings, &row, 0);
    assert!(matches!(r, Err(ImportError::RowDecode { row: 0, column: 4 })));
}

#[test]
fn the_first_bad_row_is_reported() {
    let rows = vec![config("a", "1"), config("b", "2"), vec![text("c"), SqlValue::Null]];
    let r = decode_snapshot(Domain::AppConfig, rows);
    assert!(matches!(r, Err(ImportError::RowDecode { row: 2, column: 1 })));
}

#[test]
fn conforming_rows_decode_unchanged() {
    let rows = vec![config("a", "1"), config("b", "2")];
    let s = decode_snapshot(Domain::AppConfig, rows).unwrap();
    assert_eq!(s.domain, Domain::AppConfig);
    assert_eq!(s.rows.len(), 2);
    assert!(s.rows[1][0].same_as(&text("b")));
}

#[test]
fn an_empty_snapshot_decodes() {
    let s = decode_snapshot(Domain::Orders, Vec::new()).unwrap();
    assert!(s.rows.is_empty());
}

#[test]
fn upsert_replaces_the_row_with_the_same_key() {
    let mut t = Table::new(Domain::Holdings);
    t.import_rows(vec![holding(1, "SH600000", 50)]).unwrap();
    let n = t.import_rows(vec![holding(2, "SH600000", 100)]).unwrap();
    assert_eq!(n, 1);
    assert_eq!(t.len(), 1);
    let row = t.get(&text("SH600000")).unwrap();
    assert!(row[0].same_as(&SqlValue::Integer(2)));
    assert!(row[4].same_as(&SqlValue::Integer(100)));
}

#[test]
fn a_holding_with_a_taken_id_replaces_that_row() {
    let mut t = Table::new(Domain::Holdings);
    t.import_rows(vec![holding(1, "SH600000", 50), holding(2, "SZ000001", 10)]).unwrap();
    t.import_rows(vec![holding(2, "SH600519", 5)]).unwrap();
    assert_eq!(t.len(), 2);
    assert!(t.get(&text("SZ000001")).is_none());
    assert!(t.get(&text("SH600519")).unwrap()[4].same_as(&SqlValue::Integer(5)));
    assert!(t.get(&text("SH600000")).is_some());
}

#[test]
fn other_tables_match_rows_by_their_first_column() {
    let mut t = Table::new(Domain::AppConfig);
    t.import_rows(vec![config("a", "1"), config("b", "2")]).unwrap();
    t.import_rows(vec![config("a", "3")]).unwrap();
    assert_eq!(t.len(), 2);
    assert!(t.get(&text("a")).unwrap()[1].same_as(&text("3")));
}

#[test]
fn missing_columns_are_a_schema_mismatch() {
    let all: Vec<String> = ["key", "value", "extra"].iter().map(|s| s.to_string()).collect();
    assert!(check_columns(Domain::AppConfig, &all).is_ok());
    let partial: Vec<String> = vec!["value".to_string()];
    assert!(matches!(
        check_columns(Domain::AppConfig, &partial),
        Err(ImportError::MissingColumn { column: 0 })
    ));
    let only_key: Vec<String> = vec!["key".to_string()];
    assert!(matches!(
        check_columns(Domain::AppConfig, &only_key),
        Err(ImportError::MissingColumn { column: 1 })
    ));
    assert!(matches!(
        check_columns(Domain::Holdings, &Vec::new()),
        Err(ImportError::MissingColumn { column: 0 })
    ));
}

#[test]
fn importing_twice_equals_importing_once() {
    let snapshot = vec![config("theme", "dark"), config("cookie", "x"), config("theme", "light")];
    let mut once = Table::new(Domain::AppConfig);
    once.import_rows(vec![config("lang", "zh")]).unwrap();
    let mut twice = Table::new(Domain::AppConfig);
    twice.import_rows(vec![config("lang", "zh")]).unwrap();
    once.import_rows(snapshot.clone()).unwrap();
    twice.import_rows(snapshot.clone()).unwrap();
    twice.import_rows(snapshot).unwrap();
    assert_eq!(once.len(), 3);
    assert_eq!(twice.len(), 3);
    for key in ["theme", "cookie", "lang"] {
        let a = once.get(&text(key)).unwrap();
        let b = twice.get(&text(key)).unwrap();
        assert!(a[1].same_as(&b[1]));
    }
    assert!(once.get(&text("theme")).unwrap()[1].same_as(&text("light")));
}

#[test]
fn a_bad_snapshot_leaves_the_table_as_it_was() {
    let mut t = Table::new(Domain::AppConfig);
    t.import_rows(vec![config("a", "1")]).unwrap();
    let r = t.import_rows(vec![config("a", "2"), vec![text("b")]]);
    assert!(matches!(r, Err(ImportError::SchemaMismatch { row: 1, .. })));
    assert_eq!(t.len(), 1);
    assert!(t.get(&text("a")).unwrap()[1].same_as(&text("1")));
    assert!(t.get(&text("b")).is_none());
}

#[test]
fn a_failing_domain_does_not_touch_the_next() {
    let mut config_table = Table::new(Domain::AppConfig);
    config_table.import_rows(vec![config("a", "1")]).unwrap();
    let holdings_table = Table::new(Domain::Holdings);
    let mut bad = holding(1, "SH600000", 100);
    bad[0] = text("one");
    let batches = vec![vec![config("a", "2")], vec![bad]];
    let (tables, results) = restore_tables(vec![config_table, holdings_table], batches);
    assert_eq!(results[0].as_ref().ok(), Some(&1));
    assert!(matches!(results[1], Err(ImportError::RowDecode { row: 0, column: 0 })));
    assert!(tables[0].get(&text("a")).unwrap()[1].same_as(&text("2")));
    assert_eq!(tables[1].len(), 0);

    let mut first = Table::new(Domain::Holdings);
    first.import_rows(vec![holding(7, "SZ000001", 10)]).unwrap();
    let mut bad_config = config("k", "v");
    bad_config[1] = SqlValue::Integer(5);
    let batches = vec![vec![bad_config], vec![holding(8, "SZ000002", 20)]];
    let (tables, results) = restore_tables(vec![Table::new(Domain::AppConfig), first], batches);
    assert!(results[0].is_err());
    assert_eq!(results[1].as_ref().ok(), Some(&1));
    assert_eq!(tables[0].len(), 0);
    assert_eq!(tables[1].len(), 2);
    assert_eq!(tables[1].domain(), Domain::Holdings);
}
