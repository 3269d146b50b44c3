use dbc::db::build_query_result;
use dbc::value::{sqlite_row_cells, SqliteValue};
use rusqlite::types::ValueRef;

fn native_row_values(row: &rusqlite::Row, width: usize) -> Vec<SqliteValue> {
    (0..width)
        .map(|i| match row.get_ref(i).unwrap() {
            ValueRef::Null => SqliteValue::Null,
            ValueRef::Integer(v) => SqliteValue::Integer(v),
            ValueRef::Real(f) => SqliteValue::Real(format!("{}", f)),
            ValueRef::Text(t) => SqliteValue::Text(String::from_utf8_lossy(t).to_string()),
            ValueRef::Blob(_) => SqliteValue::Blob,
        })
        .collect()
}

#[test]
fn select_one_against_a_real_sqlite_backend() {
    let conn = rusqlite::Connection::open_in_memory().unwrap();
    let mut stmt = conn.prepare("select 1").unwrap();
    let names: Vec<String> = stmt.column_names().iter().map(|c| c.to_string()).collect();
    let width = names.len();
    let mut rows = stmt.query([]).unwrap();
    let mut cells: Vec<Vec<Option<String>>> = Vec::new();
    while let Some(row) = rows.next().unwrap() {
        cells.push(sqlite_row_cells(&native_row_values(row, width)));
    }
    let res = build_query_result(names, cells).unwrap();
    assert_eq!(res.columns.len(), 1);
    assert_eq!(res.rows.len(), 1);
    assert_eq!(res.rows[0].data[0], Some("1".to_string()));
}

#[test]
fn nulls_and_values_flow_through_the_normalizer() {
    let conn = rusqlite::Connection::open_in_memory().unwrap();
    conn.execute("create table t (a integer, b text)", []).unwrap();
    conn.execute("insert into t values (1, 'x')", []).unwrap();
    conn.execute("insert into t values (NULL, 'NULL')", []).unwrap();
    let mut stmt = conn.prepare("select a, b from t order by b").unwrap();
    let names: Vec<String> = stmt.column_names().iter().map(|c| c.to_string()).collect();
    let width = names.len();
    let mut rows = stmt.query([]).unwrap();
    let mut cells: Vec<Vec<Option<String>>> = Vec::new();
    while let Some(row) = rows.next().unwrap() {
        cells.push(sqlite_row_cells(&native_row_values(row, width)));
    }
    let res = build_query_result(names, cells).unwrap();
    assert_eq!(res.rows.len(), 2);
    // the textual 'NULL' stays a value; the SQL NULL becomes the absent cell
    assert_eq!(res.rows[0].data, vec![None, Some("NULL".to_string())]);
    assert_eq!(res.rows[1].data, vec![Some("1".to_string()), Some("x".to_string())]);
}
