use dbc::db::build_query_result;
use dbc::export::{
    excel_data_rows, excel_query_rows, export_csv_lines, export_insert_lines, table_name_of,
};
use dbc::plugin::Sql;

#[test]
fn csv_export_writes_header_rows_and_empty_null_fields() {
    let names = vec!["col1".to_string(), "col2".to_string()];
    let cells = vec![
        vec![Some("v1".to_string()), Some("v2".to_string())],
        vec![Some("v3".to_string()), None],
    ];
    let res = build_query_result(names, cells).unwrap();
    let lines = export_csv_lines(&res);
    assert_eq!(lines, vec!["col1;col2", "v1;v2", "v3;"]);
}

#[test]
fn csv_fields_are_quoted_only_when_needed() {
    let names = vec!["a".to_string()];
    let cells = vec![
        vec![Some("plain".to_string())],
        vec![Some("semi;colon".to_string())],
        vec![Some("qu\"ote".to_string())],
        vec![Some("".to_string())],
    ];
    let res = build_query_result(names, cells).unwrap();
    let lines = export_csv_lines(&res);
    assert_eq!(lines[1], "plain");
    assert_eq!(lines[2], "\"semi;colon\"");
    assert_eq!(lines[3], "\"qu\"\"ote\"");
    assert_eq!(lines[4], "");
}

#[test]
fn table_name_is_read_from_the_first_from_clause() {
    assert_eq!(table_name_of("select * from users where id = 1"), "users");
    assert_eq!(table_name_of("select a, b from order_items2 join x on 1=1"), "order_items2");
    assert_eq!(table_name_of("select 1"), "xxxxx");
    // upper-case names fall outside the heuristic's character class
    assert_eq!(table_name_of("select * from Users"), "xxxxx");
    assert_eq!(table_name_of("select * from users, extra from second"), "users");
}

#[test]
fn insert_export_emits_one_statement_per_row() {
    let names = vec!["id".to_string(), "name".to_string()];
    let cells = vec![
        vec![Some("1".to_string()), Some("it's".to_string())],
        vec![Some("2".to_string()), None],
    ];
    let res = build_query_result(names, cells).unwrap();
    let table = table_name_of("select id, name from people");
    let lines = export_insert_lines(&res, table.as_str());
    assert_eq!(
        lines,
        vec![
            "INSERT INTO people (id, name) VALUES ('1', 'it''s');",
            "INSERT INTO people (id, name) VALUES ('2', NULL);",
        ]
    );
}

#[test]
fn excel_sheets_hold_data_and_query_text() {
    let names = vec!["a".to_string(), "b".to_string()];
    let cells = vec![vec![Some("1".to_string()), None]];
    let res = build_query_result(names, cells).unwrap();
    let data = excel_data_rows(&res);
    assert_eq!(data.len(), 2);
    assert_eq!(data[0], vec!["a", "b"]);
    assert_eq!(data[1], vec!["1", ""]);
    let q = excel_query_rows("select a, b from t");
    assert_eq!(q, vec![vec!["select a, b from t"]]);
}

#[test]
fn plugin_shapes_records_and_rejoins_queries() {
    let words = vec!["select".to_string(), "1".to_string(), "from".to_string(), "dual".to_string()];
    assert_eq!(Sql::join_query(&words), "select 1 from dual");
    let no_words: Vec<String> = Vec::new();
    assert_eq!(Sql::join_query(&no_words), "");

    let names = vec!["a".to_string(), "b".to_string()];
    let cells = vec![vec![Some("1".to_string()), None]];
    let res = build_query_result(names, cells).unwrap();
    let records = Sql::records(&res);
    assert_eq!(records.len(), 1);
    assert_eq!(records[0][0], ("a".to_string(), Some("1".to_string())));
    assert_eq!(records[0][1], ("b".to_string(), None));
}
