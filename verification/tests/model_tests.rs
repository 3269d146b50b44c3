use dbc::db::{
    build_query_result, create_connection, describe_banner, describe_column_line,
    describe_resolve, describe_sequence_lines, find_standard_query, foreign_key_line,
    normalize_table_ref, ora_describe_column_line, ora_describe_resolve, pg_standard_queries,
    readable_type, rows_updated_message, search_row, BackendPlan, ConnectionParams,
    ConnectionPlan, DescribeAction, Error,
};
use dbc::value::{
    interval_from_sql, my_cell, ora_cell, pg_cell, sqlite_cell, DateTime, Interval, MyValue,
    OraValue, PgValue, SqliteValue, TzDateTime,
};

fn params(
    type_: Option<&str>,
    url: Option<&str>,
    username: Option<&str>,
    password: Option<&str>,
    dbname: Option<&str>,
) -> ConnectionParams {
    ConnectionParams {
        type_: type_.map(String::from),
        url: url.map(String::from),
        username: username.map(String::from),
        password: password.map(String::from),
        dbname: dbname.map(String::from),
    }
}

#[test]
fn select_one_has_one_column_one_row_value_one_for_every_backend() {
    let cells = vec![
        pg_cell(&PgValue::Int4(Some(1))),
        ora_cell(&OraValue::Int(1)),
        sqlite_cell(&SqliteValue::Integer(1)),
        my_cell(&MyValue::Int(1)),
    ];
    for cell in cells {
        let res = build_query_result(vec!["?column?".to_string()], vec![vec![cell]]).unwrap();
        assert_eq!(res.columns.len(), 1);
        assert_eq!(res.rows.len(), 1);
        assert_eq!(res.rows[0].data[0], Some("1".to_string()));
    }
}

#[test]
fn null_normalizes_to_none_for_every_backend() {
    assert_eq!(pg_cell(&PgValue::Text(None)), None);
    assert_eq!(pg_cell(&PgValue::Int8(None)), None);
    assert_eq!(pg_cell(&PgValue::Int4(None)), None);
    assert_eq!(pg_cell(&PgValue::Int2(None)), None);
    assert_eq!(pg_cell(&PgValue::Timestamp(None)), None);
    assert_eq!(pg_cell(&PgValue::TimestampTz(None)), None);
    assert_eq!(pg_cell(&PgValue::Bool(None)), None);
    assert_eq!(pg_cell(&PgValue::Interval(None)), None);
    assert_eq!(ora_cell(&OraValue::Null), None);
    assert_eq!(sqlite_cell(&SqliteValue::Null), None);
    assert_eq!(my_cell(&MyValue::Null), None);
}

#[test]
fn normalizer_formats_numbers_text_and_booleans() {
    assert_eq!(pg_cell(&PgValue::Int8(Some(-42))), Some("-42".to_string()));
    assert_eq!(pg_cell(&PgValue::Int2(Some(7))), Some("7".to_string()));
    assert_eq!(pg_cell(&PgValue::Bool(Some(true))), Some("true".to_string()));
    assert_eq!(pg_cell(&PgValue::Bool(Some(false))), Some("false".to_string()));
    assert_eq!(
        pg_cell(&PgValue::Text(Some("hi".to_string()))),
        Some("hi".to_string())
    );
    assert_eq!(
        pg_cell(&PgValue::Other("Oid".to_string())),
        Some("?Oid".to_string())
    );
    assert_eq!(pg_cell(&PgValue::Missing), Some("???".to_string()));
    assert_eq!(ora_cell(&OraValue::Number("2.5".to_string())), Some("2.5".to_string()));
    assert_eq!(ora_cell(&OraValue::Other), Some("???".to_string()));
    assert_eq!(sqlite_cell(&SqliteValue::Blob), Some("???".to_string()));
    assert_eq!(my_cell(&MyValue::Other), Some("x".to_string()));
    assert_eq!(my_cell(&MyValue::Int(-3)), Some("-3".to_string()));
}

#[test]
fn datetime_renders_iso_style() {
    let d = DateTime { year: 2020, month: 1, day: 2, hour: 3, minute: 4, second: 5, micro: 0 };
    assert_eq!(d.to_text(), "2020-01-02 03:04:05");
    let d2 = DateTime { year: 999, month: 12, day: 31, hour: 23, minute: 59, second: 59, micro: 12000 };
    assert_eq!(d2.to_text(), "0999-12-31 23:59:59.012");
    let d3 = DateTime { year: 2021, month: 6, day: 7, hour: 8, minute: 9, second: 10, micro: 123456 };
    assert_eq!(d3.to_text(), "2021-06-07 08:09:10.123456");
    let tz = TzDateTime { dt: d, offset_seconds: 0 };
    assert_eq!(tz.to_text(), "2020-01-02 03:04:05 +00:00");
    let tz2 = TzDateTime { dt: d, offset_seconds: -19800 };
    assert_eq!(tz2.to_text(), "2020-01-02 03:04:05 -05:30");
}

#[test]
fn interval_renders_duration_style() {
    let iv = Interval { seconds: 3661, microseconds: 500000, days: 2, months: 1 };
    assert_eq!(iv.to_iso_string(), "P1M2DT1H1M1.500000S");
    let zero = Interval { seconds: 0, microseconds: 0, days: 0, months: 0 };
    assert_eq!(zero.to_iso_string(), "PT");
    let days_only = Interval { seconds: 0, microseconds: 0, days: 3, months: 0 };
    assert_eq!(days_only.to_iso_string(), "P3DT");
    let negative = Interval { seconds: -61, microseconds: -1, days: 0, months: 0 };
    assert_eq!(negative.to_iso_string(), "PT0H-1M-1.-00001S");
}

#[test]
fn interval_decodes_from_wire_bytes() {
    let mut buf = Vec::new();
    buf.extend_from_slice(&3661500000i64.to_be_bytes());
    buf.extend_from_slice(&2i32.to_be_bytes());
    buf.extend_from_slice(&1i32.to_be_bytes());
    let iv = interval_from_sql(&buf).unwrap();
    assert_eq!(iv.seconds, 3661);
    assert_eq!(iv.microseconds, 500000);
    assert_eq!(iv.days, 2);
    assert_eq!(iv.months, 1);

    let neg = (-1500001i64).to_be_bytes();
    let mut buf2 = Vec::new();
    buf2.extend_from_slice(&neg);
    buf2.extend_from_slice(&(-4i32).to_be_bytes());
    buf2.extend_from_slice(&0i32.to_be_bytes());
    let iv2 = interval_from_sql(&buf2).unwrap();
    assert_eq!(iv2.seconds, -1);
    assert_eq!(iv2.microseconds, -500001);
    assert_eq!(iv2.days, -4);
    assert_eq!(iv2.months, 0);

    let short = interval_from_sql(&buf[0..15]);
    assert!(matches!(short, Err(Error::QueryExecutionError(_))));
}

#[test]
fn zero_columns_is_no_result_error_distinct_from_zero_rows() {
    let none = build_query_result(Vec::new(), Vec::new());
    assert!(matches!(none, Err(Error::NoResultError)));
    let empty = build_query_result(vec!["a".to_string()], Vec::new()).unwrap();
    assert_eq!(empty.columns.len(), 1);
    assert_eq!(empty.rows.len(), 0);
}

#[test]
fn create_connection_plans_postgres() {
    let p = params(Some("pg"), Some("//localhost:5432/mydb"), Some("u"), Some("s"), None);
    let plan = create_connection("dev", p).unwrap();
    assert_eq!(plan.identifier, "dev");
    match plan.backend {
        BackendPlan::Postgres { host, port, dbname, user, password } => {
            assert_eq!(host, "localhost");
            assert_eq!(port, "5432");
            assert_eq!(dbname, "mydb");
            assert_eq!(user, "u");
            assert_eq!(password, "s");
        }
        other => panic!("wrong backend: {:?}", other),
    }
    let scheme = params(
        Some("postgresql"),
        Some("postgres://db.example.com:6432/prod_db"),
        Some("u"),
        Some("s"),
        None,
    );
    let plan2 = create_connection("x", scheme).unwrap();
    match plan2.backend {
        BackendPlan::Postgres { host, port, dbname, .. } => {
            assert_eq!(host, "db.example.com");
            assert_eq!(port, "6432");
            assert_eq!(dbname, "prod_db");
        }
        other => panic!("wrong backend: {:?}", other),
    }
}

#[test]
fn create_connection_rejects_bad_postgres_urls() {
    let bad = params(Some("pg"), Some("//localhost/mydb"), Some("u"), Some("s"), None);
    assert!(matches!(create_connection("dev", bad), Err(Error::ConnectionError(_))));
    let empty_port = params(Some("pg"), Some("//h:/db"), Some("u"), Some("s"), None);
    assert!(matches!(create_connection("dev", empty_port), Err(Error::ConnectionError(_))));
    let no_url = params(Some("pg"), None, Some("u"), Some("s"), None);
    assert!(matches!(create_connection("dev", no_url), Err(Error::ConnectionError(_))));
    let no_user = params(Some("pg"), Some("//h:1/d"), None, Some("s"), None);
    assert!(matches!(create_connection("dev", no_user), Err(Error::ConnectionError(_))));
}

#[test]
fn create_connection_plans_sqlite_oracle_mysql() {
    let mem = params(Some("sqlite"), Some("memory"), None, None, None);
    assert!(matches!(
        create_connection("s", mem).unwrap().backend,
        BackendPlan::SqliteMemory
    ));
    let file = params(Some("sqlite"), Some("/tmp/x.db"), None, None, None);
    match create_connection("s", file).unwrap().backend {
        BackendPlan::SqliteFile { path } => assert_eq!(path, "/tmp/x.db"),
        other => panic!("wrong backend: {:?}", other),
    }

    // Oracle is the default backend when no type is configured.
    let ora = params(None, Some("dbhost/XE"), Some("scott"), Some("tiger"), None);
    match create_connection("o", ora).unwrap().backend {
        BackendPlan::Oracle { connect, user, password } => {
            assert_eq!(connect, "dbhost/XE");
            assert_eq!(user, "scott");
            assert_eq!(password, "tiger");
        }
        other => panic!("wrong backend: {:?}", other),
    }
    let ora2 = params(Some("oracle"), Some("dbhost"), Some("scott"), Some("tiger"), Some("XE"));
    match create_connection("o", ora2).unwrap().backend {
        BackendPlan::Oracle { connect, .. } => assert_eq!(connect, "//dbhost/XE"),
        other => panic!("wrong backend: {:?}", other),
    }

    let my = params(Some("mysql"), Some("//myhost/shop"), Some("u"), None, None);
    match create_connection("m", my).unwrap().backend {
        BackendPlan::MySql { host, dbname, user, password } => {
            assert_eq!(host, "myhost");
            assert_eq!(dbname, "shop");
            assert_eq!(user, Some("u".to_string()));
            assert_eq!(password, None);
        }
        other => panic!("wrong backend: {:?}", other),
    }

    let unknown = params(Some("mongodb"), Some("//h/d"), None, None, None);
    assert!(matches!(create_connection("u", unknown), Err(Error::ConnectionError(_))));
}

#[test]
fn prompt_shows_identifier_and_backend_tag() {
    let plan = ConnectionPlan { identifier: "dev".to_string(), backend: BackendPlan::SqliteMemory };
    assert_eq!(plan.prompt(), "dev (sqlite)> ");
    let plan2 = ConnectionPlan {
        identifier: "p".to_string(),
        backend: BackendPlan::Postgres {
            host: "h".to_string(),
            port: "1".to_string(),
            dbname: "d".to_string(),
            user: "u".to_string(),
            password: "s".to_string(),
        },
    };
    assert_eq!(plan2.prompt(), "p (pg)> ");
}

#[test]
fn describe_on_missing_object_is_a_not_found_error() {
    let err = describe_resolve("no_such_table", None).unwrap_err();
    match &err {
        Error::NotFoundError(name) => assert_eq!(name, "no_such_table"),
        other => panic!("wrong error: {:?}", other),
    }
    assert_eq!(err.message(), "object not found: no_such_table");
    let ora_err = ora_describe_resolve("gone", None).unwrap_err();
    assert!(matches!(ora_err, Error::NotFoundError(_)));
}

#[test]
fn describe_resolves_object_kinds() {
    assert_eq!(describe_resolve("t", Some("r".to_string())).unwrap(), DescribeAction::Columns);
    assert_eq!(describe_resolve("s", Some("S".to_string())).unwrap(), DescribeAction::Sequence);
    assert_eq!(describe_resolve("v", Some("v".to_string())).unwrap(), DescribeAction::Nothing);
    assert_eq!(
        ora_describe_resolve("t", Some("TABLE".to_string())).unwrap(),
        DescribeAction::Columns
    );
    assert_eq!(
        ora_describe_resolve("v", Some("VIEW".to_string())).unwrap(),
        DescribeAction::Nothing
    );
    assert_eq!(readable_type("r"), "table");
    assert_eq!(readable_type("S"), "sequence");
    assert_eq!(readable_type("m"), "materialized view");
    assert_eq!(readable_type("z"), "unkown object");
    assert_eq!(describe_banner("users", "r"), "users is a table");
    assert_eq!(search_row("users", "r"), vec!["users".to_string(), "table".to_string()]);
}

#[test]
fn describe_lines_format_metadata() {
    let line = describe_column_line("id", "integer", Some(32), "NO", None);
    assert_eq!(line, vec!["id", "integer", "32", "NO", ""]);
    let line2 = describe_column_line("name", "text", None, "YES", Some("'x'".to_string()));
    assert_eq!(line2, vec!["name", "text", "", "YES", "'x'"]);
    let ora = ora_describe_column_line("ID", "NUMBER", 22, Some(10), Some("N".to_string()), None);
    assert_eq!(ora, vec!["ID", "NUMBER", "22", "10", "N", ""]);
    let seq = describe_sequence_lines("s", 1, 1, 100, 5);
    assert_eq!(seq.len(), 5);
    assert_eq!(seq[0], vec!["name", "s"]);
    assert_eq!(seq[1], vec!["start_value", "1"]);
    assert_eq!(seq[3], vec!["max_value", "100"]);
    assert_eq!(seq[4], vec!["increment_by", "5"]);
    assert_eq!(
        foreign_key_line("user_id", "public", "users", "id"),
        "  user_id -> public.users (id)"
    );
}

#[test]
fn table_refs_are_lowercased() {
    let tr = normalize_table_ref("PUBLIC", "Users");
    assert_eq!(tr.schema, "public");
    assert_eq!(tr.name, "users");
}

#[test]
fn standard_queries_are_found_by_name() {
    let queries = pg_standard_queries();
    assert_eq!(queries.len(), 3);
    let locks = find_standard_query(&queries, "locks").unwrap();
    assert!(locks.contains("pg_locks"));
    assert!(find_standard_query(&queries, "nope").is_none());
}

#[test]
fn unsupported_operations_carry_a_clear_error() {
    let e = dbc::db::unsupported_operation("describe", "SQLite");
    match &e {
        Error::UnsupportedOperationError(m) => {
            assert_eq!(m, "describe is not supported for SQLite");
        }
        other => panic!("wrong error: {:?}", other),
    }
    assert_eq!(e.message(), "describe is not supported for SQLite");
}

#[test]
fn rows_updated_message_formats_count() {
    assert_eq!(rows_updated_message(0), "0 rows updated.");
    assert_eq!(rows_updated_message(37), "37 rows updated.");
}
