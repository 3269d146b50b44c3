use dbc::db::{build_query_result, pg_standard_queries, StandardQuery};
use dbc::dispatch::{
    classify_line, dispatch_command, Action, Command, ExportFormat, ExportTarget, SetKey,
};
use dbc::render::{render_result, RenderedTable};
use dbc::ui::{complete, highlight_words, hint, is_keyword, DbcClient, DbcClientOptions, Helper};

fn result_with(rows: usize, cols: usize) -> dbc::db::QueryResult {
    let names: Vec<String> = (0..cols).map(|j| format!("c{}", j)).collect();
    let cells: Vec<Vec<Option<String>>> = (0..rows)
        .map(|i| (0..cols).map(|j| Some(format!("v{}_{}", i, j))).collect())
        .collect();
    build_query_result(names, cells).unwrap()
}

#[test]
fn classify_recognizes_meta_commands() {
    assert_eq!(classify_line("   "), Command::Empty);
    assert_eq!(
        classify_line(":set row_limit 3"),
        Command::SetOption { key: SetKey::RowLimit, value: 3 }
    );
    assert_eq!(
        classify_line(":set column_limit 2"),
        Command::SetOption { key: SetKey::ColumnLimit, value: 2 }
    );
    assert_eq!(classify_line(":set row_limit x"), Command::SetBadValue);
    assert_eq!(classify_line(":set verbosity 3"), Command::SetIgnored);
    assert_eq!(classify_line(":set row_limit"), Command::SetIgnored);
    assert_eq!(classify_line(":list"), Command::ShowLast);
    assert_eq!(classify_line(":all"), Command::ShowAll);
    assert_eq!(
        classify_line(":export csv -"),
        Command::Export { format: ExportFormat::Csv, target: ExportTarget::Stdout }
    );
    assert_eq!(
        classify_line(":export insert out.sql"),
        Command::Export {
            format: ExportFormat::Insert,
            target: ExportTarget::File("out.sql".to_string())
        }
    );
    assert_eq!(classify_line(":export pdf out"), Command::ExportBadFormat);
    assert_eq!(classify_line(":export csv"), Command::ExportIgnored);
    assert_eq!(classify_line(":frobnicate"), Command::Unsupported);
    assert_eq!(classify_line("@locks"), Command::RunSaved { name: "locks".to_string() });
    assert_eq!(
        classify_line("select 1;"),
        Command::RunRaw { statement: "select 1".to_string() }
    );
    assert_eq!(
        classify_line(" update t set x=1 ; "),
        Command::RunRaw { statement: "update t set x=1 ".to_string() }
    );
}

#[test]
fn list_and_all_without_last_query_only_report() {
    let mut client = DbcClient::default();
    let queries: Vec<StandardQuery> = Vec::new();
    let a = dispatch_command(&mut client, &queries, classify_line(":list"));
    assert_eq!(a, Action::ReportNoLastQuery);
    assert_eq!(client.last_select, None);
    let b = dispatch_command(&mut client, &queries, classify_line(":all"));
    assert_eq!(b, Action::ReportNoLastQuery);
    assert_eq!(client.last_select, None);
    assert_eq!(client.options, DbcClientOptions::default());
}

#[test]
fn select_runs_as_query_and_is_remembered() {
    let mut client = DbcClient::default();
    let queries: Vec<StandardQuery> = Vec::new();
    let a = dispatch_command(&mut client, &queries, classify_line("select a from t;"));
    assert_eq!(
        a,
        Action::RunQuery { statement: "select a from t".to_string(), row_limit: 20 }
    );
    assert_eq!(client.last_select, Some("select a from t".to_string()));

    let list = dispatch_command(&mut client, &queries, classify_line(":list"));
    assert_eq!(
        list,
        Action::RunQuery { statement: "select a from t".to_string(), row_limit: 1 }
    );
    let all = dispatch_command(&mut client, &queries, classify_line(":all"));
    assert_eq!(
        all,
        Action::RunQuery { statement: "select a from t".to_string(), row_limit: 1000 }
    );
}

#[test]
fn non_select_runs_as_execute_and_is_not_remembered() {
    let mut client = DbcClient::default();
    let queries: Vec<StandardQuery> = Vec::new();
    let a = dispatch_command(&mut client, &queries, classify_line("delete from t"));
    assert_eq!(a, Action::RunExecute { statement: "delete from t".to_string() });
    assert_eq!(client.last_select, None);
}

#[test]
fn set_changes_limits_for_later_renders() {
    let mut client = DbcClient::default();
    let queries: Vec<StandardQuery> = Vec::new();
    let a = dispatch_command(&mut client, &queries, classify_line(":set row_limit 3"));
    assert_eq!(a, Action::DoNothing);
    assert_eq!(client.options.row_limit, 3);
    assert_eq!(client.options.column_limit, 10);

    let res = result_with(10, 1);
    match render_result(&res, client.options.row_limit, client.options.column_limit) {
        RenderedTable::Horizontal(_, body) => assert_eq!(body.len(), 3),
        RenderedTable::Vertical(_) => panic!("expected the horizontal layout"),
    }

    dispatch_command(&mut client, &queries, classify_line(":set column_limit 2"));
    assert_eq!(client.options.column_limit, 2);
    let wide = result_with(4, 5);
    match render_result(&wide, client.options.row_limit, client.options.column_limit) {
        RenderedTable::Horizontal(header, body) => {
            assert_eq!(header.len(), 2);
            for row in &body {
                assert_eq!(row.len(), 2);
            }
        }
        RenderedTable::Vertical(_) => panic!("expected the horizontal layout"),
    }
}

#[test]
fn saved_queries_run_under_the_bulk_limit() {
    let mut client = DbcClient::default();
    let queries = pg_standard_queries();
    let a = dispatch_command(&mut client, &queries, classify_line("@locks"));
    match a {
        Action::RunQuery { statement, row_limit } => {
            assert!(statement.starts_with("select blocked_locks"));
            assert_eq!(row_limit, 1000);
        }
        other => panic!("wrong action: {:?}", other),
    }
    let missing = dispatch_command(&mut client, &queries, classify_line("@sessions"));
    assert_eq!(missing, Action::ReportQueryNotFound { name: "sessions".to_string() });
}

#[test]
fn export_commands_need_a_last_query() {
    let mut client = DbcClient::default();
    let queries: Vec<StandardQuery> = Vec::new();
    let a = dispatch_command(&mut client, &queries, classify_line(":export csv -"));
    assert_eq!(a, Action::ReportNoLastQuery);
    let b = dispatch_command(&mut client, &queries, classify_line(":export pdf x"));
    assert_eq!(b, Action::ReportNoLastQuery);

    client.set_last_select("select a from t");
    let c = dispatch_command(&mut client, &queries, classify_line(":export csv -"));
    assert_eq!(
        c,
        Action::ExportCsv {
            statement: "select a from t".to_string(),
            target: ExportTarget::Stdout
        }
    );
    let d = dispatch_command(&mut client, &queries, classify_line(":export pdf x"));
    assert_eq!(d, Action::ReportFormatNotSupported);
    let e = dispatch_command(&mut client, &queries, classify_line(":bogus"));
    assert_eq!(e, Action::ReportUnsupportedCommand);
}

#[test]
fn excel_to_stdout_is_refused_before_any_io() {
    let mut client = DbcClient::default();
    client.set_last_select("select a from t");
    let queries: Vec<StandardQuery> = Vec::new();
    let a = dispatch_command(&mut client, &queries, classify_line(":export excel -"));
    assert_eq!(
        a,
        Action::ReportExportError {
            error: dbc::db::Error::ExportError(
                "Export of Excel to stdout not supported".to_string()
            )
        }
    );
    let b = dispatch_command(&mut client, &queries, classify_line(":export excel out.xlsx"));
    assert_eq!(
        b,
        Action::ExportExcel { statement: "select a from t".to_string(), path: "out.xlsx".to_string() }
    );
}

#[test]
fn rendering_twice_gives_identical_output() {
    let names = vec!["a".to_string(), "b".to_string()];
    let cells = vec![
        vec![Some("1".to_string()), None],
        vec![Some("2".to_string()), Some("".to_string())],
        vec![None, Some("3".to_string())],
    ];
    let res = build_query_result(names, cells).unwrap();
    let opts = DbcClientOptions::default();
    let once = render_result(&res, opts.row_limit, opts.column_limit);
    let twice = render_result(&res, opts.row_limit, opts.column_limit);
    assert_eq!(once, twice);
}

#[test]
fn row_limit_boundary_shows_exactly_the_limit() {
    let limit: usize = 4;
    let res = result_with(limit + 5, 2);
    match render_result(&res, limit, 10) {
        RenderedTable::Horizontal(_, body) => assert_eq!(body.len(), limit),
        RenderedTable::Vertical(_) => panic!("expected the horizontal layout"),
    }
}

#[test]
fn null_renders_as_literal_null_in_both_layouts() {
    let names = vec!["a".to_string(), "b".to_string()];
    let cells = vec![vec![Some("x".to_string()), None]];
    let res = build_query_result(names.clone(), cells.clone()).unwrap();
    // one row: the vertical layout
    match render_result(&res, 20, 10) {
        RenderedTable::Vertical(rows) => {
            assert_eq!(rows.len(), 2);
            assert_eq!(rows[0][0].text, "a");
            assert_eq!(rows[0][1].text, "x");
            assert!(!rows[0][1].is_null);
            assert_eq!(rows[1][0].text, "b");
            assert_eq!(rows[1][1].text, "NULL");
            assert!(rows[1][1].is_null);
        }
        RenderedTable::Horizontal(_, _) => panic!("expected the vertical layout"),
    }
    // two rows: the horizontal layout
    let two = vec![
        vec![Some("x".to_string()), None],
        vec![None, Some("NULL".to_string())],
    ];
    let res2 = build_query_result(names, two).unwrap();
    match render_result(&res2, 20, 10) {
        RenderedTable::Horizontal(header, body) => {
            assert_eq!(header, vec!["a", "b"]);
            assert_eq!(body[0][1].text, "NULL");
            assert!(body[0][1].is_null);
            // a real string "NULL" renders the same text without the mark
            assert_eq!(body[1][1].text, "NULL");
            assert!(!body[1][1].is_null);
            assert!(body[1][0].is_null);
        }
        RenderedTable::Vertical(_) => panic!("expected the horizontal layout"),
    }
}

#[test]
fn vertical_layout_under_row_limit_one() {
    let res = result_with(5, 2);
    match render_result(&res, 1, 10) {
        RenderedTable::Vertical(rows) => {
            assert_eq!(rows.len(), 2);
            assert_eq!(rows[0][0].text, "c0");
            assert_eq!(rows[0][1].text, "v0_0");
        }
        RenderedTable::Horizontal(_, _) => panic!("expected the vertical layout"),
    }
}

#[test]
fn empty_result_renders_headers_only() {
    let res = build_query_result(vec!["a".to_string()], Vec::new()).unwrap();
    match render_result(&res, 1, 10) {
        RenderedTable::Horizontal(header, body) => {
            assert_eq!(header, vec!["a"]);
            assert_eq!(body.len(), 0);
        }
        RenderedTable::Vertical(_) => panic!("expected the horizontal layout"),
    }
}

#[test]
fn keywords_are_recognized() {
    assert!(is_keyword("select"));
    assert!(is_keyword("from"));
    assert!(is_keyword("or"));
    assert!(!is_keyword("Select"));
    assert!(!is_keyword("table"));
    let words = highlight_words("select * from t");
    let expected = vec![
        ("select".to_string(), true),
        ("*".to_string(), false),
        ("from".to_string(), true),
        ("t".to_string(), false),
    ];
    assert_eq!(words, expected);
}

#[test]
fn completion_matches_each_prefix_kind() {
    let helper = Helper {
        completions: vec!["users".to_string(), "orders".to_string()],
        query_completions: vec!["locks".to_string(), "queries".to_string()],
        command_completions: vec!["set".to_string(), "list".to_string()],
    };
    let (start, words) = complete(&helper, "@lo", 3);
    assert_eq!(start, 1);
    assert_eq!(words, vec!["locks"]);
    let (start2, words2) = complete(&helper, ":l", 2);
    assert_eq!(start2, 1);
    assert_eq!(words2, vec!["list"]);
    let (start3, words3) = complete(&helper, "select us", 9);
    assert_eq!(start3, 7);
    assert_eq!(words3, vec!["users"]);
}

#[test]
fn hints_offer_the_untyped_tail() {
    let helper = Helper {
        completions: vec!["customers".to_string()],
        query_completions: vec!["locks".to_string()],
        command_completions: Vec::new(),
    };
    assert_eq!(hint(&helper, "@lo", 3), Some("cks".to_string()));
    assert_eq!(hint(&helper, "select cust", 11), Some("omers".to_string()));
    assert_eq!(hint(&helper, "sel", 3), None);
}
