//! The command dispatcher: one pass over one input line classifies it
//! as a meta-command, a saved-query invocation or a raw statement, and
//! one step over the session state decides what the surrounding loop
//! must do next.
//!
//! The loop itself — reading lines, touching the connection, printing —
//! lives outside; this module only maps a line and the session state to
//! the next action and the next state.

use vstd::prelude::*;

use crate::db::{sq_lookup, StandardQuery};
use crate::strutil::{
    dec_val, drop_semis, is_prefix, is_usize_literal, parse_usize, starts_with, str_eq,
    strip_plus, tokenize, tokens_of, trim, trim_end_semicolons, trimmed,
};
use crate::ui::DbcClient;

verus! {

/// Which session option a `:set` addresses.
#[derive(Debug, Clone, Copy, PartialEq, Eq, Structural)]
pub enum SetKey {
    RowLimit,
    ColumnLimit,
}

/// An export serializer.
#[derive(Debug, Clone, Copy, PartialEq, Eq, Structural)]
pub enum ExportFormat {
    Csv,
    Insert,
    Excel,
}

/// Where an export goes: the terminal, or a named file.
#[derive(Debug, Clone, PartialEq)]
pub enum ExportTarget {
    Stdout,
    File(String),
}

/// The two targets match, file paths by text.
pub open spec fn target_matches(a: ExportTarget, b: ExportTarget) -> bool {
    match (a, b) {
        (ExportTarget::Stdout, ExportTarget::Stdout) => true,
        (ExportTarget::File(p), ExportTarget::File(q)) => p@ == q@,
        _ => false,
    }
}

/// One classified input line.
#[derive(Debug, Clone, PartialEq)]
pub enum Command {
    /// Nothing but whitespace.
    Empty,
    /// `:set` with a known key and a readable number.
    SetOption { key: SetKey, value: usize },
    /// `:set` with a known key and an unreadable number.
    SetBadValue,
    /// `:set` with an unknown key or the wrong number of words;
    /// silently ignored.
    SetIgnored,
    /// `:list`.
    ShowLast,
    /// `:all`.
    ShowAll,
    /// `:export` with a known format and a target.
    Export { format: ExportFormat, target: ExportTarget },
    /// `:export` with an unknown format.
    ExportBadFormat,
    /// `:export` with the wrong number of words; silently ignored.
    ExportIgnored,
    /// Any other line starting with `:`.
    Unsupported,
    /// `@name`: run the standard query of that name.
    RunSaved { name: String },
    /// Anything else: a raw SQL statement.
    RunRaw { statement: String },
}

/// The line, trimmed, is a meta-command.
pub open spec fn is_meta(line: Seq<char>) -> bool {
    trimmed(line).len() > 0 && trimmed(line)[0] == ':'
}

/// The words of a meta-command line.
pub open spec fn meta_tokens(line: Seq<char>) -> Seq<Seq<char>> {
    tokens_of(trimmed(line))
}

/// Classifies one input line.
///
/// The contract pins, for every variant, exactly the lines that
/// produce it and the payload they carry; the arms partition the
/// inputs.
pub fn classify_line(line: &str) -> (r: Command)
    ensures
        match r {
            Command::Empty => trimmed(line@).len() == 0,
            Command::SetOption { key, value } => {
                &&& is_meta(line@)
                &&& meta_tokens(line@)[0] == ":set"@
                &&& meta_tokens(line@).len() == 3
                &&& (key == SetKey::RowLimit <==> meta_tokens(line@)[1] == "row_limit"@)
                &&& (key == SetKey::ColumnLimit <==> meta_tokens(line@)[1] == "column_limit"@)
                &&& is_usize_literal(meta_tokens(line@)[2])
                &&& value as nat == dec_val(strip_plus(meta_tokens(line@)[2]))
            },
            Command::SetBadValue => {
                &&& is_meta(line@)
                &&& meta_tokens(line@)[0] == ":set"@
                &&& meta_tokens(line@).len() == 3
                &&& (meta_tokens(line@)[1] == "row_limit"@ || meta_tokens(line@)[1]
                    == "column_limit"@)
                &&& !is_usize_literal(meta_tokens(line@)[2])
            },
            Command::SetIgnored => {
                &&& is_meta(line@)
                &&& meta_tokens(line@)[0] == ":set"@
                &&& (meta_tokens(line@).len() != 3 || (meta_tokens(line@)[1] != "row_limit"@
                    && meta_tokens(line@)[1] != "column_limit"@))
            },
            Command::ShowLast => is_meta(line@) && meta_tokens(line@)[0] == ":list"@,
            Command::ShowAll => is_meta(line@) && meta_tokens(line@)[0] == ":all"@,
            Command::Export { format, target } => {
                &&& is_meta(line@)
                &&& meta_tokens(line@)[0] == ":export"@
                &&& meta_tokens(line@).len() == 3
                &&& (format == ExportFormat::Csv <==> meta_tokens(line@)[1] == "csv"@)
                &&& (format == ExportFormat::Insert <==> meta_tokens(line@)[1] == "insert"@)
                &&& (format == ExportFormat::Excel <==> meta_tokens(line@)[1] == "excel"@)
                &&& match target {
                    ExportTarget::Stdout => meta_tokens(line@)[2] == "-"@,
                    ExportTarget::File(p) => meta_tokens(line@)[2] != "-"@ && p@ == meta_tokens(
                        line@,
                    )[2],
                }
            },
            Command::ExportBadFormat => {
                &&& is_meta(line@)
                &&& meta_tokens(line@)[0] == ":export"@
                &&& meta_tokens(line@).len() == 3
                &&& meta_tokens(line@)[1] != "csv"@
                &&& meta_tokens(line@)[1] != "insert"@
                &&& meta_tokens(line@)[1] != "excel"@
            },
            Command::ExportIgnored => {
                &&& is_meta(line@)
                &&& meta_tokens(line@)[0] == ":export"@
                &&& meta_tokens(line@).len() != 3
            },
            Command::Unsupported => {
                &&& is_meta(line@)
                &&& meta_tokens(line@)[0] != ":set"@
                &&& meta_tokens(line@)[0] != ":list"@
                &&& meta_tokens(line@)[0] != ":all"@
                &&& meta_tokens(line@)[0] != ":export"@
            },
            Command::RunSaved { name } => {
                &&& trimmed(line@).len() > 0
                &&& trimmed(line@)[0] == '@'
                &&& name@ == trimmed(line@).skip(1)
            },
            Command::RunRaw { statement } => {
                &&& trimmed(line@).len() > 0
                &&& trimmed(line@)[0] != ':'
                &&& trimmed(line@)[0] != '@'
                &&& statement@ == drop_semis(trimmed(line@))
            },
        },
{
    let t = trim(line);
    let tl = t.unicode_len();
    if tl == 0 {
        return Command::Empty;
    }
    let c0 = t.get_char(0);
    if c0 == ':' {
        let toks = tokenize(t);
        proof {
            assert(!crate::strutil::is_ws(t@[0]));
            assert(meta_tokens(line@).len() >= 1);
            assert(toks@.map_values(|s: String| s@) == meta_tokens(line@));
            assert(toks@[0]@ == meta_tokens(line@)[0]);
        }
        let nt = toks.len();
        if str_eq(toks[0].as_str(), ":set") {
            if nt == 3 {
                proof {
                    assert(toks@[1]@ == meta_tokens(line@)[1]);
                    assert(toks@[2]@ == meta_tokens(line@)[2]);
                }
                proof {
                    reveal_strlit("row_limit");
                    reveal_strlit("column_limit");
                }
                let is_row = str_eq(toks[1].as_str(), "row_limit");
                let is_col = str_eq(toks[1].as_str(), "column_limit");
                if is_row || is_col {
                    match parse_usize(toks[2].as_str()) {
                        Some(v) => Command::SetOption {
                            key: if is_row {
                                SetKey::RowLimit
                            } else {
                                SetKey::ColumnLimit
                            },
                            value: v,
                        },
                        None => Command::SetBadValue,
                    }
                } else {
                    Command::SetIgnored
                }
            } else {
                Command::SetIgnored
            }
        } else if str_eq(toks[0].as_str(), ":list") {
            Command::ShowLast
        } else if str_eq(toks[0].as_str(), ":all") {
            Command::ShowAll
        } else if str_eq(toks[0].as_str(), ":export") {
            if nt == 3 {
                proof {
                    assert(toks@[1]@ == meta_tokens(line@)[1]);
                    assert(toks@[2]@ == meta_tokens(line@)[2]);
                }
                proof {
                    reveal_strlit("csv");
                    reveal_strlit("insert");
                    reveal_strlit("excel");
                }
                let is_csv = str_eq(toks[1].as_str(), "csv");
                let is_insert = str_eq(toks[1].as_str(), "insert");
                let is_excel = str_eq(toks[1].as_str(), "excel");
                if is_csv || is_insert || is_excel {
                    let format = if is_csv {
                        ExportFormat::Csv
                    } else if is_insert {
                        ExportFormat::Insert
                    } else {
                        ExportFormat::Excel
                    };
                    let target = if str_eq(toks[2].as_str(), "-") {
                        ExportTarget::Stdout
                    } else {
                        ExportTarget::File(toks[2].clone())
                    };
                    Command::Export { format, target }
                } else {
                    Command::ExportBadFormat
                }
            } else {
                Command::ExportIgnored
            }
        } else {
            Command::Unsupported
        }
    } else if c0 == '@' {
        let name = t.substring_char(1, tl);
        proof {
            assert(name@ =~= trimmed(line@).skip(1));
        }
        Command::RunSaved { name: name.to_owned() }
    } else {
        let statement = trim_end_semicolons(t);
        Command::RunRaw { statement: statement.to_owned() }
    }
}

/// What the surrounding loop must do after one line.
#[derive(Debug, Clone, PartialEq)]
pub enum Action {
    /// Nothing; read the next line.
    DoNothing,
    /// Say that the `:set` value was not a number.
    ReportBadSetValue,
    /// Say `ERROR: Unsupported command`.
    ReportUnsupportedCommand,
    /// Say `Format not supported`.
    ReportFormatNotSupported,
    /// Say `No last query.`.
    ReportNoLastQuery,
    /// Say that no standard query has this name.
    ReportQueryNotFound { name: String },
    /// Say that the export cannot be done, before any I/O.
    ReportExportError { error: crate::db::Error },
    /// Run the statement as a query and render the result under the
    /// given row limit.
    RunQuery { statement: String, row_limit: usize },
    /// Run the statement as a non-query and report the affected rows.
    RunExecute { statement: String },
    /// Export the result of the statement as CSV.
    ExportCsv { statement: String, target: ExportTarget },
    /// Export the result of the statement as INSERT statements.
    ExportInsert { statement: String, target: ExportTarget },
    /// Export the result of the statement as a workbook file.
    ExportExcel { statement: String, path: String },
}

/// A statement is a query exactly when it begins with `select`,
/// case-sensitively.
pub open spec fn is_select(st: Seq<char>) -> bool {
    is_prefix("select"@, st)
}

/// How one statement runs: the relation between the session before and
/// after, the statement text, and the chosen action.
///
/// The trimmed statement with trailing semicolons dropped runs as a
/// query — and becomes the remembered last `select` — exactly when it
/// begins with `select`; anything else runs as a plain execute and
/// leaves the session unchanged.
pub open spec fn statement_action_post(
    c0: DbcClient,
    c1: DbcClient,
    raw: Seq<char>,
    row_limit: int,
    a: Action,
) -> bool {
    let st = drop_semis(trimmed(raw));
    if is_select(st) {
        &&& a matches Action::RunQuery { statement, row_limit: rl } && statement@ == st
            && rl as int == row_limit
        &&& c1.last_select matches Some(ls) && ls@ == st
        &&& c1.options == c0.options
    } else {
        &&& a matches Action::RunExecute { statement } && statement@ == st
        &&& c1 == c0
    }
}

/// Runs one raw statement text against the session: classifies it as
/// `select` or not, remembers a `select`, and names the action.
fn run_statement(client: &mut DbcClient, raw: &str, row_limit: usize) -> (a: Action)
    ensures
        statement_action_post(*old(client), *final(client), raw@, row_limit as int, a),
{
    let t = trim(raw);
    let st = trim_end_semicolons(t);
    if starts_with(st, "select") {
        client.set_last_select(st);
        Action::RunQuery { statement: st.to_owned(), row_limit }
    } else {
        Action::RunExecute { statement: st.to_owned() }
    }
}

/// One dispatcher step: applies a classified command to the session
/// and names the action the loop must take.
///
/// `:list` and `:all` replay the remembered `select` under a row limit
/// of one and of one thousand; with nothing remembered they only
/// report, and run nothing. A saved query runs under a limit of one
/// thousand; a raw statement under the session's row limit. Exporting
/// a workbook to the terminal is refused here, before any I/O.
pub fn dispatch_command(client: &mut DbcClient, queries: &Vec<StandardQuery>, cmd: Command) -> (a:
    Action)
    ensures
        match cmd {
            Command::Empty => a is DoNothing && *final(client) == *old(client),
            Command::SetOption { key, value } => {
                &&& a is DoNothing
                &&& final(client).last_select == old(client).last_select
                &&& match key {
                    SetKey::RowLimit => final(client).options.row_limit == value && final(client).options.column_limit == old(client).options.column_limit,
                    SetKey::ColumnLimit => final(client).options.column_limit == value && final(client).options.row_limit == old(client).options.row_limit,
                }
            },
            Command::SetBadValue => a is ReportBadSetValue && *final(client) == *old(client),
            Command::SetIgnored => a is DoNothing && *final(client) == *old(client),
            Command::ShowLast => match old(client).last_select {
                None => a is ReportNoLastQuery && *final(client) == *old(client),
                Some(l) => statement_action_post(*old(client), *final(client), l@, 1, a),
            },
            Command::ShowAll => match old(client).last_select {
                None => a is ReportNoLastQuery && *final(client) == *old(client),
                Some(l) => statement_action_post(*old(client), *final(client), l@, 1000, a),
            },
            Command::Export { format, target } => *final(client) == *old(client) && match old(
                client
            ).last_select {
                None => a is ReportNoLastQuery,
                Some(l) => match format {
                    ExportFormat::Csv => a matches Action::ExportCsv { statement, target: t2 }
                        && statement@ == l@ && target_matches(t2, target),
                    ExportFormat::Insert => a matches Action::ExportInsert {
                        statement,
                        target: t2,
                    } && statement@ == l@ && target_matches(t2, target),
                    ExportFormat::Excel => match target {
                        ExportTarget::Stdout => a matches Action::ReportExportError { error }
                            && error matches crate::db::Error::ExportError(m) && m@
                            == "Export of Excel to stdout not supported"@,
                        ExportTarget::File(p) => a matches Action::ExportExcel { statement, path }
                            && statement@ == l@ && path@ == p@,
                    },
                },
            },
            Command::ExportBadFormat => *final(client) == *old(client) && match old(
                client
            ).last_select {
                None => a is ReportNoLastQuery,
                Some(_) => a is ReportFormatNotSupported,
            },
            Command::ExportIgnored => a is DoNothing && *final(client) == *old(client),
            Command::Unsupported => a is ReportUnsupportedCommand && *final(client) == *old(
                client
            ),
            Command::RunSaved { name } => match sq_lookup(queries@, name@) {
                None => a matches Action::ReportQueryNotFound { name: n2 } && n2@ == name@
                    && *final(client) == *old(client),
                Some(q) => statement_action_post(*old(client), *final(client), q, 1000, a),
            },
            Command::RunRaw { statement } => statement_action_post(
                *old(client),
                *final(client),
                statement@,
                old(client).options.row_limit as int,
                a,
            ),
        },
{
    match cmd {
        Command::Empty => Action::DoNothing,
        Command::SetOption { key, value } => {
            match key {
                SetKey::RowLimit => client.options.set_row_limit(value),
                SetKey::ColumnLimit => client.options.set_column_limit(value),
            }
            Action::DoNothing
        },
        Command::SetBadValue => Action::ReportBadSetValue,
        Command::SetIgnored => Action::DoNothing,
        Command::ShowLast => {
            let last = client.last_select.clone();
            match last {
                None => Action::ReportNoLastQuery,
                Some(l) => run_statement(client, l.as_str(), 1),
            }
        },
        Command::ShowAll => {
            let last = client.last_select.clone();
            match last {
                None => Action::ReportNoLastQuery,
                Some(l) => run_statement(client, l.as_str(), 1000),
            }
        },
        Command::Export { format, target } => {
            let last = client.last_select.clone();
            match last {
                None => Action::ReportNoLastQuery,
                Some(l) => match format {
                    ExportFormat::Csv => Action::ExportCsv { statement: l, target },
                    ExportFormat::Insert => Action::ExportInsert { statement: l, target },
                    ExportFormat::Excel => match target {
                        ExportTarget::Stdout => Action::ReportExportError {
                            error: crate::db::Error::ExportError(
                                "Export of Excel to stdout not supported".to_owned(),
                            ),
                        },
                        ExportTarget::File(p) => Action::ExportExcel { statement: l, path: p },
                    },
                },
            }
        },
        Command::ExportBadFormat => {
            match &client.last_select {
                None => Action::ReportNoLastQuery,
                Some(_) => Action::ReportFormatNotSupported,
            }
        },
        Command::ExportIgnored => Action::DoNothing,
        Command::Unsupported => Action::ReportUnsupportedCommand,
        Command::RunSaved { name } => {
            match crate::db::find_standard_query(queries, name.as_str()) {
                None => Action::ReportQueryNotFound { name },
                Some(q) => run_statement(client, q.as_str(), 1000),
            }
        },
        Command::RunRaw { statement } => {
            let limit = client.options.row_limit;
            run_statement(client, statement.as_str(), limit)
        },
    }
}

/// A statement never runs as both a query and a plain execute: under
/// any session state and row limit, the action is `RunQuery` exactly
/// when the processed statement begins with `select`, and `RunExecute`
/// exactly otherwise.
pub proof fn lemma_query_execute_exclusive(
    c0: DbcClient,
    c1: DbcClient,
    raw: Seq<char>,
    row_limit: int,
    a: Action,
)
    requires
        statement_action_post(c0, c1, raw, row_limit, a),
    ensures
        a is RunQuery <==> is_select(drop_semis(trimmed(raw))),
        a is RunExecute <==> !is_select(drop_semis(trimmed(raw))),
{
}

} // verus!
