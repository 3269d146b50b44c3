//! The exporters: CSV lines, `INSERT` statements with a best-effort
//! table name read from the source query, and worksheet cell data.
//!
//! Everything here turns a query result into plain text; writing that
//! text to a file or the terminal happens outside.

use vstd::prelude::*;

use crate::db::QueryResult;
use crate::strutil::is_ws;
use crate::url::is_word_char;

verus! {

/// A CSV field must be quoted when it holds the delimiter, a quote or
/// a line break.
pub open spec fn csv_special(c: char) -> bool {
    c == ';' || c == '"' || c == '\n' || c == '\r'
}

/// Some character of the field forces quoting.
pub open spec fn needs_quoting(f: Seq<char>) -> bool {
    exists|i: int| 0 <= i < f.len() && csv_special(#[trigger] f[i])
}

/// The field with every quote doubled.
pub open spec fn csv_escaped(f: Seq<char>) -> Seq<char>
    decreases f.len(),
{
    if f.len() == 0 {
        Seq::empty()
    } else {
        csv_escaped(f.drop_last()) + (if f.last() == '"' {
            seq!['"', '"']
        } else {
            seq![f.last()]
        })
    }
}

/// One encoded CSV field: quoted and escaped only when necessary.
pub open spec fn csv_field(f: Seq<char>) -> Seq<char> {
    if needs_quoting(f) {
        seq!['"'] + csv_escaped(f) + seq!['"']
    } else {
        f
    }
}

/// The text a cell exports to: NULL becomes the empty field.
pub open spec fn exported_cell(c: Option<Seq<char>>) -> Seq<char> {
    match c {
        Some(s) => s,
        None => Seq::empty(),
    }
}

/// A header line: the encoded column names joined by semicolons.
pub open spec fn csv_header(cols: Seq<Seq<char>>) -> Seq<char>
    decreases cols.len(),
{
    if cols.len() == 0 {
        Seq::empty()
    } else if cols.len() == 1 {
        csv_field(cols[0])
    } else {
        csv_header(cols.drop_last()) + seq![';'] + csv_field(cols.last())
    }
}

/// A body line: the encoded cells joined by semicolons, NULL as an
/// empty field.
pub open spec fn csv_row(row: Seq<Option<Seq<char>>>) -> Seq<char>
    decreases row.len(),
{
    if row.len() == 0 {
        Seq::empty()
    } else if row.len() == 1 {
        csv_field(exported_cell(row[0]))
    } else {
        csv_row(row.drop_last()) + seq![';'] + csv_field(exported_cell(row.last()))
    }
}

/// Tests whether a field needs quoting.
fn field_needs_quoting(f: &str) -> (r: bool)
    ensures
        r == needs_quoting(f@),
{
    let n = f.unicode_len();
    let mut i: usize = 0;
    while i < n
        invariant
            n == f@.len(),
            i <= n,
            forall|k: int| 0 <= k < i ==> !csv_special(f@[k]),
        decreases n - i,
    {
        let c = f.get_char(i);
        if c == ';' || c == '"' || c == '\n' || c == '\r' {
            return true;
        }
        i += 1;
    }
    false
}

/// Encodes one CSV field.
fn encode_csv_field(f: &str) -> (r: String)
    ensures
        r@ == csv_field(f@),
{
    if !field_needs_quoting(f) {
        return f.to_owned();
    }
    let n = f.unicode_len();
    let mut s = String::new();
    s.push('"');
    let mut i: usize = 0;
    while i < n
        invariant
            n == f@.len(),
            i <= n,
            s@ =~= seq!['"'] + csv_escaped(f@.take(i as int)),
        decreases n - i,
    {
        let c = f.get_char(i);
        proof {
            assert(f@.take(i + 1).drop_last() =~= f@.take(i as int));
            assert(f@.take(i + 1).last() == f@[i as int]);
        }
        if c == '"' {
            s.push('"');
            s.push('"');
        } else {
            s.push(c);
        }
        proof {
            assert(s@ =~= seq!['"'] + csv_escaped(f@.take(i + 1)));
        }
        i += 1;
    }
    s.push('"');
    proof {
        assert(f@.take(n as int) =~= f@);
        assert(s@ =~= csv_field(f@));
    }
    s
}

/// The CSV lines of a result: the header, then one line per row, with
/// NULL cells as empty fields, all fields semicolon-separated and
/// quoted where their content demands it.
pub fn export_csv_lines(res: &QueryResult) -> (r: Vec<String>)
    ensures
        r@.len() == 1 + res.rows@.len(),
        r@[0]@ == csv_header(res.col_names()),
        forall|i: int| 0 <= i < res.rows@.len() ==> (#[trigger] r@[i + 1])@ == csv_row(
            res.cells()[i],
        ),
{
    let mut out: Vec<String> = Vec::new();
    let ncols = res.columns.len();
    let mut header = String::new();
    let mut i: usize = 0;
    while i < ncols
        invariant
            ncols == res.columns@.len(),
            i <= ncols,
            header@ =~= csv_header(res.col_names().take(i as int)),
        decreases ncols - i,
    {
        proof {
            assert(res.col_names().take(i + 1).drop_last() =~= res.col_names().take(i as int));
            assert(res.col_names().take(i + 1).last() == res.col_names()[i as int]);
            assert(res.col_names()[i as int] == res.columns@[i as int].name@);
        }
        if i > 0 {
            header.push(';');
        }
        let fld = encode_csv_field(res.columns[i].name.as_str());
        header.append(fld.as_str());
        proof {
            assert(header@ =~= csv_header(res.col_names().take(i + 1)));
        }
        i += 1;
    }
    proof {
        assert(res.col_names().take(ncols as int) =~= res.col_names());
    }
    out.push(header);
    let nrows = res.rows.len();
    let mut k: usize = 0;
    while k < nrows
        invariant
            nrows == res.rows@.len(),
            k <= nrows,
            out@.len() == 1 + k,
            out@[0]@ == csv_header(res.col_names()),
            forall|j: int| 0 <= j < k ==> (#[trigger] out@[j + 1])@ == csv_row(res.cells()[j]),
        decreases nrows - k,
    {
        let row = &res.rows[k];
        let w = row.data.len();
        let ghost rv = crate::db::row_view(*row);
        let mut line = String::new();
        let mut j: usize = 0;
        while j < w
            invariant
                w == row.data@.len(),
                rv == crate::db::row_view(*row),
                j <= w,
                line@ =~= csv_row(rv.take(j as int)),
            decreases w - j,
        {
            proof {
                assert(rv.take(j + 1).drop_last() =~= rv.take(j as int));
                assert(rv.take(j + 1).last() == rv[j as int]);
                assert(rv[j as int] == crate::db::cell_view(row.data@[j as int]));
            }
            if j > 0 {
                line.push(';');
            }
            let fld = match &row.data[j] {
                Some(v) => encode_csv_field(v.as_str()),
                None => String::new(),
            };
            line.append(fld.as_str());
            proof {
                assert(line@ =~= csv_row(rv.take(j + 1)));
            }
            j += 1;
        }
        proof {
            assert(rv.take(w as int) =~= rv);
            assert(res.cells()[k as int] == rv);
        }
        out.push(line);
        k += 1;
    }
    out
}

/// A character of a table name in the insert-export heuristic.
pub open spec fn is_name_char(c: char) -> bool {
    ('a' <= c && c <= 'z') || ('0' <= c && c <= '9') || c == '_'
}

/// The length of the leading whitespace run.
pub open spec fn ws_run(s: Seq<char>) -> nat
    decreases s.len(),
{
    if s.len() > 0 && is_ws(s[0]) {
        1 + ws_run(s.drop_first())
    } else {
        0
    }
}

/// The length of the leading table-name-character run.
pub open spec fn name_run(s: Seq<char>) -> nat
    decreases s.len(),
{
    if s.len() > 0 && is_name_char(s[0]) {
        1 + name_run(s.drop_first())
    } else {
        0
    }
}

/// A `from <name>` occurrence at position `j` of the query: the word
/// `from` between whitespace, then a non-empty run of name characters
/// ending at a word boundary.
pub open spec fn candidate_at(s: Seq<char>, j: int) -> bool {
    &&& 1 <= j
    &&& j + 5 <= s.len()
    &&& is_ws(s[j - 1])
    &&& s[j] == 'f'
    &&& s[j + 1] == 'r'
    &&& s[j + 2] == 'o'
    &&& s[j + 3] == 'm'
    &&& is_ws(s[j + 4])
    &&& ({
        let k = j + 4 + ws_run(s.skip(j + 4));
        &&& k < s.len()
        &&& is_name_char(s[k])
        &&& ({
            let m = k + name_run(s.skip(k));
            m == s.len() || !is_word_char(s[m])
        })
    })
}

/// The table name of the occurrence at `j`.
pub open spec fn candidate_name(s: Seq<char>, j: int) -> Seq<char> {
    let k = j + 4 + ws_run(s.skip(j + 4));
    s.subrange(k, k + name_run(s.skip(k)))
}

/// The first `from <name>` occurrence at or after `j`.
pub open spec fn first_candidate_from(s: Seq<char>, j: int) -> Option<int>
    decreases s.len() + 1 - j,
{
    if j < 1 || j + 5 > s.len() {
        None
    } else if candidate_at(s, j) {
        Some(j)
    } else {
        first_candidate_from(s, j + 1)
    }
}

/// The table name the insert export writes: the name of the first
/// `from <name>` occurrence, or the placeholder when there is none.
pub open spec fn spec_table_name(s: Seq<char>) -> Seq<char> {
    match first_candidate_from(s, 1) {
        Some(j) => candidate_name(s, j),
        None => "xxxxx"@,
    }
}

proof fn lemma_ws_run(t: Seq<char>, r: int)
    requires
        0 <= r <= t.len(),
        forall|k: int| 0 <= k < r ==> is_ws(t[k]),
        r == t.len() || !is_ws(t[r]),
    ensures
        ws_run(t) == r,
    decreases r,
{
    if r == 0 {
    } else {
        let u = t.drop_first();
        assert(forall|k: int| 0 <= k < r - 1 ==> u[k] == t[k + 1] && is_ws(u[k]));
        if r - 1 < u.len() {
            assert(u[r - 1] == t[r]);
        }
        lemma_ws_run(u, r - 1);
    }
}

proof fn lemma_name_run(t: Seq<char>, r: int)
    requires
        0 <= r <= t.len(),
        forall|k: int| 0 <= k < r ==> is_name_char(t[k]),
        r == t.len() || !is_name_char(t[r]),
    ensures
        name_run(t) == r,
    decreases r,
{
    if r == 0 {
    } else {
        let u = t.drop_first();
        assert(forall|k: int| 0 <= k < r - 1 ==> u[k] == t[k + 1] && is_name_char(u[k]));
        if r - 1 < u.len() {
            assert(u[r - 1] == t[r]);
        }
        lemma_name_run(u, r - 1);
    }
}

/// Whitespace test.
fn ws_char(c: char) -> (r: bool)
    ensures
        r == is_ws(c),
{
    c == ' ' || c == '\t' || c == '\r' || c == '\n'
}

/// Name-character test.
fn name_char(c: char) -> (r: bool)
    ensures
        r == is_name_char(c),
{
    ('a' <= c && c <= 'z') || ('0' <= c && c <= '9') || c == '_'
}

/// Word-character test.
fn word_char(c: char) -> (r: bool)
    ensures
        r == is_word_char(c),
{
    ('a' <= c && c <= 'z') || ('A' <= c && c <= 'Z') || ('0' <= c && c <= '9') || c == '_'
}

/// Reads the target table name out of the source query: the name after
/// the first ` from `, a best-effort heuristic that may be wrong for
/// joins and subqueries; the placeholder `xxxxx` when nothing matches.
pub fn table_name_of(query: &str) -> (r: String)
    ensures
        r@ == spec_table_name(query@),
{
    let n = query.unicode_len();
    let mut j: usize = 1;
    if n < 6 {
        return "xxxxx".to_owned();
    }
    while j <= n - 5
        invariant
            n == query@.len(),
            n >= 6,
            1 <= j,
            first_candidate_from(query@, 1) == first_candidate_from(query@, j as int),
        decreases n - j,
    {
        let sj = query.get_char(j);
        let ok = ws_char(query.get_char(j - 1)) && sj == 'f' && query.get_char(j + 1) == 'r'
            && query.get_char(j + 2) == 'o' && query.get_char(j + 3) == 'm' && ws_char(
            query.get_char(j + 4),
        );
        if ok {
            // skip the whitespace run after `from`
            let mut k = j + 4;
            while k < n && ws_char(query.get_char(k))
                invariant
                    n == query@.len(),
                    j + 4 <= k <= n,
                    forall|x: int| j + 4 <= x < k ==> is_ws(query@[x]),
                decreases n - k,
            {
                k += 1;
            }
            proof {
                let t = query@.skip(j + 4);
                assert(forall|x: int|
                    0 <= x < k - (j + 4) ==> t[x] == query@[x + j + 4] && is_ws(t[x]));
                if k < n {
                    assert(t[k - (j + 4)] == query@[k as int]);
                }
                lemma_ws_run(t, k - (j + 4));
            }
            if k < n && name_char(query.get_char(k)) {
                let mut m = k;
                while m < n && name_char(query.get_char(m))
                    invariant
                        n == query@.len(),
                        k <= m <= n,
                        forall|x: int| k <= x < m ==> is_name_char(query@[x]),
                    decreases n - m,
                {
                    m += 1;
                }
                proof {
                    let t = query@.skip(k as int);
                    assert(forall|x: int|
                        0 <= x < m - k ==> t[x] == query@[x + k] && is_name_char(t[x]));
                    if m < n {
                        assert(t[m - k] == query@[m as int]);
                    }
                    lemma_name_run(t, m - k);
                }
                if m >= n || !word_char(query.get_char(m)) {
                    proof {
                        assert(candidate_at(query@, j as int));
                        assert(first_candidate_from(query@, j as int) == Some(j as int));
                    }
                    let name = query.substring_char(k, m);
                    proof {
                        assert(name@ =~= candidate_name(query@, j as int));
                    }
                    return name.to_owned();
                }
            }
        }
        proof {
            assert(!candidate_at(query@, j as int));
        }
        j += 1;
    }
    proof {
        assert(first_candidate_from(query@, j as int) is None);
    }
    "xxxxx".to_owned()
}

/// A value quoted for an `INSERT` statement: wrapped in single quotes,
/// embedded quotes doubled.
pub open spec fn sql_escaped(v: Seq<char>) -> Seq<char>
    decreases v.len(),
{
    if v.len() == 0 {
        Seq::empty()
    } else {
        sql_escaped(v.drop_last()) + (if v.last() == '\'' {
            seq!['\'', '\'']
        } else {
            seq![v.last()]
        })
    }
}

/// One exported value: a quoted string, or the keyword `NULL`.
///
/// NULL is written as the SQL keyword, so the emitted statement
/// inserts a real NULL; writing an empty literal instead would change
/// the value and break the statement's arity.
pub open spec fn insert_cell(c: Option<Seq<char>>) -> Seq<char> {
    match c {
        Some(v) => seq!['\''] + sql_escaped(v) + seq!['\''],
        None => "NULL"@,
    }
}

/// The column list of an `INSERT` statement, comma-joined.
pub open spec fn insert_columns(cols: Seq<Seq<char>>) -> Seq<char>
    decreases cols.len(),
{
    if cols.len() == 0 {
        Seq::empty()
    } else if cols.len() == 1 {
        cols[0]
    } else {
        insert_columns(cols.drop_last()) + seq![',', ' '] + cols.last()
    }
}

/// The value list of an `INSERT` statement, comma-joined.
pub open spec fn insert_values(row: Seq<Option<Seq<char>>>) -> Seq<char>
    decreases row.len(),
{
    if row.len() == 0 {
        Seq::empty()
    } else if row.len() == 1 {
        insert_cell(row[0])
    } else {
        insert_values(row.drop_last()) + seq![',', ' '] + insert_cell(row.last())
    }
}

/// One whole `INSERT` statement line.
pub open spec fn insert_line(
    table: Seq<char>,
    cols: Seq<Seq<char>>,
    row: Seq<Option<Seq<char>>>,
) -> Seq<char> {
    "INSERT INTO "@ + table + " ("@ + insert_columns(cols) + ") VALUES ("@ + insert_values(row)
        + ");"@
}

/// Quotes one value.
fn encode_sql_value(v: &str) -> (r: String)
    ensures
        r@ == seq!['\''] + sql_escaped(v@) + seq!['\''],
{
    let n = v.unicode_len();
    let mut s = String::new();
    s.push('\'');
    let mut i: usize = 0;
    while i < n
        invariant
            n == v@.len(),
            i <= n,
            s@ =~= seq!['\''] + sql_escaped(v@.take(i as int)),
        decreases n - i,
    {
        let c = v.get_char(i);
        proof {
            assert(v@.take(i + 1).drop_last() =~= v@.take(i as int));
            assert(v@.take(i + 1).last() == v@[i as int]);
        }
        if c == '\'' {
            s.push('\'');
            s.push('\'');
        } else {
            s.push(c);
        }
        proof {
            assert(s@ =~= seq!['\''] + sql_escaped(v@.take(i + 1)));
        }
        i += 1;
    }
    s.push('\'');
    proof {
        assert(v@.take(n as int) =~= v@);
    }
    s
}

/// The `INSERT` statements of a result, one line per row, against the
/// given table name.
pub fn export_insert_lines(res: &QueryResult, table: &str) -> (r: Vec<String>)
    ensures
        r@.len() == res.rows@.len(),
        forall|i: int| 0 <= i < res.rows@.len() ==> (#[trigger] r@[i])@ == insert_line(
            table@,
            res.col_names(),
            res.cells()[i],
        ),
{
    let ncols = res.columns.len();
    let mut columns = String::new();
    let mut i: usize = 0;
    while i < ncols
        invariant
            ncols == res.columns@.len(),
            i <= ncols,
            columns@ =~= insert_columns(res.col_names().take(i as int)),
        decreases ncols - i,
    {
        proof {
            assert(res.col_names().take(i + 1).drop_last() =~= res.col_names().take(i as int));
            assert(res.col_names().take(i + 1).last() == res.col_names()[i as int]);
            assert(res.col_names()[i as int] == res.columns@[i as int].name@);
        }
        if i > 0 {
            columns.push(',');
            columns.push(' ');
        }
        columns.append(res.columns[i].name.as_str());
        proof {
            assert(columns@ =~= insert_columns(res.col_names().take(i + 1)));
        }
        i += 1;
    }
    proof {
        assert(res.col_names().take(ncols as int) =~= res.col_names());
    }
    let nrows = res.rows.len();
    let mut out: Vec<String> = Vec::new();
    let mut k: usize = 0;
    while k < nrows
        invariant
            nrows == res.rows@.len(),
            k <= nrows,
            out@.len() == k,
            columns@ == insert_columns(res.col_names()),
            forall|j: int| 0 <= j < k ==> (#[trigger] out@[j])@ == insert_line(
                table@,
                res.col_names(),
                res.cells()[j],
            ),
        decreases nrows - k,
    {
        let row = &res.rows[k];
        let w = row.data.len();
        let ghost rv = crate::db::row_view(*row);
        let mut values = String::new();
        let mut j: usize = 0;
        while j < w
            invariant
                w == row.data@.len(),
                rv == crate::db::row_view(*row),
                j <= w,
                values@ =~= insert_values(rv.take(j as int)),
            decreases w - j,
        {
            proof {
                assert(rv.take(j + 1).drop_last() =~= rv.take(j as int));
                assert(rv.take(j + 1).last() == rv[j as int]);
                assert(rv[j as int] == crate::db::cell_view(row.data@[j as int]));
            }
            if j > 0 {
                values.push(',');
                values.push(' ');
            }
            let cell = match &row.data[j] {
                Some(v) => encode_sql_value(v.as_str()),
                None => "NULL".to_owned(),
            };
            values.append(cell.as_str());
            proof {
                assert(values@ =~= insert_values(rv.take(j + 1)));
            }
            j += 1;
        }
        proof {
            assert(rv.take(w as int) =~= rv);
            assert(res.cells()[k as int] == rv);
        }
        let mut line = "INSERT INTO ".to_owned();
        line.append(table);
        line.append(" (");
        line.append(columns.as_str());
        line.append(") VALUES (");
        line.append(values.as_str());
        line.append(");");
        out.push(line);
        k += 1;
    }
    out
}

/// The data sheet of a workbook export: the column names, then every
/// row with NULL as an empty cell.
pub fn excel_data_rows(res: &QueryResult) -> (r: Vec<Vec<String>>)
    ensures
        r@.len() == 1 + res.rows@.len(),
        r@[0]@.len() == res.columns@.len(),
        forall|j: int| 0 <= j < res.columns@.len() ==> (#[trigger] r@[0]@[j])@ == res.col_names()[j],
        forall|i: int|
            0 <= i < res.rows@.len() ==> (#[trigger] r@[i + 1])@.len() == res.cells()[i].len(),
        forall|i: int, j: int|
            0 <= i < res.rows@.len() && 0 <= j < res.cells()[i].len() ==> (#[trigger] r@[i
                + 1]@[j])@ == exported_cell(res.cells()[i][j]),
{
    let mut out: Vec<Vec<String>> = Vec::new();
    let ncols = res.columns.len();
    let mut header: Vec<String> = Vec::new();
    let mut i: usize = 0;
    while i < ncols
        invariant
            ncols == res.columns@.len(),
            i <= ncols,
            header@.len() == i,
            forall|j: int| 0 <= j < i ==> (#[trigger] header@[j])@ == res.col_names()[j],
        decreases ncols - i,
    {
        header.push(res.columns[i].name.clone());
        i += 1;
    }
    out.push(header);
    let nrows = res.rows.len();
    let mut k: usize = 0;
    while k < nrows
        invariant
            nrows == res.rows@.len(),
            k <= nrows,
            out@.len() == 1 + k,
            out@[0]@.len() == res.columns@.len(),
            forall|j: int|
                0 <= j < res.columns@.len() ==> (#[trigger] out@[0]@[j])@ == res.col_names()[j],
            forall|i2: int|
                0 <= i2 < k ==> (#[trigger] out@[i2 + 1])@.len() == res.cells()[i2].len(),
            forall|i2: int, j: int|
                0 <= i2 < k && 0 <= j < res.cells()[i2].len() ==> (#[trigger] out@[i2 + 1]@[j])@
                    == exported_cell(res.cells()[i2][j]),
        decreases nrows - k,
    {
        let row = &res.rows[k];
        let w = row.data.len();
        let mut cells: Vec<String> = Vec::new();
        let mut j: usize = 0;
        while j < w
            invariant
                w == row.data@.len(),
                j <= w,
                cells@.len() == j,
                forall|l: int|
                    0 <= l < j ==> (#[trigger] cells@[l])@ == exported_cell(
                        crate::db::cell_view(row.data@[l]),
                    ),
            decreases w - j,
        {
            match &row.data[j] {
                Some(v) => cells.push(v.clone()),
                None => cells.push(String::new()),
            }
            j += 1;
        }
        proof {
            assert(res.cells()[k as int] == crate::db::row_view(*row));
            assert(forall|l: int|
                0 <= l < w ==> crate::db::row_view(*row)[l] == crate::db::cell_view(
                    row.data@[l],
                ));
        }
        out.push(cells);
        k += 1;
    }
    out
}

/// The query sheet of a workbook export: the query text in one cell.
pub fn excel_query_rows(query: &str) -> (r: Vec<Vec<String>>)
    ensures
        r@.len() == 1,
        r@[0]@.len() == 1,
        r@[0]@[0]@ == query@,
{
    let mut row: Vec<String> = Vec::new();
    row.push(query.to_owned());
    let mut out: Vec<Vec<String>> = Vec::new();
    out.push(row);
    out
}

} // verus!
