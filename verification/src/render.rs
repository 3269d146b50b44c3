//! The console renderer: lays a query result out as a bounded table.
//!
//! A result is rendered vertically — one line per column, the column
//! name beside the value — when the effective row limit is one or the
//! result has exactly one row; otherwise horizontally, the header and
//! every row truncated to the column limit and the body truncated to
//! the row limit. NULL cells render as the literal `NULL` and carry a
//! flag so the terminal can style them apart from the text `NULL`.

use vstd::prelude::*;

use crate::db::QueryResult;

verus! {

/// One rendered cell: its text and whether it stands for SQL NULL.
#[derive(Debug, Clone, PartialEq)]
pub struct RenderCell {
    pub text: String,
    pub is_null: bool,
}

/// The ghost form of a rendered cell.
#[verifier::ext_equal]
pub ghost struct RCell {
    pub text: Seq<char>,
    pub null: bool,
}

/// The ghost form of a rendered table.
#[verifier::ext_equal]
pub ghost struct RenderModel {
    /// One line per column of the first row, instead of one per row.
    pub vertical: bool,
    /// The column names shown; empty in the vertical layout.
    pub header: Seq<Seq<char>>,
    pub body: Seq<Seq<RCell>>,
}

/// How one source cell renders: NULL as the literal `NULL`, flagged.
pub open spec fn rcell(c: Option<Seq<char>>) -> RCell {
    match c {
        Some(s) => RCell { text: s, null: false },
        None => RCell { text: "NULL"@, null: true },
    }
}

/// The smaller of two integers.
pub open spec fn imin(a: int, b: int) -> int {
    if a <= b {
        a
    } else {
        b
    }
}

/// The number of body rows the horizontal layout shows: none of an
/// empty result, otherwise up to the row limit, but always at least
/// one.
pub open spec fn shown_rows(total: int, row_limit: int) -> int {
    if total == 0 {
        0
    } else {
        imin(if row_limit < 1 {
            1
        } else {
            row_limit
        }, total)
    }
}

/// The rendered layout of a result under the given limits.
pub open spec fn render_model(
    cols: Seq<Seq<char>>,
    rows: Seq<Seq<Option<Seq<char>>>>,
    row_limit: int,
    col_limit: int,
) -> RenderModel {
    if (row_limit == 1 || rows.len() == 1) && rows.len() >= 1 {
        RenderModel {
            vertical: true,
            header: Seq::empty(),
            body: Seq::new(
                rows[0].len(),
                |i: int| seq![RCell { text: cols[i], null: false }, rcell(rows[0][i])],
            ),
        }
    } else {
        RenderModel {
            vertical: false,
            header: cols.take(imin(col_limit, cols.len() as int)),
            body: Seq::new(
                shown_rows(rows.len() as int, row_limit) as nat,
                |i: int|
                    rows[i].take(imin(col_limit, rows[i].len() as int)).map_values(
                        |c: Option<Seq<char>>| rcell(c),
                    ),
            ),
        }
    }
}

/// A rendered table, ready for the terminal.
#[derive(Debug, Clone, PartialEq)]
pub enum RenderedTable {
    /// One line per column: the styled column name, then the value.
    Vertical(Vec<Vec<RenderCell>>),
    /// A header of column names, then the body rows.
    Horizontal(Vec<String>, Vec<Vec<RenderCell>>),
}

/// The ghost form of one rendered row.
pub open spec fn row_model(r: Vec<RenderCell>) -> Seq<RCell> {
    r@.map_values(|c: RenderCell| RCell { text: c.text@, null: c.is_null })
}

/// The ghost form of a rendered table.
pub open spec fn table_model(t: RenderedTable) -> RenderModel {
    match t {
        RenderedTable::Vertical(rows) => RenderModel {
            vertical: true,
            header: Seq::empty(),
            body: rows@.map_values(|r: Vec<RenderCell>| row_model(r)),
        },
        RenderedTable::Horizontal(header, rows) => RenderModel {
            vertical: false,
            header: header@.map_values(|s: String| s@),
            body: rows@.map_values(|r: Vec<RenderCell>| row_model(r)),
        },
    }
}

/// Renders one cell.
fn render_cell(c: &Option<String>) -> (r: RenderCell)
    ensures
        (RCell { text: r.text@, null: r.is_null }) == rcell(crate::db::cell_view(*c)),
{
    match c {
        Some(v) => RenderCell { text: v.clone(), is_null: false },
        None => RenderCell { text: "NULL".to_owned(), is_null: true },
    }
}

/// Lays the result out under the given limits.
///
/// The output is a pure function of the result and the limits: the
/// same result under the same limits always renders the same table.
pub fn render_result(res: &QueryResult, row_limit: usize, column_limit: usize) -> (t:
    RenderedTable)
    requires
        res.wf(),
    ensures
        table_model(t) == render_model(
            res.col_names(),
            res.cells(),
            row_limit as int,
            column_limit as int,
        ),
{
    let nrows = res.rows.len();
    if (row_limit == 1 || nrows == 1) && nrows >= 1 {
        let row = &res.rows[0];
        let n = row.data.len();
        let mut body: Vec<Vec<RenderCell>> = Vec::new();
        let mut i: usize = 0;
        while i < n
            invariant
                res.wf(),
                res.rows@.len() >= 1,
                row == res.rows@[0],
                n == row.data@.len(),
                i <= n,
                body@.len() == i,
                forall|j: int|
                    0 <= j < i ==> row_model(#[trigger] body@[j]) =~= seq![
                        RCell { text: res.col_names()[j], null: false },
                        rcell(res.cells()[0][j]),
                    ],
            decreases n - i,
        {
            let name_cell = RenderCell { text: res.columns[i].name.clone(), is_null: false };
            let value_cell = render_cell(&row.data[i]);
            let mut pair: Vec<RenderCell> = Vec::new();
            pair.push(name_cell);
            pair.push(value_cell);
            body.push(pair);
            i += 1;
        }
        let t = RenderedTable::Vertical(body);
        proof {
            assert(table_model(t).body =~~= render_model(
                res.col_names(),
                res.cells(),
                row_limit as int,
                column_limit as int,
            ).body);
            assert(table_model(t) =~~= render_model(
                res.col_names(),
                res.cells(),
                row_limit as int,
                column_limit as int,
            ));
        }
        t
    } else {
        let ncols = res.columns.len();
        let hcount = if column_limit <= ncols {
            column_limit
        } else {
            ncols
        };
        let mut header: Vec<String> = Vec::new();
        let mut i: usize = 0;
        while i < hcount
            invariant
                hcount <= res.columns@.len(),
                i <= hcount,
                header@.len() == i,
                forall|j: int| 0 <= j < i ==> (#[trigger] header@[j])@ == res.col_names()[j],
            decreases hcount - i,
        {
            header.push(res.columns[i].name.clone());
            i += 1;
        }
        let cap: usize = if row_limit < 1 {
            1
        } else {
            row_limit
        };
        let count = if cap <= nrows {
            cap
        } else {
            nrows
        };
        let mut body: Vec<Vec<RenderCell>> = Vec::new();
        let mut k: usize = 0;
        while k < count
            invariant
                res.wf(),
                count <= res.rows@.len(),
                k <= count,
                body@.len() == k,
                forall|j: int|
                    0 <= j < k ==> row_model(#[trigger] body@[j]) =~= res.cells()[j].take(
                        imin(column_limit as int, res.cells()[j].len() as int),
                    ).map_values(|c: Option<Seq<char>>| rcell(c)),
            decreases count - k,
        {
            let row = &res.rows[k];
            let w = row.data.len();
            let wcount = if column_limit <= w {
                column_limit
            } else {
                w
            };
            let mut cells: Vec<RenderCell> = Vec::new();
            let mut j: usize = 0;
            while j < wcount
                invariant
                    wcount <= row.data@.len(),
                    j <= wcount,
                    cells@.len() == j,
                    forall|l: int|
                        0 <= l < j ==> row_model(cells)[l] == rcell(
                            crate::db::cell_view(#[trigger] row.data@[l]),
                        ),
                decreases wcount - j,
            {
                cells.push(render_cell(&row.data[j]));
                j += 1;
            }
            proof {
                assert(row_model(cells) =~= crate::db::row_view(*row).take(
                    imin(column_limit as int, crate::db::row_view(*row).len() as int),
                ).map_values(|c: Option<Seq<char>>| rcell(c)));
                assert(res.cells()[k as int] == crate::db::row_view(res.rows@[k as int]));
            }
            body.push(cells);
            k += 1;
        }
        let t = RenderedTable::Horizontal(header, body);
        proof {
            let m = render_model(
                res.col_names(),
                res.cells(),
                row_limit as int,
                column_limit as int,
            );
            assert(table_model(t).header =~~= m.header);
            assert(table_model(t).body =~~= m.body);
            assert(table_model(t) =~~= m);
        }
        t
    }
}

/// NULL keeps its mark through the vertical layout: the value cell of
/// a NULL source cell shows the literal `NULL` and carries the flag.
pub proof fn lemma_vertical_null_renders_null(
    cols: Seq<Seq<char>>,
    rows: Seq<Seq<Option<Seq<char>>>>,
    row_limit: int,
    col_limit: int,
    i: int,
)
    requires
        (row_limit == 1 || rows.len() == 1) && rows.len() >= 1,
        0 <= i < rows[0].len(),
        rows[0][i] is None,
    ensures
        render_model(cols, rows, row_limit, col_limit).body[i][1].text == "NULL"@,
        render_model(cols, rows, row_limit, col_limit).body[i][1].null,
{
}

/// NULL keeps its mark through the horizontal layout too.
pub proof fn lemma_horizontal_null_renders_null(
    cols: Seq<Seq<char>>,
    rows: Seq<Seq<Option<Seq<char>>>>,
    row_limit: int,
    col_limit: int,
    i: int,
    j: int,
)
    requires
        !(row_limit == 1 || rows.len() == 1),
        0 <= i < shown_rows(rows.len() as int, row_limit),
        0 <= j < imin(col_limit, rows[i].len() as int),
        rows[i][j] is None,
    ensures
        render_model(cols, rows, row_limit, col_limit).body[i][j].text == "NULL"@,
        render_model(cols, rows, row_limit, col_limit).body[i][j].null,
{
    let m = render_model(cols, rows, row_limit, col_limit);
    assert(m.body[i] == rows[i].take(imin(col_limit, rows[i].len() as int)).map_values(
        |c: Option<Seq<char>>| rcell(c),
    ));
    assert(rows[i].take(imin(col_limit, rows[i].len() as int))[j] == rows[i][j]);
}

/// Rendering is deterministic: two renderings of one result under one
/// set of limits are the same table.
pub proof fn lemma_render_idempotent(
    a: RenderedTable,
    b: RenderedTable,
    cols: Seq<Seq<char>>,
    rows: Seq<Seq<Option<Seq<char>>>>,
    row_limit: int,
    col_limit: int,
)
    requires
        table_model(a) == render_model(cols, rows, row_limit, col_limit),
        table_model(b) == render_model(cols, rows, row_limit, col_limit),
    ensures
        table_model(a) == table_model(b),
{
}

/// The row-limit boundary: a result with more rows than the limit
/// shows exactly the limit, never one less or one more.
pub proof fn lemma_row_limit_boundary(
    cols: Seq<Seq<char>>,
    rows: Seq<Seq<Option<Seq<char>>>>,
    row_limit: int,
    col_limit: int,
)
    requires
        row_limit >= 2,
        rows.len() == row_limit + 5,
    ensures
        !render_model(cols, rows, row_limit, col_limit).vertical,
        render_model(cols, rows, row_limit, col_limit).body.len() == row_limit,
{
}

/// The column-limit boundary: the horizontal layout shows exactly
/// `col_limit` header cells and `col_limit` cells of each shown row
/// when the result is at least that wide.
pub proof fn lemma_column_limit_boundary(
    cols: Seq<Seq<char>>,
    rows: Seq<Seq<Option<Seq<char>>>>,
    row_limit: int,
    col_limit: int,
    i: int,
)
    requires
        !(row_limit == 1 || rows.len() == 1),
        col_limit >= 0,
        cols.len() >= col_limit,
        0 <= i < shown_rows(rows.len() as int, row_limit),
        rows[i].len() >= col_limit,
    ensures
        render_model(cols, rows, row_limit, col_limit).header.len() == col_limit,
        render_model(cols, rows, row_limit, col_limit).body[i].len() == col_limit,
{
}

} // verus!
