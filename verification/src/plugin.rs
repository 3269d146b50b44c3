//! The compute core of the shell-plugin entry point: it joins the
//! words of the requested query back into one statement and shapes a
//! query result into per-row records of column name and cell pairs.
//! The plugin host glue itself lives outside.

use vstd::prelude::*;

use crate::db::QueryResult;

verus! {

/// The words joined by single spaces.
pub open spec fn space_join(ws: Seq<Seq<char>>) -> Seq<char>
    decreases ws.len(),
{
    if ws.len() == 0 {
        Seq::empty()
    } else if ws.len() == 1 {
        ws[0]
    } else {
        space_join(ws.drop_last()) + seq![' '] + ws.last()
    }
}

/// The plugin command.
#[derive(Debug, Clone, Copy, PartialEq, Eq, Structural)]
pub struct Sql;

impl Sql {
    /// Joins the words of the call back into one statement text.
    pub fn join_query(words: &Vec<String>) -> (r: String)
        ensures
            r@ == space_join(words@.map_values(|w: String| w@)),
    {
        let n = words.len();
        let ghost ws = words@.map_values(|w: String| w@);
        let mut s = String::new();
        proof {
            assert(ws.take(0) =~= Seq::<Seq<char>>::empty());
        }
        let mut i: usize = 0;
        while i < n
            invariant
                n == words@.len(),
                ws == words@.map_values(|w: String| w@),
                i <= n,
                s@ =~= space_join(ws.take(i as int)),
            decreases n - i,
        {
            proof {
                assert(ws.take(i + 1).drop_last() =~= ws.take(i as int));
                assert(ws.take(i + 1).last() == ws[i as int]);
                assert(ws[i as int] == words@[i as int]@);
            }
            if i > 0 {
                s.push(' ');
            }
            s.append(words[i].as_str());
            proof {
                assert(s@ =~= space_join(ws.take(i + 1)));
            }
            i += 1;
        }
        proof {
            assert(ws.take(n as int) =~= ws);
        }
        s
    }

    /// Shapes a result into one record per row: each cell paired with
    /// its column name, NULL kept as the absent value.
    pub fn records(res: &QueryResult) -> (r: Vec<Vec<(String, Option<String>)>>)
        requires
            res.wf(),
        ensures
            r@.len() == res.rows@.len(),
            forall|i: int|
                0 <= i < res.rows@.len() ==> (#[trigger] r@[i])@.len() == res.cells()[i].len(),
            forall|i: int, j: int|
                0 <= i < res.rows@.len() && 0 <= j < res.cells()[i].len() ==> (#[trigger] r@[i]@[j]).0@
                    == res.col_names()[j] && crate::db::cell_view(r@[i]@[j].1) == res.cells()[i][j],
    {
        let nrows = res.rows.len();
        let mut out: Vec<Vec<(String, Option<String>)>> = Vec::new();
        let mut i: usize = 0;
        while i < nrows
            invariant
                res.wf(),
                nrows == res.rows@.len(),
                i <= nrows,
                out@.len() == i,
                forall|k: int| 0 <= k < i ==> (#[trigger] out@[k])@.len() == res.cells()[k].len(),
                forall|k: int, j: int|
                    0 <= k < i && 0 <= j < res.cells()[k].len() ==> (#[trigger] out@[k]@[j]).0@
                        == res.col_names()[j] && crate::db::cell_view(out@[k]@[j].1)
                        == res.cells()[k][j],
            decreases nrows - i,
        {
            let row = &res.rows[i];
            let w = row.data.len();
            let mut rec: Vec<(String, Option<String>)> = Vec::new();
            let mut j: usize = 0;
            while j < w
                invariant
                    res.wf(),
                    i < res.rows@.len(),
                    row == res.rows@[i as int],
                    w == row.data@.len(),
                    w == res.columns@.len(),
                    j <= w,
                    rec@.len() == j,
                    forall|l: int|
                        0 <= l < j ==> (#[trigger] rec@[l]).0@ == res.col_names()[l]
                            && crate::db::cell_view(rec@[l].1) == crate::db::cell_view(
                            row.data@[l],
                        ),
                decreases w - j,
            {
                let name = res.columns[j].name.clone();
                let cell = row.data[j].clone();
                rec.push((name, cell));
                j += 1;
            }
            proof {
                assert(res.cells()[i as int] == crate::db::row_view(*row));
                assert(forall|l: int|
                    0 <= l < w ==> crate::db::row_view(*row)[l] == crate::db::cell_view(
                        row.data@[l],
                    ));
            }
            out.push(rec);
            i += 1;
        }
        out
    }
}

} // verus!
