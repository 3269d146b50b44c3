//! Session state and line-editing helpers: the display limits, the
//! remembered last `select`, and the pure parts of completion,
//! hinting and keyword highlighting.

use vstd::prelude::*;

use crate::strutil::{is_prefix, starts_with, str_eq, tokens_of};

verus! {

/// The display limits of one session: how many rows and columns a
/// rendered table shows.
#[derive(Debug, Clone, PartialEq, Eq, Structural)]
pub struct DbcClientOptions {
    pub row_limit: usize,
    pub column_limit: usize,
}

impl DbcClientOptions {
    /// The defaults: twenty rows, ten columns.
    pub fn default() -> (r: DbcClientOptions)
        ensures
            r.row_limit == crate::DEFAULT_ROW_LIMIT,
            r.column_limit == crate::DEFAULT_COLUMN_LIMIT,
    {
        DbcClientOptions { row_limit: 20, column_limit: 10 }
    }

    pub fn set_row_limit(&mut self, n: usize)
        ensures
            final(self).row_limit == n,
            final(self).column_limit == old(self).column_limit,
    {
        self.row_limit = n;
    }

    pub fn set_column_limit(&mut self, n: usize)
        ensures
            final(self).column_limit == n,
            final(self).row_limit == old(self).row_limit,
    {
        self.column_limit = n;
    }
}

/// The state of one REPL session: the options and the last `select`
/// statement, remembered so it can be shown again.
#[derive(Debug, Clone, PartialEq)]
pub struct DbcClient {
    pub last_select: Option<String>,
    pub options: DbcClientOptions,
}

impl DbcClient {
    /// A fresh session: no last statement, default limits.
    pub fn default() -> (r: DbcClient)
        ensures
            r.last_select is None,
            r.options.row_limit == crate::DEFAULT_ROW_LIMIT,
            r.options.column_limit == crate::DEFAULT_COLUMN_LIMIT,
    {
        DbcClient { last_select: None, options: DbcClientOptions::default() }
    }

    /// Remembers the given statement as the last `select`.
    pub fn set_last_select(&mut self, query: &str)
        ensures
            final(self).last_select matches Some(s) && s@ == query@,
            final(self).options == old(self).options,
    {
        self.last_select = Some(query.to_owned());
    }
}

/// The command-line options of the client binary.
#[derive(Debug, Clone, PartialEq)]
pub struct Opt {
    /// Which configured connection to open.
    pub identifier: String,
    /// Do not print banners.
    pub quiet: bool,
    /// Cache the schema for completion.
    pub cache: bool,
}

/// The completion word lists of one session: table names, standard
/// query names and meta-command names.
#[derive(Debug, Clone, PartialEq)]
pub struct Helper {
    pub completions: Vec<String>,
    pub query_completions: Vec<String>,
    pub command_completions: Vec<String>,
}

/// The SQL words the highlighter marks.
pub open spec fn is_keyword_s(v: Seq<char>) -> bool {
    ||| v == "select"@
    ||| v == "from"@
    ||| v == "where"@
    ||| v == "order"@
    ||| v == "group"@
    ||| v == "by"@
    ||| v == "set"@
    ||| v == "update"@
    ||| v == "insert"@
    ||| v == "values"@
    ||| v == "delete"@
    ||| v == "and"@
    ||| v == "or"@
}

/// Whether a word is one of the highlighted SQL keywords.
pub fn is_keyword(v: &str) -> (r: bool)
    ensures
        r == is_keyword_s(v@),
{
    str_eq(v, "select") || str_eq(v, "from") || str_eq(v, "where") || str_eq(v, "order")
        || str_eq(v, "group") || str_eq(v, "by") || str_eq(v, "set") || str_eq(v, "update")
        || str_eq(v, "insert") || str_eq(v, "values") || str_eq(v, "delete") || str_eq(v, "and")
        || str_eq(v, "or")
}

/// The words of a line, each with its keyword mark, ready for the
/// highlighter to style and rejoin.
pub fn highlight_words(line: &str) -> (r: Vec<(String, bool)>)
    ensures
        r@.map_values(|p: (String, bool)| p.0@) == tokens_of(line@),
        forall|i: int|
            0 <= i < r@.len() ==> (#[trigger] r@[i]).1 == is_keyword_s(tokens_of(line@)[i]),
{
    let words = crate::strutil::tokenize(line);
    let n = words.len();
    let mut r: Vec<(String, bool)> = Vec::new();
    let mut i: usize = 0;
    while i < n
        invariant
            n == words@.len(),
            words@.map_values(|t: String| t@) == tokens_of(line@),
            i <= n,
            r@.len() == i,
            forall|j: int| 0 <= j < i ==> (#[trigger] r@[j]).0@ == words@[j]@,
            forall|j: int| 0 <= j < i ==> (#[trigger] r@[j]).1 == is_keyword_s(words@[j]@),
        decreases n - i,
    {
        let kw = is_keyword(words[i].as_str());
        let w = words[i].clone();
        proof {
            assert(words@.map_values(|t: String| t@)[i as int] == words@[i as int]@);
        }
        r.push((w, kw));
        i += 1;
    }
    proof {
        assert(r@.map_values(|p: (String, bool)| p.0@) =~= tokens_of(line@));
        assert(forall|i: int|
            0 <= i < r@.len() ==> tokens_of(line@)[i] == words@.map_values(|t: String| t@)[i]);
    }
    r
}

/// Where the word under the cursor starts: right after the last space
/// before `pos`, or at the start of the line.
pub open spec fn word_start(s: Seq<char>, pos: int) -> int
    decreases pos,
{
    if pos > 0 && s[pos - 1] != ' ' {
        word_start(s, pos - 1)
    } else {
        pos
    }
}

/// The words of `ws` that begin with `p`, kept in order.
pub open spec fn prefix_filter(ws: Seq<Seq<char>>, p: Seq<char>) -> Seq<Seq<char>>
    decreases ws.len(),
{
    if ws.len() == 0 {
        Seq::empty()
    } else {
        let rest = prefix_filter(ws.drop_last(), p);
        if is_prefix(p, ws.last()) {
            rest.push(ws.last())
        } else {
            rest
        }
    }
}

/// Filters a word list down to those beginning with `prefix`.
fn filter_prefixed(words: &Vec<String>, prefix: &str) -> (r: Vec<String>)
    ensures
        r@.map_values(|t: String| t@) == prefix_filter(
            words@.map_values(|t: String| t@),
            prefix@,
        ),
{
    let n = words.len();
    let mut r: Vec<String> = Vec::new();
    proof {
        let ws = words@.map_values(|t: String| t@);
        assert(ws.take(0) =~= Seq::<Seq<char>>::empty());
        assert(r@.map_values(|t: String| t@) =~= prefix_filter(ws.take(0), prefix@));
    }
    let mut i: usize = 0;
    while i < n
        invariant
            n == words@.len(),
            i <= n,
            r@.map_values(|t: String| t@) == prefix_filter(
                words@.map_values(|t: String| t@).take(i as int),
                prefix@,
            ),
        decreases n - i,
    {
        let ghost ws = words@.map_values(|t: String| t@);
        proof {
            assert(ws.take(i + 1).drop_last() =~= ws.take(i as int));
            assert(ws.take(i + 1).last() == ws[i as int]);
            assert(ws[i as int] == words@[i as int]@);
        }
        if starts_with(words[i].as_str(), prefix) {
            let w = words[i].clone();
            r.push(w);
            proof {
                assert(r@.map_values(|t: String| t@) =~= r@.drop_last().map_values(
                    |t: String| t@,
                ).push(words@[i as int]@));
                assert(r@.map_values(|t: String| t@) =~= prefix_filter(ws.take(i + 1), prefix@));
            }
        } else {
            proof {
                assert(r@.map_values(|t: String| t@) =~= prefix_filter(ws.take(i + 1), prefix@));
            }
        }
        i += 1;
    }
    proof {
        assert(words@.map_values(|t: String| t@).take(n as int) =~= words@.map_values(
            |t: String| t@,
        ));
    }
    r
}

/// Completion for one line: standard-query names after `@`, command
/// names after `:`, table names for the word under the cursor
/// otherwise. Returns where the completed word starts and the
/// candidates.
pub fn complete(helper: &Helper, line: &str, pos: usize) -> (r: (usize, Vec<String>))
    requires
        pos <= line@.len(),
    ensures
        line@.len() > 0 && line@[0] == '@' ==> r.0 == 1 && r.1@.map_values(|t: String| t@)
            == prefix_filter(
            helper.query_completions@.map_values(|t: String| t@),
            line@.skip(1),
        ),
        line@.len() > 0 && line@[0] == ':' ==> r.0 == 1 && r.1@.map_values(|t: String| t@)
            == prefix_filter(
            helper.command_completions@.map_values(|t: String| t@),
            line@.skip(1),
        ),
        line@.len() == 0 || (line@[0] != '@' && line@[0] != ':') ==> r.0 == word_start(
            line@,
            pos as int,
        ) && r.1@.map_values(|t: String| t@) == prefix_filter(
            helper.completions@.map_values(|t: String| t@),
            line@.subrange(word_start(line@, pos as int), pos as int),
        ),
{
    let len = line.unicode_len();
    if len > 0 && line.get_char(0) == '@' {
        let rest = line.substring_char(1, len);
        proof {
            assert(rest@ =~= line@.skip(1));
        }
        (1, filter_prefixed(&helper.query_completions, rest))
    } else if len > 0 && line.get_char(0) == ':' {
        let rest = line.substring_char(1, len);
        proof {
            assert(rest@ =~= line@.skip(1));
        }
        (1, filter_prefixed(&helper.command_completions, rest))
    } else {
        let mut start = pos;
        while start > 0 && line.get_char(start - 1) != ' '
            invariant
                pos <= line@.len(),
                len == line@.len(),
                start <= pos,
                word_start(line@, pos as int) == word_start(line@, start as int),
            decreases start,
        {
            start -= 1;
        }
        let word = line.substring_char(start, pos);
        (start, filter_prefixed(&helper.completions, word))
    }
}

/// Every word the prefix filter keeps begins with the prefix.
pub proof fn lemma_prefix_filter_elems(ws: Seq<Seq<char>>, p: Seq<char>)
    ensures
        forall|i: int|
            0 <= i < prefix_filter(ws, p).len() ==> is_prefix(p, #[trigger] prefix_filter(ws, p)[i]),
    decreases ws.len(),
{
    if ws.len() > 0 {
        lemma_prefix_filter_elems(ws.drop_last(), p);
        let rest = prefix_filter(ws.drop_last(), p);
        if is_prefix(p, ws.last()) {
            assert forall|i: int|
                0 <= i < prefix_filter(ws, p).len() implies is_prefix(
                p,
                #[trigger] prefix_filter(ws, p)[i],
            ) by {
                if i < rest.len() {
                    assert(prefix_filter(ws, p)[i] == rest[i]);
                } else {
                    assert(prefix_filter(ws, p)[i] == ws.last());
                }
            }
        }
    }
}

/// The word under the cursor starts at or before the cursor.
pub proof fn lemma_word_start_bounds(s: Seq<char>, pos: int)
    requires
        pos >= 0,
    ensures
        0 <= word_start(s, pos) <= pos,
    decreases pos,
{
    if pos > 0 && s[pos - 1] != ' ' {
        lemma_word_start_bounds(s, pos - 1);
    }
}

/// The inline hint for one line: the untyped tail of the first
/// completion candidate, offered once enough is typed — from the first
/// character of a standard-query name, from the fourth character of a
/// word otherwise.
pub fn hint(helper: &Helper, line: &str, pos: usize) -> (r: Option<String>)
    requires
        pos <= line@.len(),
        line@.len() > 0 && line@[0] == '@' ==> pos >= 1,
    ensures
        ({
            let n = line@.len() as int;
            if n > 0 && line@[0] == '@' {
                let ws = prefix_filter(
                    helper.query_completions@.map_values(|t: String| t@),
                    line@.skip(1),
                );
                if ws.len() > 0 {
                    r matches Some(h) && h@ == ws[0].skip(pos - 1)
                } else {
                    r is None
                }
            } else if pos > 5 {
                if n > 0 && line@[0] == ':' {
                    let ws = prefix_filter(
                        helper.command_completions@.map_values(|t: String| t@),
                        line@.skip(1),
                    );
                    if pos - 1 > 3 && ws.len() > 0 {
                        r matches Some(h) && h@ == ws[0].skip(pos - 1)
                    } else {
                        r is None
                    }
                } else {
                    let st = word_start(line@, pos as int);
                    let ws = prefix_filter(
                        helper.completions@.map_values(|t: String| t@),
                        line@.subrange(st, pos as int),
                    );
                    if pos - st > 3 && ws.len() > 0 {
                        r matches Some(h) && h@ == ws[0].skip(pos - st)
                    } else {
                        r is None
                    }
                }
            } else {
                r is None
            }
        }),
{
    let len = line.unicode_len();
    if len > 0 && line.get_char(0) == '@' {
        let idx = pos - 1;
        let (_start, words) = complete(helper, line, pos);
        if words.len() == 0 {
            return None;
        }
        let first = &words[0];
        proof {
            lemma_prefix_filter_elems(
                helper.query_completions@.map_values(|t: String| t@),
                line@.skip(1),
            );
            assert(words@.map_values(|t: String| t@)[0] == first@);
            assert(line@.skip(1).len() == len - 1 >= idx);
        }
        let l = first.as_str().unicode_len();
        let tail = first.as_str().substring_char(idx, l);
        proof {
            assert(tail@ =~= first@.skip(idx as int));
        }
        Some(tail.to_owned())
    } else if pos > 5 {
        let (start, words) = complete(helper, line, pos);
        proof {
            lemma_word_start_bounds(line@, pos as int);
        }
        let idx = pos - start;
        if idx > 3 {
            if words.len() == 0 {
                return None;
            }
            let first = &words[0];
            proof {
                if line@.len() > 0 && line@[0] == ':' {
                    lemma_prefix_filter_elems(
                        helper.command_completions@.map_values(|t: String| t@),
                        line@.skip(1),
                    );
                    assert(line@.skip(1).len() == len - 1 >= idx);
                } else {
                    lemma_prefix_filter_elems(
                        helper.completions@.map_values(|t: String| t@),
                        line@.subrange(word_start(line@, pos as int), pos as int),
                    );
                }
                assert(words@.map_values(|t: String| t@)[0] == first@);
            }
            let l = first.as_str().unicode_len();
            let tail = first.as_str().substring_char(idx, l);
            proof {
                assert(tail@ =~= first@.skip(idx as int));
            }
            Some(tail.to_owned())
        } else {
            None
        }
    } else {
        None
    }
}

} // verus!
