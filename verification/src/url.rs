//! The connection URL grammars.
//!
//! A Postgres URL must end in `//host:port/dbname`; a MySQL URL must end
//! in `//host/dbname`. The host is any non-empty run free of `/` and `:`,
//! the port a non-empty digit run, the database name a non-empty run of
//! word characters. Parsing scans from the end; the decomposition, when
//! one exists, is unique, and the parsers are proved complete: `None` is
//! returned only when no decomposition exists.

use vstd::prelude::*;

use crate::strutil::{all_digits, is_digit};

verus! {

/// A word character: a letter, a digit or an underscore.
pub open spec fn is_word_char(c: char) -> bool {
    ('a' <= c && c <= 'z') || ('A' <= c && c <= 'Z') || ('0' <= c && c <= '9') || c == '_'
}

/// A character allowed in a host name: anything but `/` and `:`.
pub open spec fn is_host_char(c: char) -> bool {
    c != '/' && c != ':'
}

/// All characters are word characters.
pub open spec fn all_word(s: Seq<char>) -> bool {
    forall|i: int| 0 <= i < s.len() ==> is_word_char(s[i])
}

/// All characters are host characters.
pub open spec fn all_host(s: Seq<char>) -> bool {
    forall|i: int| 0 <= i < s.len() ==> is_host_char(s[i])
}

/// Word-character test.
pub fn is_word_char_c(c: char) -> (r: bool)
    ensures
        r == is_word_char(c),
{
    ('a' <= c && c <= 'z') || ('A' <= c && c <= 'Z') || ('0' <= c && c <= '9') || c == '_'
}

/// Digit test.
pub fn is_digit_c(c: char) -> (r: bool)
    ensures
        r == is_digit(c),
{
    c == '0' || c == '1' || c == '2' || c == '3' || c == '4' || c == '5' || c == '6'
        || c == '7' || c == '8' || c == '9'
}

/// Host-character test.
pub fn is_host_char_c(c: char) -> (r: bool)
    ensures
        r == is_host_char(c),
{
    c != '/' && c != ':'
}

/// `u` ends in `//h:p/d`: host `h`, port `p`, database `d`, with the
/// required character classes and nothing between the pieces.
pub open spec fn pg_url_decomp(u: Seq<char>, h: Seq<char>, p: Seq<char>, d: Seq<char>) -> bool {
    let n = u.len() as int;
    let lh = h.len() as int;
    let lp = p.len() as int;
    let ld = d.len() as int;
    &&& lh >= 1
    &&& lp >= 1
    &&& ld >= 1
    &&& n >= lh + lp + ld + 4
    &&& d == u.subrange(n - ld, n)
    &&& all_word(d)
    &&& u[n - ld - 1] == '/'
    &&& p == u.subrange(n - ld - 1 - lp, n - ld - 1)
    &&& all_digits(p)
    &&& u[n - ld - 2 - lp] == ':'
    &&& h == u.subrange(n - ld - 2 - lp - lh, n - ld - 2 - lp)
    &&& all_host(h)
    &&& u[n - ld - 3 - lp - lh] == '/'
    &&& u[n - ld - 4 - lp - lh] == '/'
}

/// Some Postgres decomposition of `u` exists.
pub open spec fn pg_url_ok(u: Seq<char>) -> bool {
    exists|h: Seq<char>, p: Seq<char>, d: Seq<char>| pg_url_decomp(u, h, p, d)
}

/// Parses a Postgres URL suffix `//host:port/dbname`.
///
/// Returns the host, port and database name; `None` exactly when the URL
/// has no such suffix.
pub fn parse_pg_url(u: &str) -> (r: Option<(String, String, String)>)
    ensures
        match r {
            Some(t) => pg_url_decomp(u@, t.0@, t.1@, t.2@),
            None => !pg_url_ok(u@),
        },
{
    let n = u.unicode_len();
    // database name: the maximal word-character suffix
    let mut a = n;
    while a > 0 && is_word_char_c(u.get_char(a - 1))
        invariant
            n == u@.len(),
            a <= n,
            forall|k: int| a <= k < n ==> is_word_char(u@[k]),
        decreases a,
    {
        a -= 1;
    }
    if a == n || a == 0 || u.get_char(a - 1) != '/' {
        proof {
            if pg_url_ok(u@) {
                let (h, p, d): (Seq<char>, Seq<char>, Seq<char>) =
                    choose|h: Seq<char>, p: Seq<char>, d: Seq<char>| pg_url_decomp(u@, h, p, d);
                let ld = d.len() as int;
                assert(d[ld - 1] == u@[n - 1]);
                assert(is_word_char(u@[n - 1]));
                // the suffix run is maximal, so the name region ends at `a`
                if n - ld < a {
                    assert(d[a - 1 - (n - ld)] == u@[a - 1]);
                    assert(is_word_char(u@[a - 1]));
                }
                if n - ld > a {
                    assert(is_word_char(u@[n - ld - 1]));
                }
                assert(n - ld == a);
                assert(false);
            }
        }
        return None;
    }
    let slash1 = a - 1;
    // port: the maximal digit run before the slash
    let mut b = slash1;
    while b > 0 && is_digit_c(u.get_char(b - 1))
        invariant
            n == u@.len(),
            b <= slash1 < n,
            forall|k: int| b <= k < slash1 ==> is_digit(u@[k]),
        decreases b,
    {
        b -= 1;
    }
    if b == slash1 || b == 0 || u.get_char(b - 1) != ':' {
        proof {
            if pg_url_ok(u@) {
                let (h, p, d): (Seq<char>, Seq<char>, Seq<char>) =
                    choose|h: Seq<char>, p: Seq<char>, d: Seq<char>| pg_url_decomp(u@, h, p, d);
                let ld = d.len() as int;
                let lp = p.len() as int;
                if n - ld < a {
                    assert(d[a - 1 - (n - ld)] == u@[a - 1]);
                }
                if n - ld > a {
                    assert(is_word_char(u@[n - ld - 1]));
                }
                assert(n - ld == a);
                // the digit run is maximal, so the port region ends at `b`
                let pstart = n - ld - 1 - lp;
                assert(p[0] == u@[pstart]);
                assert(p[lp - 1] == u@[slash1 - 1]);
                assert(is_digit(u@[slash1 - 1]));
                if pstart < b {
                    assert(p[b - 1 - pstart] == u@[b - 1]);
                    assert(is_digit(u@[b - 1]));
                }
                if pstart > b {
                    assert(is_digit(u@[pstart - 1]) == false);
                    assert(u@[pstart - 1] == ':');
                    assert(pstart - 1 >= b);
                    assert(is_digit(u@[pstart - 1]));
                }
                assert(pstart == b);
                assert(false);
            }
        }
        return None;
    }
    let colon = b - 1;
    // host: the maximal host-character run before the colon
    let mut c = colon;
    while c > 0 && is_host_char_c(u.get_char(c - 1))
        invariant
            n == u@.len(),
            c <= colon < n,
            forall|k: int| c <= k < colon ==> is_host_char(u@[k]),
        decreases c,
    {
        c -= 1;
    }
    if c == colon || c < 2 || u.get_char(c - 1) != '/' || u.get_char(c - 2) != '/' {
        proof {
            if pg_url_ok(u@) {
                let (h, p, d): (Seq<char>, Seq<char>, Seq<char>) =
                    choose|h: Seq<char>, p: Seq<char>, d: Seq<char>| pg_url_decomp(u@, h, p, d);
                let ld = d.len() as int;
                let lp = p.len() as int;
                let lh = h.len() as int;
                if n - ld < a {
                    assert(d[a - 1 - (n - ld)] == u@[a - 1]);
                }
                if n - ld > a {
                    assert(is_word_char(u@[n - ld - 1]));
                }
                assert(n - ld == a);
                let pstart = n - ld - 1 - lp;
                if pstart < b {
                    assert(p[b - 1 - pstart] == u@[b - 1]);
                }
                if pstart > b {
                    assert(u@[pstart - 1] == ':');
                    assert(is_digit(u@[pstart - 1]));
                }
                assert(pstart == b);
                // the host run is maximal, so the host region ends at `c`
                let hstart = pstart - 1 - lh;
                assert(h[0] == u@[hstart]);
                assert(h[lh - 1] == u@[colon - 1]);
                assert(is_host_char(u@[colon - 1]));
                if hstart < c {
                    assert(h[c - 1 - hstart] == u@[c - 1]);
                    assert(is_host_char(u@[c - 1]));
                }
                if hstart > c {
                    assert(u@[hstart - 1] == '/');
                    assert(hstart - 1 >= c);
                    assert(is_host_char(u@[hstart - 1]));
                }
                assert(hstart == c);
                assert(false);
            }
        }
        return None;
    }
    let host = u.substring_char(c, colon).to_owned();
    let port = u.substring_char(b, slash1).to_owned();
    let db = u.substring_char(a, n).to_owned();
    proof {
        assert(pg_url_decomp(u@, host@, port@, db@));
    }
    Some((host, port, db))
}

/// `u` ends in `//h/d`: host `h` and database `d`.
pub open spec fn my_url_decomp(u: Seq<char>, h: Seq<char>, d: Seq<char>) -> bool {
    let n = u.len() as int;
    let lh = h.len() as int;
    let ld = d.len() as int;
    &&& lh >= 1
    &&& ld >= 1
    &&& n >= lh + ld + 3
    &&& d == u.subrange(n - ld, n)
    &&& all_word(d)
    &&& u[n - ld - 1] == '/'
    &&& h == u.subrange(n - ld - 1 - lh, n - ld - 1)
    &&& all_host(h)
    &&& u[n - ld - 2 - lh] == '/'
    &&& u[n - ld - 3 - lh] == '/'
}

/// Some MySQL decomposition of `u` exists.
pub open spec fn my_url_ok(u: Seq<char>) -> bool {
    exists|h: Seq<char>, d: Seq<char>| my_url_decomp(u, h, d)
}

/// Parses a MySQL URL suffix `//host/dbname`.
///
/// Returns the host and database name; `None` exactly when the URL has
/// no such suffix.
pub fn parse_my_url(u: &str) -> (r: Option<(String, String)>)
    ensures
        match r {
            Some(t) => my_url_decomp(u@, t.0@, t.1@),
            None => !my_url_ok(u@),
        },
{
    let n = u.unicode_len();
    let mut a = n;
    while a > 0 && is_word_char_c(u.get_char(a - 1))
        invariant
            n == u@.len(),
            a <= n,
            forall|k: int| a <= k < n ==> is_word_char(u@[k]),
        decreases a,
    {
        a -= 1;
    }
    if a == n || a == 0 || u.get_char(a - 1) != '/' {
        proof {
            if my_url_ok(u@) {
                let (h, d): (Seq<char>, Seq<char>) =
                    choose|h: Seq<char>, d: Seq<char>| my_url_decomp(u@, h, d);
                let ld = d.len() as int;
                assert(d[ld - 1] == u@[n - 1]);
                if n - ld < a {
                    assert(d[a - 1 - (n - ld)] == u@[a - 1]);
                }
                if n - ld > a {
                    assert(is_word_char(u@[n - ld - 1]));
                }
                assert(n - ld == a);
                assert(false);
            }
        }
        return None;
    }
    let slash1 = a - 1;
    let mut c = slash1;
    while c > 0 && is_host_char_c(u.get_char(c - 1))
        invariant
            n == u@.len(),
            c <= slash1 < n,
            forall|k: int| c <= k < slash1 ==> is_host_char(u@[k]),
        decreases c,
    {
        c -= 1;
    }
    if c == slash1 || c < 2 || u.get_char(c - 1) != '/' || u.get_char(c - 2) != '/' {
        proof {
            if my_url_ok(u@) {
                let (h, d): (Seq<char>, Seq<char>) =
                    choose|h: Seq<char>, d: Seq<char>| my_url_decomp(u@, h, d);
                let ld = d.len() as int;
                let lh = h.len() as int;
                if n - ld < a {
                    assert(d[a - 1 - (n - ld)] == u@[a - 1]);
                }
                if n - ld > a {
                    assert(is_word_char(u@[n - ld - 1]));
                }
                assert(n - ld == a);
                let hstart = n - ld - 1 - lh;
                assert(h[0] == u@[hstart]);
                assert(h[lh - 1] == u@[slash1 - 1]);
                assert(is_host_char(u@[slash1 - 1]));
                if hstart < c {
                    assert(h[c - 1 - hstart] == u@[c - 1]);
                    assert(is_host_char(u@[c - 1]));
                }
                if hstart > c {
                    assert(u@[hstart - 1] == '/');
                    assert(hstart - 1 >= c);
                    assert(is_host_char(u@[hstart - 1]));
                }
                assert(hstart == c);
                assert(false);
            }
        }
        return None;
    }
    let host = u.substring_char(c, slash1).to_owned();
    let db = u.substring_char(a, n).to_owned();
    proof {
        assert(my_url_decomp(u@, host@, db@));
    }
    Some((host, db))
}

} // verus!
