//! The value normalizer: per-backend rules that turn a native column
//! value into the one textual cell model, `Option<String>` with `None`
//! for SQL NULL.
//!
//! Native driver values are modelled as plain data — integers, text,
//! date-time fields, interval fields — so that every normalization rule
//! is stated and proved here. The surrounding binary only moves fields
//! out of driver values into these models.

use vstd::prelude::*;

use crate::strutil::{
    int_str, pad6_i64, pad6_str, pad_u64, padded_dec, i32_to_string, i64_to_string,
};
use crate::db::cell_view;

verus! {

/// A wall-clock date and time, split into plain fields.
#[derive(Debug, Clone, Copy, PartialEq, Eq)]
pub struct DateTime {
    pub year: i32,
    pub month: u8,
    pub day: u8,
    pub hour: u8,
    pub minute: u8,
    pub second: u8,
    /// Microseconds within the second.
    pub micro: u32,
}

/// The fractional-second suffix: empty for a whole second, three digits
/// for a whole millisecond, six digits otherwise.
pub open spec fn frac_str(micro: nat) -> Seq<char> {
    if micro == 0 {
        Seq::<char>::empty()
    } else if micro % 1000 == 0 {
        seq!['.'] + padded_dec(micro / 1000, 3)
    } else {
        seq!['.'] + padded_dec(micro, 6)
    }
}

/// The rendered form of a date and time:
/// `YYYY-MM-DD HH:MM:SS` with the fractional suffix, the year signed
/// and zero-padded to four digits.
pub open spec fn datetime_str(d: DateTime) -> Seq<char> {
    let ypart = if d.year >= 0 {
        padded_dec(d.year as nat, 4)
    } else {
        seq!['-'] + padded_dec((-(d.year as int)) as nat, 4)
    };
    ypart + seq!['-'] + padded_dec(d.month as nat, 2) + seq!['-'] + padded_dec(d.day as nat, 2)
        + seq![' '] + padded_dec(d.hour as nat, 2) + seq![':'] + padded_dec(d.minute as nat, 2)
        + seq![':'] + padded_dec(d.second as nat, 2) + frac_str(d.micro as nat)
}

impl DateTime {
    /// Renders this date and time.
    #[verifier::rlimit(60)]
    pub fn to_text(&self) -> (r: String)
        ensures
            r@ == datetime_str(*self),
    {
        let mut s = String::new();
        if self.year < 0 {
            s.push('-');
            let y = pad_u64((-(self.year as i64)) as u64, 4);
            s.append(y.as_str());
        } else {
            let y = pad_u64(self.year as u64, 4);
            s.append(y.as_str());
        }
        s.push('-');
        let p = pad_u64(self.month as u64, 2);
        s.append(p.as_str());
        s.push('-');
        let p = pad_u64(self.day as u64, 2);
        s.append(p.as_str());
        s.push(' ');
        let p = pad_u64(self.hour as u64, 2);
        s.append(p.as_str());
        s.push(':');
        let p = pad_u64(self.minute as u64, 2);
        s.append(p.as_str());
        s.push(':');
        let p = pad_u64(self.second as u64, 2);
        s.append(p.as_str());
        if self.micro != 0 {
            s.push('.');
            if self.micro % 1000 == 0 {
                let p = pad_u64((self.micro / 1000) as u64, 3);
                s.append(p.as_str());
            } else {
                let p = pad_u64(self.micro as u64, 6);
                s.append(p.as_str());
            }
        }
        proof {
            assert(s@ =~= datetime_str(*self));
        }
        s
    }
}

/// The rendered form of a whole-minute zone offset: sign, hours and
/// minutes, two digits each.
pub open spec fn offset_str(secs: int) -> Seq<char> {
    let a = if secs < 0 {
        -secs
    } else {
        secs
    };
    (if secs < 0 {
        seq!['-']
    } else {
        seq!['+']
    }) + padded_dec((a / 3600) as nat, 2) + seq![':'] + padded_dec(((a % 3600) / 60) as nat, 2)
}

/// A date and time together with its fixed zone offset.
#[derive(Debug, Clone, Copy, PartialEq, Eq)]
pub struct TzDateTime {
    pub dt: DateTime,
    /// Offset from UTC in seconds, positive east of Greenwich.
    pub offset_seconds: i32,
}

/// The rendered form of a zoned date and time: the wall-clock text, a
/// space, and the offset.
pub open spec fn tz_datetime_str(t: TzDateTime) -> Seq<char> {
    datetime_str(t.dt) + seq![' '] + offset_str(t.offset_seconds as int)
}

impl TzDateTime {
    /// Renders this zoned date and time.
    pub fn to_text(&self) -> (r: String)
        ensures
            r@ == tz_datetime_str(*self),
    {
        let mut s = self.dt.to_text();
        s.push(' ');
        let a: u32 = if self.offset_seconds == i32::MIN {
            2147483648u32
        } else if self.offset_seconds < 0 {
            (-self.offset_seconds) as u32
        } else {
            self.offset_seconds as u32
        };
        if self.offset_seconds < 0 {
            s.push('-');
        } else {
            s.push('+');
        }
        let p = pad_u64((a / 3600) as u64, 2);
        s.append(p.as_str());
        s.push(':');
        let p = pad_u64(((a % 3600) / 60) as u64, 2);
        s.append(p.as_str());
        proof {
            assert(s@ =~= tz_datetime_str(*self));
        }
        s
    }
}

/// Truncating division, the semantics of machine division: the quotient
/// is rounded toward zero.
pub open spec fn trunc_div(a: int, b: int) -> int {
    if a >= 0 {
        a / b
    } else {
        -((-a) / b)
    }
}

/// The remainder of truncating division: it carries the sign of the
/// dividend.
pub open spec fn trunc_rem(a: int, b: int) -> int {
    if a >= 0 {
        a % b
    } else {
        -((-a) % b)
    }
}

/// A Postgres interval value: months, days and a sub-day time part,
/// exactly the three fields of the wire format.
#[derive(Debug, Clone, Copy, PartialEq)]
pub struct Interval {
    pub seconds: i64,
    pub microseconds: i64,
    pub days: i32,
    pub months: i32,
}

/// The rendered form of an interval, ISO-8601-duration-like:
/// `P<months>M<days>DT<h>H<m>M<s>.<ffffff>S`, the month and day parts
/// only when non-zero, the time part only when the time is non-zero.
pub open spec fn interval_str(iv: Interval) -> Seq<char> {
    let months_part = if iv.months != 0 {
        int_str(iv.months as int) + seq!['M']
    } else {
        Seq::<char>::empty()
    };
    let days_part = if iv.days != 0 {
        int_str(iv.days as int) + seq!['D']
    } else {
        Seq::<char>::empty()
    };
    let time_part = if iv.seconds != 0 || iv.microseconds != 0 {
        int_str(trunc_div(iv.seconds as int, 3600)) + seq!['H'] + int_str(
            trunc_div(trunc_rem(iv.seconds as int, 3600), 60),
        ) + seq!['M'] + int_str(trunc_rem(iv.seconds as int, 60)) + seq!['.'] + pad6_str(
            iv.microseconds as int,
        ) + seq!['S']
    } else {
        Seq::<char>::empty()
    };
    seq!['P'] + months_part + days_part + seq!['T'] + time_part
}

impl Interval {
    /// Renders this interval.
    #[verifier::rlimit(60)]
    pub fn to_iso_string(&self) -> (r: String)
        ensures
            r@ == interval_str(*self),
    {
        let neg = self.seconds < 0;
        let m: u64 = if self.seconds == i64::MIN {
            9223372036854775808u64
        } else if neg {
            (-self.seconds) as u64
        } else {
            self.seconds as u64
        };
        let hq = m / 3600;
        let hr = m % 3600;
        let mq = hr / 60;
        let sr = m % 60;
        proof {
            assert(hq * 3600 + m % 3600 == m);
            assert(hq <= 2562047788015216);
        }
        let hours: i64 = if neg {
            -(hq as i64)
        } else {
            hq as i64
        };
        let minutes: i64 = if neg {
            -(mq as i64)
        } else {
            mq as i64
        };
        let seconds: i64 = if neg {
            -(sr as i64)
        } else {
            sr as i64
        };
        let mut s = String::new();
        s.push('P');
        if self.months != 0 {
            let t = i32_to_string(self.months);
            s.append(t.as_str());
            s.push('M');
        }
        if self.days != 0 {
            let t = i32_to_string(self.days);
            s.append(t.as_str());
            s.push('D');
        }
        s.push('T');
        if self.seconds != 0 || self.microseconds != 0 {
            let t = i64_to_string(hours);
            s.append(t.as_str());
            s.push('H');
            let t = i64_to_string(minutes);
            s.append(t.as_str());
            s.push('M');
            let t = i64_to_string(seconds);
            s.append(t.as_str());
            s.push('.');
            let t = pad6_i64(self.microseconds);
            s.append(t.as_str());
            s.push('S');
        }
        proof {
            assert(s@ =~= interval_str(*self));
        }
        s
    }
}

/// The value of eight bytes read as a big-endian unsigned integer.
pub open spec fn be_u64_of(s: Seq<u8>) -> int {
    s[0] * 0x100000000000000 + s[1] * 0x1000000000000 + s[2] * 0x10000000000 + s[3] * 0x100000000
        + s[4] * 0x1000000 + s[5] * 0x10000 + s[6] * 0x100 + s[7]
}

/// The value of eight bytes read as a big-endian two's-complement
/// signed integer.
pub open spec fn be_i64_of(s: Seq<u8>) -> int {
    if be_u64_of(s) >= 0x8000000000000000 {
        be_u64_of(s) - 0x10000000000000000
    } else {
        be_u64_of(s)
    }
}

/// The value of four bytes read as a big-endian unsigned integer.
pub open spec fn be_u32_of(s: Seq<u8>) -> int {
    s[0] * 0x1000000 + s[1] * 0x10000 + s[2] * 0x100 + s[3]
}

/// The value of four bytes read as a big-endian two's-complement
/// signed integer.
pub open spec fn be_i32_of(s: Seq<u8>) -> int {
    if be_u32_of(s) >= 0x80000000 {
        be_u32_of(s) - 0x100000000
    } else {
        be_u32_of(s)
    }
}

/// Reads a big-endian signed 64-bit integer at `off`.
pub fn read_be_i64(buf: &[u8], off: usize) -> (r: i64)
    requires
        off + 8 <= buf@.len(),
    ensures
        r as int == be_i64_of(buf@.subrange(off as int, off + 8)),
{
    let v: u64 = (buf[off] as u64) * 0x100000000000000 + (buf[off + 1] as u64) * 0x1000000000000
        + (buf[off + 2] as u64) * 0x10000000000 + (buf[off + 3] as u64) * 0x100000000 + (buf[off
        + 4] as u64) * 0x1000000 + (buf[off + 5] as u64) * 0x10000 + (buf[off + 6] as u64) * 0x100
        + (buf[off + 7] as u64);
    proof {
        let s = buf@.subrange(off as int, off + 8);
        assert(s[0] == buf@[off as int]);
        assert(s[1] == buf@[off + 1]);
        assert(s[2] == buf@[off + 2]);
        assert(s[3] == buf@[off + 3]);
        assert(s[4] == buf@[off + 4]);
        assert(s[5] == buf@[off + 5]);
        assert(s[6] == buf@[off + 6]);
        assert(s[7] == buf@[off + 7]);
    }
    if v >= 0x8000000000000000 {
        let w: u64 = 0xFFFFFFFFFFFFFFFFu64 - v;
        -(w as i64) - 1
    } else {
        v as i64
    }
}

/// Reads a big-endian signed 32-bit integer at `off`.
pub fn read_be_i32(buf: &[u8], off: usize) -> (r: i32)
    requires
        off + 4 <= buf@.len(),
    ensures
        r as int == be_i32_of(buf@.subrange(off as int, off + 4)),
{
    let v: u32 = (buf[off] as u32) * 0x1000000 + (buf[off + 1] as u32) * 0x10000 + (buf[off
        + 2] as u32) * 0x100 + (buf[off + 3] as u32);
    proof {
        let s = buf@.subrange(off as int, off + 4);
        assert(s[0] == buf@[off as int]);
        assert(s[1] == buf@[off + 1]);
        assert(s[2] == buf@[off + 2]);
        assert(s[3] == buf@[off + 3]);
    }
    if v >= 0x80000000 {
        let w: u32 = 0xFFFFFFFFu32 - v;
        -(w as i32) - 1
    } else {
        v as i32
    }
}

/// Decodes an interval from its wire bytes: a big-endian microsecond
/// count, then the day and month counts. Fails exactly when fewer than
/// sixteen bytes are given; extra bytes are ignored.
pub fn interval_from_sql(buf: &[u8]) -> (r: Result<Interval, crate::db::Error>)
    ensures
        r is Ok <==> buf@.len() >= 16,
        match r {
            Ok(iv) => {
                let time = be_i64_of(buf@.subrange(0, 8));
                &&& iv.seconds as int == trunc_div(time, 1000000)
                &&& iv.microseconds as int == trunc_rem(time, 1000000)
                &&& iv.days as int == be_i32_of(buf@.subrange(8, 12))
                &&& iv.months as int == be_i32_of(buf@.subrange(12, 16))
            },
            Err(e) => e is QueryExecutionError,
        },
{
    if buf.len() < 16 {
        return Err(
            crate::db::Error::QueryExecutionError("interval value has fewer than 16 bytes".to_owned()),
        );
    }
    let time = read_be_i64(buf, 0);
    let neg = time < 0;
    let m: u64 = if time == i64::MIN {
        9223372036854775808u64
    } else if neg {
        (-time) as u64
    } else {
        time as u64
    };
    let q = m / 1000000;
    let r = m % 1000000;
    proof {
        assert(q * 1000000 + m % 1000000 == m);
        assert(q <= 9223372036854);
    }
    let seconds: i64 = if neg {
        -(q as i64)
    } else {
        q as i64
    };
    let microseconds: i64 = if neg {
        -(r as i64)
    } else {
        r as i64
    };
    let days = read_be_i32(buf, 8);
    let months = read_be_i32(buf, 12);
    Ok(Interval { seconds, microseconds, days, months })
}

/// A native Postgres column value, keyed by the column's type tag, as
/// the adapter hands it over: each typed variant carries `None` for SQL
/// NULL.
#[derive(Debug, Clone, PartialEq)]
pub enum PgValue {
    /// `text`, `varchar` or `name`.
    Text(Option<String>),
    /// `int8`.
    Int8(Option<i64>),
    /// `int4`.
    Int4(Option<i32>),
    /// `int2`.
    Int2(Option<i16>),
    /// `timestamp`.
    Timestamp(Option<DateTime>),
    /// `timestamptz`.
    TimestampTz(Option<TzDateTime>),
    /// `bool`.
    Bool(Option<bool>),
    /// `interval`.
    Interval(Option<Interval>),
    /// Any other type: its tag's debug form, rendered as a placeholder.
    Other(String),
    /// No column metadata at this index.
    Missing,
}

/// The normalized cell for a native Postgres value.
pub open spec fn pg_cell_s(v: PgValue) -> Option<Seq<char>> {
    match v {
        PgValue::Text(o) => match o {
            Some(s) => Some(s@),
            None => None,
        },
        PgValue::Int8(o) => match o {
            Some(i) => Some(int_str(i as int)),
            None => None,
        },
        PgValue::Int4(o) => match o {
            Some(i) => Some(int_str(i as int)),
            None => None,
        },
        PgValue::Int2(o) => match o {
            Some(i) => Some(int_str(i as int)),
            None => None,
        },
        PgValue::Timestamp(o) => match o {
            Some(d) => Some(datetime_str(d)),
            None => None,
        },
        PgValue::TimestampTz(o) => match o {
            Some(t) => Some(tz_datetime_str(t)),
            None => None,
        },
        PgValue::Bool(o) => match o {
            Some(b) => Some(if b { "true"@ } else { "false"@ }),
            None => None,
        },
        PgValue::Interval(o) => match o {
            Some(iv) => Some(interval_str(iv)),
            None => None,
        },
        PgValue::Other(tag) => Some("?"@ + tag@),
        PgValue::Missing => Some("???"@),
    }
}

/// Normalizes one native Postgres value: NULL to `None`, numbers and
/// dates to their decimal and ISO-style texts, unknown types to a
/// tagged placeholder.
pub fn pg_cell(v: &PgValue) -> (r: Option<String>)
    ensures
        cell_view(r) == pg_cell_s(*v),
{
    match v {
        PgValue::Text(o) => match o {
            Some(s) => Some(s.clone()),
            None => None,
        },
        PgValue::Int8(o) => match o {
            Some(i) => Some(i64_to_string(*i)),
            None => None,
        },
        PgValue::Int4(o) => match o {
            Some(i) => Some(i32_to_string(*i)),
            None => None,
        },
        PgValue::Int2(o) => match o {
            Some(i) => Some(i64_to_string(*i as i64)),
            None => None,
        },
        PgValue::Timestamp(o) => match o {
            Some(d) => Some(d.to_text()),
            None => None,
        },
        PgValue::TimestampTz(o) => match o {
            Some(t) => Some(t.to_text()),
            None => None,
        },
        PgValue::Bool(o) => match o {
            Some(b) => Some(if *b { "true".to_owned() } else { "false".to_owned() }),
            None => None,
        },
        PgValue::Interval(o) => match o {
            Some(iv) => Some(iv.to_iso_string()),
            None => None,
        },
        PgValue::Other(tag) => {
            let mut s = "?".to_owned();
            s.append(tag.as_str());
            Some(s)
        },
        PgValue::Missing => Some("???".to_owned()),
    }
}

/// A native Oracle column value as the adapter hands it over.
#[derive(Debug, Clone, PartialEq)]
pub enum OraValue {
    /// SQL NULL, whatever the column type.
    Null,
    /// `varchar2`.
    Varchar(String),
    /// `int64`, `uint64`, or a number of scale zero, read as an integer.
    Int(i64),
    /// A number of positive scale: the driver's own decimal text.
    Number(String),
    /// `timestamp` or `date`.
    Timestamp(DateTime),
    /// Any other type, rendered as a placeholder.
    Other,
}

/// The normalized cell for a native Oracle value.
pub open spec fn ora_cell_s(v: OraValue) -> Option<Seq<char>> {
    match v {
        OraValue::Null => None,
        OraValue::Varchar(s) => Some(s@),
        OraValue::Int(i) => Some(int_str(i as int)),
        OraValue::Number(s) => Some(s@),
        OraValue::Timestamp(d) => Some(datetime_str(d)),
        OraValue::Other => Some("???"@),
    }
}

/// Normalizes one native Oracle value.
pub fn ora_cell(v: &OraValue) -> (r: Option<String>)
    ensures
        cell_view(r) == ora_cell_s(*v),
{
    match v {
        OraValue::Null => None,
        OraValue::Varchar(s) => Some(s.clone()),
        OraValue::Int(i) => Some(i64_to_string(*i)),
        OraValue::Number(s) => Some(s.clone()),
        OraValue::Timestamp(d) => Some(d.to_text()),
        OraValue::Other => Some("???".to_owned()),
    }
}

/// A native SQLite column value as the adapter hands it over.
#[derive(Debug, Clone, PartialEq)]
pub enum SqliteValue {
    Null,
    Integer(i64),
    /// A real: the driver's own decimal text.
    Real(String),
    Text(String),
    /// A blob, rendered as a placeholder.
    Blob,
}

/// The normalized cell for a native SQLite value.
pub open spec fn sqlite_cell_s(v: SqliteValue) -> Option<Seq<char>> {
    match v {
        SqliteValue::Null => None,
        SqliteValue::Integer(i) => Some(int_str(i as int)),
        SqliteValue::Real(s) => Some(s@),
        SqliteValue::Text(s) => Some(s@),
        SqliteValue::Blob => Some("???"@),
    }
}

/// Normalizes one native SQLite value.
pub fn sqlite_cell(v: &SqliteValue) -> (r: Option<String>)
    ensures
        cell_view(r) == sqlite_cell_s(*v),
{
    match v {
        SqliteValue::Null => None,
        SqliteValue::Integer(i) => Some(i64_to_string(*i)),
        SqliteValue::Real(s) => Some(s.clone()),
        SqliteValue::Text(s) => Some(s.clone()),
        SqliteValue::Blob => Some("???".to_owned()),
    }
}

/// A native MySQL column value as the adapter hands it over.
#[derive(Debug, Clone, PartialEq)]
pub enum MyValue {
    Null,
    /// A byte string, decoded to text by the adapter.
    Bytes(String),
    Int(i64),
    /// A float: the driver's own decimal text.
    Float(String),
    /// A date value, split into plain fields.
    Date(DateTime),
    /// Anything else, rendered as a placeholder.
    Other,
}

/// The normalized cell for a native MySQL value.
pub open spec fn my_cell_s(v: MyValue) -> Option<Seq<char>> {
    match v {
        MyValue::Null => None,
        MyValue::Bytes(s) => Some(s@),
        MyValue::Int(i) => Some(int_str(i as int)),
        MyValue::Float(s) => Some(s@),
        MyValue::Date(d) => Some(datetime_str(d)),
        MyValue::Other => Some("x"@),
    }
}

/// Normalizes one native MySQL value.
pub fn my_cell(v: &MyValue) -> (r: Option<String>)
    ensures
        cell_view(r) == my_cell_s(*v),
{
    match v {
        MyValue::Null => None,
        MyValue::Bytes(s) => Some(s.clone()),
        MyValue::Int(i) => Some(i64_to_string(*i)),
        MyValue::Float(s) => Some(s.clone()),
        MyValue::Date(d) => Some(d.to_text()),
        MyValue::Other => Some("x".to_owned()),
    }
}

/// A NULL from any backend round-trips to `None`: each adapter's NULL
/// form normalizes to the absent cell, never to any text.
pub proof fn lemma_null_normalizes_to_none()
    ensures
        pg_cell_s(PgValue::Text(None)) is None,
        pg_cell_s(PgValue::Int8(None)) is None,
        pg_cell_s(PgValue::Int4(None)) is None,
        pg_cell_s(PgValue::Int2(None)) is None,
        pg_cell_s(PgValue::Timestamp(None)) is None,
        pg_cell_s(PgValue::TimestampTz(None)) is None,
        pg_cell_s(PgValue::Bool(None)) is None,
        pg_cell_s(PgValue::Interval(None)) is None,
        ora_cell_s(OraValue::Null) is None,
        sqlite_cell_s(SqliteValue::Null) is None,
        my_cell_s(MyValue::Null) is None,
{
}

/// Normalizes one whole Postgres row.
pub fn pg_row_cells(vals: &Vec<PgValue>) -> (r: Vec<Option<String>>)
    ensures
        r@.len() == vals@.len(),
        forall|i: int| 0 <= i < vals@.len() ==> cell_view(#[trigger] r@[i]) == pg_cell_s(vals@[i]),
{
    let n = vals.len();
    let mut r: Vec<Option<String>> = Vec::new();
    let mut i: usize = 0;
    while i < n
        invariant
            n == vals@.len(),
            i <= n,
            r@.len() == i,
            forall|j: int| 0 <= j < i ==> cell_view(#[trigger] r@[j]) == pg_cell_s(vals@[j]),
        decreases n - i,
    {
        r.push(pg_cell(&vals[i]));
        i += 1;
    }
    r
}

/// Normalizes one whole Oracle row.
pub fn ora_row_cells(vals: &Vec<OraValue>) -> (r: Vec<Option<String>>)
    ensures
        r@.len() == vals@.len(),
        forall|i: int| 0 <= i < vals@.len() ==> cell_view(#[trigger] r@[i]) == ora_cell_s(vals@[i]),
{
    let n = vals.len();
    let mut r: Vec<Option<String>> = Vec::new();
    let mut i: usize = 0;
    while i < n
        invariant
            n == vals@.len(),
            i <= n,
            r@.len() == i,
            forall|j: int| 0 <= j < i ==> cell_view(#[trigger] r@[j]) == ora_cell_s(vals@[j]),
        decreases n - i,
    {
        r.push(ora_cell(&vals[i]));
        i += 1;
    }
    r
}

/// Normalizes one whole SQLite row.
pub fn sqlite_row_cells(vals: &Vec<SqliteValue>) -> (r: Vec<Option<String>>)
    ensures
        r@.len() == vals@.len(),
        forall|i: int|
            0 <= i < vals@.len() ==> cell_view(#[trigger] r@[i]) == sqlite_cell_s(vals@[i]),
{
    let n = vals.len();
    let mut r: Vec<Option<String>> = Vec::new();
    let mut i: usize = 0;
    while i < n
        invariant
            n == vals@.len(),
            i <= n,
            r@.len() == i,
            forall|j: int| 0 <= j < i ==> cell_view(#[trigger] r@[j]) == sqlite_cell_s(vals@[j]),
        decreases n - i,
    {
        r.push(sqlite_cell(&vals[i]));
        i += 1;
    }
    r
}

/// Normalizes one whole MySQL row.
pub fn my_row_cells(vals: &Vec<MyValue>) -> (r: Vec<Option<String>>)
    ensures
        r@.len() == vals@.len(),
        forall|i: int| 0 <= i < vals@.len() ==> cell_view(#[trigger] r@[i]) == my_cell_s(vals@[i]),
{
    let n = vals.len();
    let mut r: Vec<Option<String>> = Vec::new();
    let mut i: usize = 0;
    while i < n
        invariant
            n == vals@.len(),
            i <= n,
            r@.len() == i,
            forall|j: int| 0 <= j < i ==> cell_view(#[trigger] r@[j]) == my_cell_s(vals@[j]),
        decreases n - i,
    {
        r.push(my_cell(&vals[i]));
        i += 1;
    }
    r
}

} // verus!
