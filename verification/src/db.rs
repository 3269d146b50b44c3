//! The backend-independent database model: connection parameters, the
//! query result shape, the error taxonomy, the capability set a backend
//! exposes, and the verified part of the connection bootstrap.

use vstd::prelude::*;

use crate::strutil::{int_str, lower_str, str_eq, to_lowercase, i64_to_string};
use crate::url::{
    my_url_decomp, my_url_ok, parse_my_url, parse_pg_url, pg_url_decomp, pg_url_ok,
};

verus! {

/// What can go wrong in the client.
///
/// Bootstrap failures are fatal at startup; everything else is reported
/// inline and the session goes on.
#[derive(Debug, Clone, PartialEq)]
pub enum Error {
    /// A query produced zero result columns.
    NoResultError,
    /// The connection could not be planned or opened.
    ConnectionError(String),
    /// The native driver rejected a statement.
    QueryExecutionError(String),
    /// The backend does not implement the operation.
    UnsupportedOperationError(String),
    /// An export command could not be carried out.
    ExportError(String),
    /// A described object does not exist in the catalog.
    NotFoundError(String),
}

/// The message a given error renders to.
pub open spec fn message_of(e: Error) -> Seq<char> {
    match e {
        Error::NoResultError => "No result found"@,
        Error::ConnectionError(m) => m@,
        Error::QueryExecutionError(m) => m@,
        Error::UnsupportedOperationError(m) => m@,
        Error::ExportError(m) => m@,
        Error::NotFoundError(n) => "object not found: "@ + n@,
    }
}

impl Error {
    /// The human-readable message of this error.
    pub fn message(&self) -> (r: String)
        ensures
            r@ == message_of(*self),
    {
        match self {
            Error::NoResultError => "No result found".to_owned(),
            Error::ConnectionError(m) => m.clone(),
            Error::QueryExecutionError(m) => m.clone(),
            Error::UnsupportedOperationError(m) => m.clone(),
            Error::ExportError(m) => m.clone(),
            Error::NotFoundError(n) => {
                let mut s = "object not found: ".to_owned();
                s.append(n.as_str());
                s
            },
        }
    }
}

/// One configured connection: backend type, URL and credentials.
#[derive(Debug, Clone, PartialEq)]
pub struct ConnectionParams {
    pub type_: Option<String>,
    pub url: Option<String>,
    pub username: Option<String>,
    pub password: Option<String>,
    pub dbname: Option<String>,
}

/// One result column.
#[derive(Debug, Clone, PartialEq)]
pub struct Column {
    pub name: String,
}

/// One result row: one cell per column, `None` for SQL NULL.
#[derive(Debug, Clone, PartialEq)]
pub struct Row {
    pub data: Vec<Option<String>>,
}

/// A fully materialized query result.
#[derive(Debug, Clone, PartialEq)]
pub struct QueryResult {
    pub columns: Vec<Column>,
    pub rows: Vec<Row>,
}

/// The view of one cell.
pub open spec fn cell_view(c: Option<String>) -> Option<Seq<char>> {
    match c {
        Some(s) => Some(s@),
        None => None,
    }
}

/// The view of one row.
pub open spec fn row_view(r: Row) -> Seq<Option<Seq<char>>> {
    r.data@.map_values(|c: Option<String>| cell_view(c))
}

impl QueryResult {
    /// The column names, in order.
    pub open spec fn col_names(self) -> Seq<Seq<char>> {
        self.columns@.map_values(|c: Column| c.name@)
    }

    /// The cell texts, row by row.
    pub open spec fn cells(self) -> Seq<Seq<Option<Seq<char>>>> {
        self.rows@.map_values(|r: Row| row_view(r))
    }

    /// Every row is exactly as wide as the column list.
    pub open spec fn wf(self) -> bool {
        forall|i: int|
            0 <= i < self.rows@.len() ==> (#[trigger] self.rows@[i]).data@.len()
                == self.columns@.len()
    }
}

/// Builds the backend-independent result from plain column names and
/// normalized cells.
///
/// Zero result columns mean the statement produced no result shape, an
/// error distinct from a result with zero rows.
pub fn build_query_result(names: Vec<String>, cells: Vec<Vec<Option<String>>>) -> (r: Result<
    QueryResult,
    Error,
>)
    requires
        forall|i: int| 0 <= i < cells@.len() ==> (#[trigger] cells@[i])@.len() == names@.len(),
    ensures
        match r {
            Ok(q) => {
                &&& names@.len() > 0
                &&& q.wf()
                &&& q.col_names() == names@.map_values(|s: String| s@)
                &&& q.cells() == cells@.map_values(
                    |row: Vec<Option<String>>| row@.map_values(|c: Option<String>| cell_view(c)),
                )
            },
            Err(e) => names@.len() == 0 && e == Error::NoResultError,
        },
{
    if names.len() == 0 {
        return Err(Error::NoResultError);
    }
    let ghost gnames = names@;
    let ghost gcells = cells@;
    let mut columns: Vec<Column> = Vec::new();
    let n = names.len();
    let mut names = names;
    // consume the names front to back
    let mut i: usize = 0;
    while i < n
        invariant
            n == gnames.len(),
            names@ == gnames,
            i <= n,
            columns@.len() == i,
            forall|j: int| 0 <= j < i ==> (#[trigger] columns@[j]).name@ == gnames[j]@,
        decreases n - i,
    {
        let name = names[i].clone();
        columns.push(Column { name });
        i += 1;
    }
    let m = cells.len();
    let mut cells = cells;
    let mut rows: Vec<Row> = Vec::new();
    let mut k: usize = 0;
    while k < m
        invariant
            m == gcells.len(),
            cells@ == gcells,
            k <= m,
            rows@.len() == k,
            forall|j: int| 0 <= j < k ==> (#[trigger] rows@[j]).data@ == gcells[j]@,
        decreases m - k,
    {
        let data = cells[k].clone();
        rows.push(Row { data });
        k += 1;
    }
    let q = QueryResult { columns, rows };
    proof {
        assert(q.col_names() =~= gnames.map_values(|s: String| s@));
        assert(q.cells() =~= gcells.map_values(
            |row: Vec<Option<String>>| row@.map_values(|c: Option<String>| cell_view(c)),
        ));
    }
    Ok(q)
}

/// A table the catalog knows, for completion and listing.
#[derive(Debug, Clone, PartialEq)]
pub struct TableRef {
    pub schema: String,
    pub name: String,
}

/// Builds a catalog reference with both identifiers lower-cased, so
/// backends that report upper-case names list like the others.
pub fn normalize_table_ref(schema: &str, name: &str) -> (r: TableRef)
    ensures
        r.schema@ == lower_str(schema@),
        r.name@ == lower_str(name@),
{
    TableRef { schema: to_lowercase(schema), name: to_lowercase(name) }
}

/// A named canned diagnostic query of one backend.
#[derive(Debug, Clone, PartialEq)]
pub struct StandardQuery {
    pub name: String,
    pub query: String,
}

/// The text of the first standard query with the given name, if any.
pub open spec fn sq_lookup(qs: Seq<StandardQuery>, name: Seq<char>) -> Option<Seq<char>>
    decreases qs.len(),
{
    if qs.len() == 0 {
        None
    } else if qs[0].name@ == name {
        Some(qs[0].query@)
    } else {
        sq_lookup(qs.drop_first(), name)
    }
}

proof fn lemma_sq_lookup_skip(qs: Seq<StandardQuery>, name: Seq<char>, i: int)
    requires
        0 <= i <= qs.len(),
        forall|j: int| 0 <= j < i ==> (#[trigger] qs[j]).name@ != name,
    ensures
        sq_lookup(qs, name) == sq_lookup(qs.skip(i), name),
    decreases i,
{
    if i > 0 {
        assert(qs.drop_first() =~= qs.skip(1));
        assert(qs.skip(1).skip(i - 1) =~= qs.skip(i));
        lemma_sq_lookup_skip(qs.skip(1), name, i - 1);
    } else {
        assert(qs.skip(0) =~= qs);
    }
}

/// Finds the first standard query with the given name.
pub fn find_standard_query(queries: &Vec<StandardQuery>, name: &str) -> (r: Option<String>)
    ensures
        match r {
            Some(q) => sq_lookup(queries@, name@) == Some(q@),
            None => sq_lookup(queries@, name@) is None,
        },
{
    let n = queries.len();
    let mut i: usize = 0;
    while i < n
        invariant
            n == queries@.len(),
            i <= n,
            forall|j: int| 0 <= j < i ==> (#[trigger] queries@[j]).name@ != name@,
        decreases n - i,
    {
        if str_eq(queries[i].name.as_str(), name) {
            proof {
                lemma_sq_lookup_skip(queries@, name@, i as int);
                assert(queries@.skip(i as int)[0] == queries@[i as int]);
            }
            return Some(queries[i].query.clone());
        }
        i += 1;
    }
    proof {
        lemma_sq_lookup_skip(queries@, name@, n as int);
        assert(queries@.skip(n as int).len() == 0);
    }
    None
}

/// The capability set every backend exposes to the rest of the client.
///
/// The adapters that implement it own one live native connection each
/// and are outside this library.
pub trait Connection {
    /// Prints a one-line connection diagnostic.
    fn print_connection_info(&mut self) -> Result<(), Error>;

    /// Runs a non-query statement; the number of affected rows, zero
    /// when the backend does not report one.
    fn execute(&mut self, statement: &str) -> Result<u64, Error>;

    /// Runs a row-producing statement.
    fn query(&mut self, statement: &str) -> Result<QueryResult, Error>;

    /// Enumerates the tables of the schema, identifiers lower-cased.
    fn list_tables(&mut self) -> Result<Vec<TableRef>, Error>;

    /// The REPL prompt label of this connection.
    fn prompt(&self) -> String;

    /// The canned diagnostic queries of this backend.
    fn standard_queries(&self) -> Vec<StandardQuery>;

    /// Prints a structured description of a catalog object.
    fn describe(&mut self, obj: &str) -> Result<(), Error>;

    /// Prints the catalog objects whose names match a pattern.
    fn search(&mut self, obj: &str) -> Result<(), Error>;
}

/// Everything the surrounding binary needs to open one native
/// connection: the backend choice and the parsed bootstrap data.
#[derive(Debug, Clone, PartialEq)]
pub struct ConnectionPlan {
    pub identifier: String,
    pub backend: BackendPlan,
}

/// The per-backend bootstrap data.
#[derive(Debug, Clone, PartialEq)]
pub enum BackendPlan {
    Postgres { host: String, port: String, dbname: String, user: String, password: String },
    Oracle { connect: String, user: String, password: String },
    MySql { host: String, dbname: String, user: Option<String>, password: Option<String> },
    SqliteMemory,
    SqliteFile { path: String },
}

/// The backend type tag of the parameters; Oracle when none is given.
pub open spec fn effective_type(p: ConnectionParams) -> Seq<char> {
    match p.type_ {
        Some(t) => t@,
        None => "ora"@,
    }
}

pub open spec fn is_pg_type(t: Seq<char>) -> bool {
    t == "pg"@ || t == "postgresql"@
}

pub open spec fn is_sqlite_type(t: Seq<char>) -> bool {
    t == "sqlite"@
}

pub open spec fn is_ora_type(t: Seq<char>) -> bool {
    t == "ora"@ || t == "oracle"@
}

pub open spec fn is_mysql_type(t: Seq<char>) -> bool {
    t == "mysql"@
}

/// The Oracle connect string: `//url/dbname` when a database name is
/// configured, the URL alone otherwise.
pub open spec fn ora_connect_str(url: Seq<char>, dbname: Option<String>) -> Seq<char> {
    match dbname {
        Some(db) => "//"@ + url + "/"@ + db@,
        None => url,
    }
}

/// The parameters carry everything their backend needs.
pub open spec fn creatable(p: ConnectionParams) -> bool {
    let t = effective_type(p);
    if is_pg_type(t) {
        &&& p.url matches Some(u) && pg_url_ok(u@)
        &&& p.username is Some
        &&& p.password is Some
    } else if is_sqlite_type(t) {
        p.url is Some
    } else if is_ora_type(t) {
        p.url is Some && p.username is Some && p.password is Some
    } else if is_mysql_type(t) {
        p.url matches Some(u) && my_url_ok(u@)
    } else {
        false
    }
}

/// The plan is the faithful reading of the parameters.
pub open spec fn plan_of(p: ConnectionParams, plan: ConnectionPlan) -> bool {
    let t = effective_type(p);
    if is_pg_type(t) {
        &&& plan.backend matches BackendPlan::Postgres { host, port, dbname, user, password }
        &&& p.url matches Some(u) && pg_url_decomp(
            u@,
            plan.backend->Postgres_host@,
            plan.backend->Postgres_port@,
            plan.backend->Postgres_dbname@,
        )
        &&& p.username matches Some(us) && plan.backend->Postgres_user@ == us@
        &&& p.password matches Some(pw) && plan.backend->Postgres_password@ == pw@
    } else if is_sqlite_type(t) {
        &&& p.url matches Some(u)
        &&& if p.url->0@ == "memory"@ {
            plan.backend is SqliteMemory
        } else {
            plan.backend matches BackendPlan::SqliteFile { path } && path@ == p.url->0@
        }
    } else if is_ora_type(t) {
        &&& plan.backend matches BackendPlan::Oracle { connect, user, password }
        &&& p.url matches Some(u) && plan.backend->Oracle_connect@ == ora_connect_str(
            u@,
            p.dbname,
        )
        &&& p.username matches Some(us) && plan.backend->Oracle_user@ == us@
        &&& p.password matches Some(pw) && plan.backend->Oracle_password@ == pw@
    } else if is_mysql_type(t) {
        &&& plan.backend matches BackendPlan::MySql { host, dbname, user, password }
        &&& p.url matches Some(u) && my_url_decomp(
            u@,
            plan.backend->MySql_host@,
            plan.backend->MySql_dbname@,
        )
        &&& plan.backend->MySql_user == p.username
        &&& plan.backend->MySql_password == p.password
    } else {
        false
    }
}

/// Plans one connection from its configured parameters.
///
/// Succeeds exactly when the parameters are complete for their backend
/// and the URL fits the backend's grammar; every failure is a
/// `ConnectionError`, fatal at startup.
pub fn create_connection(identifier: &str, params: ConnectionParams) -> (r: Result<
    ConnectionPlan,
    Error,
>)
    ensures
        r is Ok <==> creatable(params),
        match r {
            Ok(plan) => plan.identifier@ == identifier@ && plan_of(params, plan),
            Err(e) => e is ConnectionError,
        },
{
    let tag: String = match &params.type_ {
        Some(t) => t.clone(),
        None => "ora".to_owned(),
    };
    if str_eq(tag.as_str(), "pg") || str_eq(tag.as_str(), "postgresql") {
        let url = match &params.url {
            Some(u) => u.clone(),
            None => {
                return Err(Error::ConnectionError("PG needs a URL".to_owned()));
            },
        };
        let (host, port, dbname) = match parse_pg_url(url.as_str()) {
            Some(t) => t,
            None => {
                return Err(
                    Error::ConnectionError("Format of URL needs to be //host:port/db".to_owned()),
                );
            },
        };
        let user = match &params.username {
            Some(u) => u.clone(),
            None => {
                return Err(Error::ConnectionError("PG needs a username".to_owned()));
            },
        };
        let password = match &params.password {
            Some(u) => u.clone(),
            None => {
                return Err(Error::ConnectionError("PG needs a password".to_owned()));
            },
        };
        Ok(ConnectionPlan {
            identifier: identifier.to_owned(),
            backend: BackendPlan::Postgres { host, port, dbname, user, password },
        })
    } else if str_eq(tag.as_str(), "sqlite") {
        let url = match &params.url {
            Some(u) => u.clone(),
            None => {
                return Err(Error::ConnectionError("SQLite needs a URL".to_owned()));
            },
        };
        if str_eq(url.as_str(), "memory") {
            Ok(ConnectionPlan {
                identifier: identifier.to_owned(),
                backend: BackendPlan::SqliteMemory,
            })
        } else {
            Ok(ConnectionPlan {
                identifier: identifier.to_owned(),
                backend: BackendPlan::SqliteFile { path: url },
            })
        }
    } else if str_eq(tag.as_str(), "ora") || str_eq(tag.as_str(), "oracle") {
        let url = match &params.url {
            Some(u) => u.clone(),
            None => {
                return Err(Error::ConnectionError("Oracle needs a URL".to_owned()));
            },
        };
        let user = match &params.username {
            Some(u) => u.clone(),
            None => {
                return Err(Error::ConnectionError("Oracle needs a username".to_owned()));
            },
        };
        let password = match &params.password {
            Some(u) => u.clone(),
            None => {
                return Err(Error::ConnectionError("Oracle needs a password".to_owned()));
            },
        };
        let connect: String = match &params.dbname {
            Some(db) => {
                let mut s = "//".to_owned();
                s.append(url.as_str());
                s.append("/");
                s.append(db.as_str());
                s
            },
            None => url,
        };
        Ok(ConnectionPlan {
            identifier: identifier.to_owned(),
            backend: BackendPlan::Oracle { connect, user, password },
        })
    } else if str_eq(tag.as_str(), "mysql") {
        let url = match &params.url {
            Some(u) => u.clone(),
            None => {
                return Err(Error::ConnectionError("MySQL needs a URL".to_owned()));
            },
        };
        let (host, dbname) = match parse_my_url(url.as_str()) {
            Some(t) => t,
            None => {
                return Err(
                    Error::ConnectionError("Format of URL needs to be //host/db".to_owned()),
                );
            },
        };
        let user = match &params.username {
            Some(u) => Some(u.clone()),
            None => None,
        };
        let password = match &params.password {
            Some(u) => Some(u.clone()),
            None => None,
        };
        Ok(ConnectionPlan {
            identifier: identifier.to_owned(),
            backend: BackendPlan::MySql { host, dbname, user, password },
        })
    } else {
        let mut m = "Unknown database type ".to_owned();
        m.append(tag.as_str());
        Err(Error::ConnectionError(m))
    }
}

/// The prompt tag of a backend.
pub open spec fn backend_tag_s(b: BackendPlan) -> Seq<char> {
    match b {
        BackendPlan::Postgres { .. } => "(pg)"@,
        BackendPlan::Oracle { .. } => "(ora)"@,
        BackendPlan::MySql { .. } => "(my)"@,
        BackendPlan::SqliteMemory => "(sqlite)"@,
        BackendPlan::SqliteFile { .. } => "(sqlite)"@,
    }
}

impl ConnectionPlan {
    /// The prompt label: the identifier, the backend tag and a `>`.
    pub fn prompt(&self) -> (r: String)
        ensures
            r@ == self.identifier@ + " "@ + backend_tag_s(self.backend) + "> "@,
    {
        let mut s = self.identifier.clone();
        s.append(" ");
        match &self.backend {
            BackendPlan::Postgres { .. } => s.append("(pg)"),
            BackendPlan::Oracle { .. } => s.append("(ora)"),
            BackendPlan::MySql { .. } => s.append("(my)"),
            BackendPlan::SqliteMemory => s.append("(sqlite)"),
            BackendPlan::SqliteFile { .. } => s.append("(sqlite)"),
        }
        s.append("> ");
        s
    }
}

/// The readable name of a `pg_class.relkind` tag.
pub open spec fn readable_type_s(t: Seq<char>) -> Seq<char> {
    if t == "v"@ {
        "view"@
    } else if t == "r"@ {
        "table"@
    } else if t == "i"@ {
        "index"@
    } else if t == "S"@ {
        "sequence"@
    } else if t == "m"@ {
        "materialized view"@
    } else {
        "unkown object"@
    }
}

/// Maps a catalog `relkind` tag to its readable object kind.
pub fn readable_type(t: &str) -> (r: &str)
    ensures
        r@ == readable_type_s(t@),
{
    if str_eq(t, "v") {
        "view"
    } else if str_eq(t, "r") {
        "table"
    } else if str_eq(t, "i") {
        "index"
    } else if str_eq(t, "S") {
        "sequence"
    } else if str_eq(t, "m") {
        "materialized view"
    } else {
        "unkown object"
    }
}

/// What a `describe` should render once the object's kind is known.
#[derive(Debug, Clone, PartialEq)]
pub enum DescribeAction {
    /// A table: render its column metadata.
    Columns,
    /// A sequence: render its bounds and increment.
    Sequence,
    /// Anything else: the kind line alone.
    Nothing,
}

/// Decides a `describe` from the catalog's answer about the object.
///
/// `relkind` is the object's kind tag, `None` when the catalog knows no
/// object of that name; that case is a descriptive not-found error, not
/// a crash.
pub fn describe_resolve(obj: &str, relkind: Option<String>) -> (r: Result<DescribeAction, Error>)
    ensures
        r is Err <==> relkind is None,
        match r {
            Ok(a) => {
                &&& relkind matches Some(k)
                &&& a == (if k@ == "r"@ {
                    DescribeAction::Columns
                } else if k@ == "S"@ {
                    DescribeAction::Sequence
                } else {
                    DescribeAction::Nothing
                })
            },
            Err(e) => e matches Error::NotFoundError(n) && n@ == obj@,
        },
{
    match relkind {
        None => Err(Error::NotFoundError(obj.to_owned())),
        Some(k) => {
            if str_eq(k.as_str(), "r") {
                Ok(DescribeAction::Columns)
            } else if str_eq(k.as_str(), "S") {
                Ok(DescribeAction::Sequence)
            } else {
                Ok(DescribeAction::Nothing)
            }
        },
    }
}

/// The `describe` banner: `<obj> is a <kind>`.
pub fn describe_banner(obj: &str, relkind: &str) -> (r: String)
    ensures
        r@ == obj@ + " is a "@ + readable_type_s(relkind@),
{
    let mut s = obj.to_owned();
    s.append(" is a ");
    s.append(readable_type(relkind));
    s
}

/// One rendered line of a table description: name, type, length,
/// nullability and default, absent numbers and defaults as empty text.
pub fn describe_column_line(
    name: &str,
    data_type: &str,
    max_length: Option<i64>,
    is_nullable: &str,
    default_value: Option<String>,
) -> (r: Vec<String>)
    ensures
        r@.len() == 5,
        r@[0]@ == name@,
        r@[1]@ == data_type@,
        r@[2]@ == match max_length {
            Some(i) => int_str(i as int),
            None => Seq::<char>::empty(),
        },
        r@[3]@ == is_nullable@,
        r@[4]@ == match default_value {
            Some(d) => d@,
            None => Seq::<char>::empty(),
        },
{
    let mut v: Vec<String> = Vec::new();
    v.push(name.to_owned());
    v.push(data_type.to_owned());
    match max_length {
        Some(i) => v.push(i64_to_string(i)),
        None => v.push(String::new()),
    }
    v.push(is_nullable.to_owned());
    match default_value {
        Some(d) => v.push(d),
        None => v.push(String::new()),
    }
    v
}

/// One rendered line of an Oracle table description: name, type,
/// length, precision, nullability and default, absent values as empty
/// text.
pub fn ora_describe_column_line(
    name: &str,
    data_type: &str,
    data_length: i64,
    data_precision: Option<i64>,
    nullable: Option<String>,
    data_default: Option<String>,
) -> (r: Vec<String>)
    ensures
        r@.len() == 6,
        r@[0]@ == name@,
        r@[1]@ == data_type@,
        r@[2]@ == int_str(data_length as int),
        r@[3]@ == match data_precision {
            Some(i) => int_str(i as int),
            None => Seq::<char>::empty(),
        },
        r@[4]@ == match nullable {
            Some(s) => s@,
            None => Seq::<char>::empty(),
        },
        r@[5]@ == match data_default {
            Some(s) => s@,
            None => Seq::<char>::empty(),
        },
{
    let mut v: Vec<String> = Vec::new();
    v.push(name.to_owned());
    v.push(data_type.to_owned());
    v.push(i64_to_string(data_length));
    match data_precision {
        Some(i) => v.push(i64_to_string(i)),
        None => v.push(String::new()),
    }
    match nullable {
        Some(s) => v.push(s),
        None => v.push(String::new()),
    }
    match data_default {
        Some(s) => v.push(s),
        None => v.push(String::new()),
    }
    v
}

/// Decides an Oracle `describe` from the catalog's answer: tables get
/// their column metadata, anything else only its kind line, and an
/// unknown name is a descriptive not-found error.
pub fn ora_describe_resolve(obj: &str, object_type: Option<String>) -> (r: Result<
    DescribeAction,
    Error,
>)
    ensures
        r is Err <==> object_type is None,
        match r {
            Ok(a) => {
                &&& object_type matches Some(t)
                &&& a == (if t@ == "TABLE"@ {
                    DescribeAction::Columns
                } else {
                    DescribeAction::Nothing
                })
            },
            Err(e) => e matches Error::NotFoundError(n) && n@ == obj@,
        },
{
    match object_type {
        None => Err(Error::NotFoundError(obj.to_owned())),
        Some(t) => {
            if str_eq(t.as_str(), "TABLE") {
                Ok(DescribeAction::Columns)
            } else {
                Ok(DescribeAction::Nothing)
            }
        },
    }
}

/// The error for a capability a backend does not implement: reported
/// inline, never a crash.
pub fn unsupported_operation(operation: &str, backend: &str) -> (r: Error)
    ensures
        r matches Error::UnsupportedOperationError(m) && m@ == operation@
            + " is not supported for "@ + backend@,
{
    let mut m = operation.to_owned();
    m.append(" is not supported for ");
    m.append(backend);
    Error::UnsupportedOperationError(m)
}

/// One line of a `search` listing: the object's name and its readable
/// kind.
pub fn search_row(name: &str, relkind: &str) -> (r: Vec<String>)
    ensures
        r@.len() == 2,
        r@[0]@ == name@,
        r@[1]@ == readable_type_s(relkind@),
{
    let mut v: Vec<String> = Vec::new();
    v.push(name.to_owned());
    v.push(readable_type(relkind).to_owned());
    v
}

/// The rendered description of a sequence: five labelled lines for its
/// name, bounds and increment.
pub fn describe_sequence_lines(name: &str, start_value: i64, min_value: i64, max_value: i64, increment_by: i64) -> (r: Vec<
    Vec<String>,
>)
    ensures
        r@.len() == 5,
        forall|i: int| 0 <= i < 5 ==> (#[trigger] r@[i])@.len() == 2,
        r@[0]@[0]@ == "name"@ && r@[0]@[1]@ == name@,
        r@[1]@[0]@ == "start_value"@ && r@[1]@[1]@ == int_str(start_value as int),
        r@[2]@[0]@ == "min_value"@ && r@[2]@[1]@ == int_str(min_value as int),
        r@[3]@[0]@ == "max_value"@ && r@[3]@[1]@ == int_str(max_value as int),
        r@[4]@[0]@ == "increment_by"@ && r@[4]@[1]@ == int_str(increment_by as int),
{
    let mut v: Vec<Vec<String>> = Vec::new();
    let mut l0: Vec<String> = Vec::new();
    l0.push("name".to_owned());
    l0.push(name.to_owned());
    v.push(l0);
    let mut l1: Vec<String> = Vec::new();
    l1.push("start_value".to_owned());
    l1.push(i64_to_string(start_value));
    v.push(l1);
    let mut l2: Vec<String> = Vec::new();
    l2.push("min_value".to_owned());
    l2.push(i64_to_string(min_value));
    v.push(l2);
    let mut l3: Vec<String> = Vec::new();
    l3.push("max_value".to_owned());
    l3.push(i64_to_string(max_value));
    v.push(l3);
    let mut l4: Vec<String> = Vec::new();
    l4.push("increment_by".to_owned());
    l4.push(i64_to_string(increment_by));
    v.push(l4);
    v
}

/// One rendered foreign-key line of a table description:
/// `  <column> -> <schema>.<table> (<columns>)`.
pub fn foreign_key_line(column: &str, foreign_schema: &str, foreign_table: &str, foreign_column: &str) -> (r:
    String)
    ensures
        r@ == "  "@ + column@ + " -> "@ + foreign_schema@ + "."@ + foreign_table@ + " ("@
            + foreign_column@ + ")"@,
{
    let mut s = "  ".to_owned();
    s.append(column);
    s.append(" -> ");
    s.append(foreign_schema);
    s.append(".");
    s.append(foreign_table);
    s.append(" (");
    s.append(foreign_column);
    s.append(")");
    s
}

/// The canned diagnostics of the Postgres backend: lock contention,
/// active statements and database sizes, invocable by name. The texts
/// are operational data; the dispatcher selects them by name alone.
pub fn pg_standard_queries() -> (r: Vec<StandardQuery>)
    ensures
        r@.len() == 3,
        r@[0].name@ == "locks"@,
        r@[1].name@ == "queries"@,
        r@[2].name@ == "sizes"@,
{
    let locks = StandardQuery {
        name: "locks".to_owned(),
        query: "select blocked_locks.pid     AS blocked_pid,
            blocked_activity.usename  AS blocked_user,
            blocking_locks.pid     AS blocking_pid,
            blocking_activity.usename AS blocking_user,
            blocked_activity.query    AS blocked_statement,
            blocking_activity.query   AS current_statement_in_blocking_process,
            blocked_activity.application_name AS blocked_application,
            blocking_activity.application_name AS blocking_application
      FROM  pg_catalog.pg_locks         blocked_locks
       JOIN pg_catalog.pg_stat_activity blocked_activity  ON blocked_activity.pid = blocked_locks.pid
       JOIN pg_catalog.pg_locks         blocking_locks
           ON blocking_locks.locktype = blocked_locks.locktype
           AND blocking_locks.DATABASE IS NOT DISTINCT FROM blocked_locks.DATABASE
           AND blocking_locks.relation IS NOT DISTINCT FROM blocked_locks.relation
           AND blocking_locks.page IS NOT DISTINCT FROM blocked_locks.page
           AND blocking_locks.tuple IS NOT DISTINCT FROM blocked_locks.tuple
           AND blocking_locks.virtualxid IS NOT DISTINCT FROM blocked_locks.virtualxid
           AND blocking_locks.transactionid IS NOT DISTINCT FROM blocked_locks.transactionid
           AND blocking_locks.classid IS NOT DISTINCT FROM blocked_locks.classid
           AND blocking_locks.objid IS NOT DISTINCT FROM blocked_locks.objid
           AND blocking_locks.objsubid IS NOT DISTINCT FROM blocked_locks.objsubid
           AND blocking_locks.pid != blocked_locks.pid
      JOIN pg_catalog.pg_stat_activity blocking_activity ON blocking_activity.pid = blocking_locks.pid
     WHERE NOT blocked_locks.GRANTED".to_owned(),
    };
    let queries = StandardQuery {
        name: "queries".to_owned(),
        query: "SELECT pid, age(clock_timestamp(), query_start), usename, query
            FROM pg_stat_activity
            WHERE query != '<IDLE>' AND query NOT ILIKE '%pg_stat_activity%'
            ORDER BY query_start desc".to_owned(),
    };
    let sizes = StandardQuery {
        name: "sizes".to_owned(),
        query: "select datname, pg_size_pretty(pg_database_size(datname))
            from pg_database
            order by pg_database_size(datname) desc".to_owned(),
    };
    let mut v: Vec<StandardQuery> = Vec::new();
    v.push(locks);
    v.push(queries);
    v.push(sizes);
    v
}

/// The `<n> rows updated.` line printed after a non-query statement.
pub fn rows_updated_message(n: u64) -> (r: String)
    ensures
        r@ == crate::strutil::dec_str(n as nat) + " rows updated."@,
{
    let mut s = crate::strutil::u64_to_string(n);
    s.append(" rows updated.");
    s
}

} // verus!
