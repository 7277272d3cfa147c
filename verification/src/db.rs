//! The SQLite connection, through `rusqlite`: opening, running statements and
//! reading rows as plain values.

use vstd::prelude::*;

verus! {

#[verifier::external_type_specification]
#[verifier::external_body]
pub struct ExConnection(rusqlite::Connection);

#[verifier::external_type_specification]
#[verifier::external_body]
pub struct ExSqlError(rusqlite::Error);

#[verifier::external_type_specification]
#[verifier::external_body]
pub struct ExRow<'stmt>(rusqlite::Row<'stmt>);

/// A value bound to a statement parameter, or read from a column.
#[derive(Debug)]
pub enum SqlValue {
    Null,
    Int(i64),
    Text(String),
    Blob(Vec<u8>),
}

/// How a column is read: as an integer, a string, a string or `NULL`, or bytes.
#[derive(Debug, Clone, Copy, PartialEq, Eq, Structural)]
pub enum ColumnKind {
    Int,
    Int32,
    Text,
    OptText,
    Blob,
}

impl SqlValue {
    /// The text of a `Text` value.
    pub open spec fn text(self) -> Option<Seq<char>> {
        match self {
            SqlValue::Text(s) => Some(s@),
            _ => None,
        }
    }

    /// The bytes of a `Blob` value.
    pub open spec fn bytes(self) -> Option<Seq<u8>> {
        match self {
            SqlValue::Blob(b) => Some(b@),
            _ => None,
        }
    }

    /// The number of an `Int` value.
    pub open spec fn integer(self) -> Option<i64> {
        match self {
            SqlValue::Int(n) => Some(n),
            _ => None,
        }
    }
}

/// A statement to run: its SQL, its parameters, what a failure is reported
/// as, and whether a failure stops the operation (or is ignored).
#[derive(Debug)]
pub struct Statement {
    pub sql: String,
    pub params: Vec<SqlValue>,
    pub context: Option<String>,
    pub must_succeed: bool,
}

/// An error of a store: what the store was doing, when it says, and SQLite's message.
#[derive(Debug)]
pub struct StoreError {
    pub context: Option<String>,
    pub message: String,
}

/// A call made on the database, with what came of it: a batch of statements
/// (whether it succeeded); a statement with its parameters (the number of
/// rows it changed, none when it failed); a query with its parameters (the
/// rows it gave, each read or failed; none when it failed).
pub enum DbCall {
    Batch { sql: Seq<char>, ok: bool },
    Execute { sql: Seq<char>, params: Seq<SqlValue>, changed: Option<usize> },
    Query { sql: Seq<char>, params: Seq<SqlValue>, rows: Option<Seq<Result<Vec<SqlValue>, rusqlite::Error>>> },
}

/// An open SQLite database, with the calls made on it so far. Only the
/// functions of this module that call `rusqlite` (`execute_batch`, `execute`,
/// `query`) add to the calls.
pub struct Db {
    conn: rusqlite::Connection,
    calls: Ghost<Seq<DbCall>>,
}

impl Db {
    /// The calls made on the database, oldest first.
    pub closed spec fn calls(&self) -> Seq<DbCall> {
        self.calls@
    }

    /// Opens (or creates) the database at `path`; no call is made on it yet.
    pub fn open(path: &str) -> (r: Result<Db, rusqlite::Error>)
        ensures
            r matches Ok(db) ==> db.calls() == Seq::<DbCall>::empty(),
    {
        match open_connection(path) {
            Ok(conn) => Ok(Db { conn, calls: Ghost(Seq::empty()) }),
            Err(e) => Err(e),
        }
    }
}

/// `after` is `before` with calls added at the end.
pub open spec fn extends(before: Seq<DbCall>, after: Seq<DbCall>) -> bool {
    before.len() <= after.len() && after.subrange(0, before.len() as int) == before
}

/// The calls added to `before` to make `after`.
pub open spec fn added(before: Seq<DbCall>, after: Seq<DbCall>) -> Seq<DbCall> {
    after.subrange(before.len() as int, after.len() as int)
}

/// Adding one more call.
pub proof fn lemma_added_push(before: Seq<DbCall>, mid: Seq<DbCall>, c: DbCall)
    requires
        extends(before, mid),
    ensures
        extends(before, mid.push(c)),
        added(before, mid.push(c)) == added(before, mid).push(c),
{
    assert(mid.push(c).subrange(0, before.len() as int) == mid.subrange(0, before.len() as int));
    assert(added(before, mid.push(c)) == added(before, mid).push(c));
}

/// One call added to a sequence of calls.
pub proof fn lemma_added_one(before: Seq<DbCall>, c: DbCall)
    ensures
        extends(before, before.push(c)),
        added(before, before.push(c)) == seq![c],
{
    assert(before.subrange(0, before.len() as int) == before);
    lemma_added_push(before, before, c);
    assert(added(before, before) == Seq::<DbCall>::empty());
}

/// Calls added in two steps.
pub proof fn lemma_added_concat(a: Seq<DbCall>, b: Seq<DbCall>, c: Seq<DbCall>)
    requires
        extends(a, b),
        extends(b, c),
    ensures
        extends(a, c),
        added(a, c) == added(a, b) + added(b, c),
{
    assert(c.subrange(0, a.len() as int) == c.subrange(0, b.len() as int).subrange(0, a.len() as int));
    assert(added(a, c) == added(a, b) + added(b, c));
}

/// A statement executed as it stands.
pub open spec fn executes(c: DbCall, st: Statement) -> bool {
    c matches DbCall::Execute { sql, params, .. } && sql == st.sql@ && params == st.params@
}

/// A statement that failed.
pub open spec fn failed(c: DbCall) -> bool {
    c matches DbCall::Execute { changed, .. } && changed is None
}

/// The last of the calls is a required statement that failed.
pub open spec fn stopped(sts: Seq<Statement>, calls: Seq<DbCall>) -> bool {
    calls.len() > 0 && failed(calls.last()) && sts[calls.len() - 1].must_succeed
}

/// The calls are a run of the statements: each executed as it stands, in
/// order, until all were or a required one failed.
pub open spec fn is_run(sts: Seq<Statement>, calls: Seq<DbCall>) -> bool {
    &&& calls.len() <= sts.len()
    &&& forall|i: int| 0 <= i < calls.len() ==> executes(#[trigger] calls[i], sts[i])
    &&& forall|i: int| 0 <= i < calls.len() - 1 ==> !(failed(#[trigger] calls[i]) && sts[i].must_succeed)
    &&& (calls.len() == sts.len() || stopped(sts, calls))
}

/// The calls ran the statements and the run gave `r`: an error with the
/// context of the required statement that failed, else success.
pub open spec fn ran(sts: Seq<Statement>, calls: Seq<DbCall>, r: Result<(), StoreError>) -> bool {
    &&& is_run(sts, calls)
    &&& (r is Err <==> stopped(sts, calls))
    &&& (r matches Err(e) ==> e.context == sts[calls.len() - 1].context)
}

/// The number of rows a statement changed, none when it failed.
pub open spec fn changed_of(r: Result<usize, rusqlite::Error>) -> Option<usize> {
    match r {
        Ok(n) => Some(n),
        Err(_) => None,
    }
}

/// The rows a query gave, none when it failed.
pub open spec fn rows_of(r: Result<Vec<Result<Vec<SqlValue>, rusqlite::Error>>, rusqlite::Error>) -> Option<Seq<Result<Vec<SqlValue>, rusqlite::Error>>> {
    match r {
        Ok(rows) => Some(rows@),
        Err(_) => None,
    }
}

/// The parameters are text values with these texts (`None` for any other value).
pub open spec fn texts_are(params: Seq<SqlValue>, texts: Seq<Option<Seq<char>>>) -> bool {
    params.len() == texts.len() && forall|i: int| 0 <= i < texts.len() ==> (#[trigger] params[i]).text() == texts[i]
}

/// A query of `sql` with text parameters `texts`.
pub open spec fn queries(c: DbCall, sql: Seq<char>, texts: Seq<Option<Seq<char>>>) -> bool {
    c matches DbCall::Query { sql: s, params, .. } && s == sql && texts_are(params, texts)
}

/// A statement `sql` with text parameters `texts`.
pub open spec fn executes_texts(c: DbCall, sql: Seq<char>, texts: Seq<Option<Seq<char>>>) -> bool {
    c matches DbCall::Execute { sql: s, params, .. } && s == sql && texts_are(params, texts)
}

/// The rows a query call gave.
pub open spec fn answer(c: DbCall) -> Option<Seq<Result<Vec<SqlValue>, rusqlite::Error>>> {
    match c {
        DbCall::Query { rows, .. } => rows,
        _ => None,
    }
}

/// The number of rows a statement call changed.
pub open spec fn changed(c: DbCall) -> Option<usize> {
    match c {
        DbCall::Execute { changed, .. } => changed,
        _ => None,
    }
}

/// The rows that were read, in order, without those that failed.
pub open spec fn ok_rows(rows: Seq<Result<Vec<SqlValue>, rusqlite::Error>>) -> Seq<Seq<SqlValue>>
    decreases rows.len(),
{
    if rows.len() == 0 {
        seq![]
    } else {
        let prev = ok_rows(rows.drop_last());
        match rows.last() {
            Ok(v) => prev.push(v@),
            Err(_) => prev,
        }
    }
}

/// The message `rusqlite` gives when an unsigned integer does not fit in an `i64`.
pub open spec fn out_of_range_message() -> Seq<char> {
    "out of range integral type conversion attempted"@
}

/// The error for a failure of `rusqlite` during the step described by `context`.
pub fn sql_error(e: &rusqlite::Error, context: &Option<String>) -> (r: StoreError)
    ensures
        r.context == *context,
{
    StoreError { context: context.clone(), message: error_message(e) }
}

/// A size bound as an SQL integer; `rusqlite` refuses one above `i64::MAX`.
pub fn size_param(n: usize) -> (r: Result<SqlValue, StoreError>)
    ensures
        n <= i64::MAX ==> (r matches Ok(v) && v == SqlValue::Int(n as i64)),
        n > i64::MAX ==> (r matches Err(e) && e.context is None && e.message@ == out_of_range_message()),
{
    if n as u64 <= i64::MAX as u64 {
        Ok(SqlValue::Int(n as i64))
    } else {
        Err(StoreError { context: None, message: "out of range integral type conversion attempted".to_owned() })
    }
}

/// Runs the statements in order. The first failure of a statement that must
/// succeed stops the run and is returned with that statement's context; a
/// failure of another statement is ignored.
pub fn run_statements(db: &mut Db, statements: &Vec<Statement>) -> (r: Result<(), StoreError>)
    ensures
        extends(old(db).calls(), final(db).calls()),
        ran(statements@, added(old(db).calls(), final(db).calls()), r),
{
    let ghost start = db.calls();
    assert(start.subrange(0, start.len() as int) == start);
    assert(added(start, start) == Seq::<DbCall>::empty());
    for i in 0..statements.len()
        invariant
            start == old(db).calls(),
            extends(start, db.calls()),
            added(start, db.calls()).len() == i,
            forall|k: int| 0 <= k < i ==> executes(#[trigger] added(start, db.calls())[k], statements@[k]),
            forall|k: int| 0 <= k < i ==> !(failed(#[trigger] added(start, db.calls())[k]) && statements@[k].must_succeed),
    {
        let st = &statements[i];
        let ghost before = db.calls();
        let outcome = execute(db, st.sql.as_str(), &st.params);
        proof {
            lemma_added_push(start, before, DbCall::Execute { sql: st.sql@, params: st.params@, changed: changed_of(outcome) });
        }
        match outcome {
            Ok(_) => {},
            Err(e) => {
                if st.must_succeed {
                    let r = Err(sql_error(&e, &st.context));
                    assert(stopped(statements@, added(start, db.calls())));
                    assert(is_run(statements@, added(start, db.calls())));
                    return r;
                }
            },
        }
    }
    Ok(())
}

/// A value has the shape that reading a column of kind `k` gives.
pub open spec fn fits(v: SqlValue, k: ColumnKind) -> bool {
    match k {
        ColumnKind::Int => v is Int,
        ColumnKind::Int32 => v matches SqlValue::Int(n) && i32::MIN <= n <= i32::MAX,
        ColumnKind::Text => v is Text,
        ColumnKind::OptText => v is Text || v is Null,
        ColumnKind::Blob => v is Blob,
    }
}

/// A row has the shape that reading columns of kinds `kinds` gives.
pub open spec fn row_fits(row: Seq<SqlValue>, kinds: Seq<ColumnKind>) -> bool {
    row.len() == kinds.len() && forall|i: int| 0 <= i < row.len() ==> #[trigger] fits(row[i], kinds[i])
}

/// `rusqlite::Connection::open`: opens (or creates) the database at `path`;
/// `":memory:"` opens a fresh in-memory database. Whether it succeeds depends
/// on the file system, so nothing is claimed of the outcome.
#[verifier::external_body]
pub fn open_connection(path: &str) -> (r: Result<rusqlite::Connection, rusqlite::Error>) {
    rusqlite::Connection::open(path)
}

/// `rusqlite::Connection::execute_batch`: runs the statements of `sql` in
/// order. Whether it succeeds depends on the database; what is claimed is
/// that the call, with its outcome, is added to the database's calls.
#[verifier::external_body]
pub fn execute_batch(db: &mut Db, sql: &str) -> (r: Result<(), rusqlite::Error>)
    ensures
        final(db).calls() == old(db).calls().push(DbCall::Batch { sql: sql@, ok: r is Ok }),
{
    db.conn.execute_batch(sql)
}

/// `rusqlite::Connection::execute`: runs one statement with its parameters
/// bound in order (`?1`, `?2`, ...) and gives the number of rows changed.
/// Whether it succeeds, and the number, depend on the database; what is
/// claimed is that the call, with its outcome, is added to the database's calls.
#[verifier::external_body]
pub fn execute(db: &mut Db, sql: &str, params: &Vec<SqlValue>) -> (r: Result<usize, rusqlite::Error>)
    ensures
        final(db).calls() == old(db).calls().push(DbCall::Execute { sql: sql@, params: params@, changed: changed_of(r) }),
{
    let values: Vec<rusqlite::types::Value> = params.iter().map(|p| match p {
        SqlValue::Null => rusqlite::types::Value::Null,
        SqlValue::Int(n) => rusqlite::types::Value::Integer(*n),
        SqlValue::Text(s) => rusqlite::types::Value::Text(s.clone()),
        SqlValue::Blob(b) => rusqlite::types::Value::Blob(b.clone()),
    }).collect();
    db.conn.execute(sql, rusqlite::params_from_iter(values.iter()))
}

/// `rusqlite::Row::get`: reads column `i` of a row as `kind` (`i64`, `i32`,
/// `String`, `Option<String>` or `Vec<u8>`). On success the value has that kind, as the
/// type of `get` fixes; which value, and whether it succeeds, depend on the row.
#[verifier::external_body]
pub fn row_get(row: &rusqlite::Row<'_>, i: usize, kind: ColumnKind) -> (r: Result<SqlValue, rusqlite::Error>)
    ensures
        r matches Ok(v) ==> fits(v, kind),
{
    match kind {
        ColumnKind::Int => row.get::<usize, i64>(i).map(SqlValue::Int),
        ColumnKind::Int32 => row.get::<usize, i32>(i).map(|n| SqlValue::Int(i64::from(n))),
        ColumnKind::Text => row.get::<usize, String>(i).map(SqlValue::Text),
        ColumnKind::OptText => row.get::<usize, Option<String>>(i).map(|o| match o {
            Some(s) => SqlValue::Text(s),
            None => SqlValue::Null,
        }),
        ColumnKind::Blob => row.get::<usize, Vec<u8>>(i).map(SqlValue::Blob),
    }
}

/// Reads the columns of a row, in order, each as its kind; the first column
/// that cannot be read fails the row. With no columns to read nothing is
/// asked of the row and the result is the empty row.
pub fn read_row(row: &rusqlite::Row<'_>, kinds: &Vec<ColumnKind>) -> (r: Result<Vec<SqlValue>, rusqlite::Error>)
    ensures
        r matches Ok(v) ==> row_fits(v@, kinds@),
        kinds@.len() == 0 ==> (r matches Ok(v) && v@.len() == 0),
{
    let mut out: Vec<SqlValue> = Vec::new();
    for i in 0..kinds.len()
        invariant
            out@.len() == i,
            forall|j: int| 0 <= j < i ==> #[trigger] fits(out@[j], kinds@[j]),
    {
        let v = row_get(row, i, kinds[i])?;
        out.push(v);
    }
    Ok(out)
}

/// `rusqlite::Connection::prepare` and `rusqlite::Statement::query_map`: runs a
/// query with its parameters bound in order and reads each result row with
/// `read_row`; a row that cannot be read is kept as its error. Which rows come
/// back depends on the database; what is claimed is the shape of each row read,
/// and that the call, with the rows it gave, is added to the database's calls.
#[verifier::external_body]
pub fn query(
    db: &mut Db,
    sql: &str,
    params: &Vec<SqlValue>,
    kinds: &Vec<ColumnKind>,
) -> (r: Result<Vec<Result<Vec<SqlValue>, rusqlite::Error>>, rusqlite::Error>)
    ensures
        r matches Ok(rows) ==> forall|i: int| 0 <= i < rows@.len() ==> (#[trigger] rows@[i] matches Ok(v) ==> row_fits(v@, kinds@)),
        final(db).calls() == old(db).calls().push(DbCall::Query { sql: sql@, params: params@, rows: rows_of(r) }),
{
    let values: Vec<rusqlite::types::Value> = params.iter().map(|p| match p {
        SqlValue::Null => rusqlite::types::Value::Null,
        SqlValue::Int(n) => rusqlite::types::Value::Integer(*n),
        SqlValue::Text(s) => rusqlite::types::Value::Text(s.clone()),
        SqlValue::Blob(b) => rusqlite::types::Value::Blob(b.clone()),
    }).collect();
    let mut stmt = db.conn.prepare(sql)?;
    let rows = stmt.query_map(rusqlite::params_from_iter(values.iter()), |row| read_row(row, kinds))?;
    Ok(rows.collect())
}

/// `<rusqlite::Error as Display>::to_string`: the error's message.
#[verifier::external_body]
pub fn error_message(e: &rusqlite::Error) -> (r: String) {
    e.to_string()
}

} // verus!
