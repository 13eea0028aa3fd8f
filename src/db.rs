//! The SQLite connection: statements go in as SQL text with positional
//! arguments, rows come back as plain values.
use vstd::prelude::*;

verus! {

#[verifier::external_type_specification]
#[verifier::external_body]
pub struct ExConnection(sqlite::Connection);

#[verifier::external_type_specification]
#[verifier::external_body]
pub struct ExStatement<'l>(sqlite::Statement<'l>);

#[verifier::external_type_specification]
#[verifier::external_body]
pub struct ExSqliteError(sqlite::Error);

/// A positional statement argument.
#[derive(Clone, Debug)]
pub enum SqlArg {
    Int(i64),
    Text(String),
    Null,
}

/// A column value as read back.
#[derive(Clone, Debug)]
pub enum SqlValue {
    Int(i64),
    Text(String),
    Blob(Vec<u8>),
    Real,
    Null,
}

/// Storage failures.
#[derive(Debug)]
pub enum StoreError {
    /// The database engine refused or failed an operation.
    Sqlite(sqlite::Error),
    /// A row did not have the columns or types that the query selects.
    BadRow,
    /// A message whose stripped text is not its text without whitespace.
    InconsistentMessage,
}

/// Relies on sqlite::Connection::open (":memory:" opens a private in-memory database).
#[verifier::external_body]
pub(crate) fn open_connection(path: &str) -> (r: Result<sqlite::Connection, sqlite::Error>) {
    sqlite::Connection::open(path)
}

/// Relies on sqlite::Connection::execute: runs one or more statements, rows discarded.
#[verifier::external_body]
pub(crate) fn execute_batch(conn: &sqlite::Connection, sql: &str) -> (r: Result<(), sqlite::Error>) {
    conn.execute(sql)
}

/// Relies on sqlite::Connection::prepare: compiles one statement.
#[verifier::external_body]
pub(crate) fn prepare<'a>(conn: &'a sqlite::Connection, sql: &str) -> (r: Result<sqlite::Statement<'a>, sqlite::Error>) {
    conn.prepare(sql)
}

/// Relies on sqlite::Statement::bind with a 1-based parameter index.
#[verifier::external_body]
pub(crate) fn bind_arg(stmt: &mut sqlite::Statement<'_>, index: usize, arg: &SqlArg) -> (r: Result<(), sqlite::Error>) {
    let v = match arg {
        SqlArg::Int(i) => sqlite::Value::Integer(*i),
        SqlArg::Text(s) => sqlite::Value::String(s.clone()),
        SqlArg::Null => sqlite::Value::Null,
    };
    stmt.bind((index, v))
}

/// Relies on sqlite::Statement::next: `true` when a row is ready, `false` when done.
#[verifier::external_body]
pub(crate) fn step(stmt: &mut sqlite::Statement<'_>) -> (r: Result<bool, sqlite::Error>) {
    match stmt.next() {
        Ok(sqlite::State::Row) => Ok(true),
        Ok(sqlite::State::Done) => Ok(false),
        Err(e) => Err(e),
    }
}

/// Relies on sqlite::Statement::column_count.
#[verifier::external_body]
pub(crate) fn column_count(stmt: &sqlite::Statement<'_>) -> (r: usize) {
    stmt.column_count()
}

/// Relies on sqlite::Statement::read of a `sqlite::Value` at a 0-based column.
#[verifier::external_body]
pub(crate) fn read_column(stmt: &sqlite::Statement<'_>, index: usize) -> (r: Result<SqlValue, sqlite::Error>) {
    match stmt.read::<sqlite::Value, _>(index) {
        Ok(sqlite::Value::Integer(i)) => Ok(SqlValue::Int(i)),
        Ok(sqlite::Value::String(s)) => Ok(SqlValue::Text(s)),
        Ok(sqlite::Value::Binary(b)) => Ok(SqlValue::Blob(b)),
        Ok(sqlite::Value::Float(_)) => Ok(SqlValue::Real),
        Ok(sqlite::Value::Null) => Ok(SqlValue::Null),
        Err(e) => Err(e),
    }
}

fn bind_all(stmt: &mut sqlite::Statement<'_>, args: &Vec<SqlArg>) -> (r: Result<(), StoreError>)
    ensures
        r matches Err(e) ==> e is Sqlite,
{
    let mut i: usize = 0;
    while i < args.len()
        invariant
            i <= args@.len(),
        decreases args@.len() - i,
    {
        match bind_arg(stmt, i + 1, &args[i]) {
            Ok(()) => {},
            Err(e) => return Err(StoreError::Sqlite(e)),
        }
        i = i + 1;
    }
    Ok(())
}

/// Runs a statement with its arguments bound in order and returns every row.
pub fn query_rows(conn: &sqlite::Connection, sql: &str, args: &Vec<SqlArg>) -> (r: Result<Vec<Vec<SqlValue>>, StoreError>)
    ensures
        r matches Err(e) ==> e is Sqlite || e is BadRow,
{
    let mut stmt = match prepare(conn, sql) {
        Ok(s) => s,
        Err(e) => return Err(StoreError::Sqlite(e)),
    };
    match bind_all(&mut stmt, args) {
        Ok(()) => {},
        Err(e) => return Err(e),
    }
    let mut rows: Vec<Vec<SqlValue>> = Vec::new();
    loop
        invariant
            rows@.len() < usize::MAX,
        decreases usize::MAX - rows@.len(),
    {
        let more = match step(&mut stmt) {
            Ok(b) => b,
            Err(e) => return Err(StoreError::Sqlite(e)),
        };
        if !more {
            break;
        }
        let n = column_count(&stmt);
        let mut row: Vec<SqlValue> = Vec::new();
        let mut c: usize = 0;
        while c < n
            invariant
                c <= n,
            decreases n - c,
        {
            match read_column(&stmt, c) {
                Ok(v) => row.push(v),
                Err(e) => return Err(StoreError::Sqlite(e)),
            }
            c = c + 1;
        }
        // A result can never fill the address space; the bound only gives
        // the loop its measure.
        if rows.len() == usize::MAX - 1 {
            return Err(StoreError::BadRow);
        }
        rows.push(row);
    }
    Ok(rows)
}

/// Runs a statement that returns no rows, with its arguments bound in order.
pub fn execute(conn: &sqlite::Connection, sql: &str, args: &Vec<SqlArg>) -> (r: Result<(), StoreError>)
    ensures
        r matches Err(e) ==> e is Sqlite,
{
    let mut stmt = match prepare(conn, sql) {
        Ok(s) => s,
        Err(e) => return Err(StoreError::Sqlite(e)),
    };
    match bind_all(&mut stmt, args) {
        Ok(()) => {},
        Err(e) => return Err(e),
    }
    match step(&mut stmt) {
        Ok(_) => Ok(()),
        Err(e) => Err(StoreError::Sqlite(e)),
    }
}

} // verus!
