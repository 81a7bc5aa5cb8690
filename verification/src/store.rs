//! The gateway to the embedded SQL database. Everything here is a declaration
//! of an item of `rusqlite` or a call into it; what the database answers
//! depends on the file behind the connection, so no contract speaks of it.

use vstd::prelude::*;
use crate::tcp::QueryResultRow;
use crate::tcp::SqlType;

verus! {

/// `rusqlite::Connection`, an open database.
#[verifier::external_type_specification]
#[verifier::external_body]
pub struct ExConnection(rusqlite::Connection);

/// `rusqlite::Statement`, a statement prepared on a connection.
#[verifier::external_type_specification]
#[verifier::external_body]
pub struct ExStatement<'conn>(rusqlite::Statement<'conn>);

/// `rusqlite::Error`, whatever the database or the binding layer reports.
#[verifier::external_type_specification]
#[verifier::external_body]
pub struct ExSqlError(rusqlite::Error);

/// `rusqlite::types::Value`, a value in the database's own representation.
#[verifier::external_type_specification]
#[verifier::external_body]
pub struct ExSqlValue(rusqlite::types::Value);

/// Hands each parameter to `rusqlite::types::Value`, integer to `Integer` and
/// text to `Text`. The values are opaque, so nothing is stated of them.
#[verifier::external_body]
pub(crate) fn to_values(params: &Vec<SqlType>) -> (values: Vec<rusqlite::types::Value>) {
    params
        .iter()
        .map(|p| match p {
            SqlType::Int(i) => rusqlite::types::Value::Integer(*i),
            SqlType::String(s) => rusqlite::types::Value::Text(s.clone()),
        })
        .collect()
}

/// `rusqlite::Connection::execute_batch`: runs the statements of `sql` one
/// after another. Nothing is claimed of the outcome.
#[verifier::external_body]
pub(crate) fn execute_batch(con: &rusqlite::Connection, sql: &str) -> (r: Result<
    (),
    rusqlite::Error,
>) {
    con.execute_batch(sql)
}

/// `rusqlite::Connection::prepare`: compiles `sql`. Nothing is claimed of the
/// outcome.
#[verifier::external_body]
pub(crate) fn prepare<'conn>(con: &'conn rusqlite::Connection, sql: &str) -> (r: Result<
    rusqlite::Statement<'conn>,
    rusqlite::Error,
>) {
    con.prepare(sql)
}

/// `rusqlite::Statement::insert`: binds `values` by position, runs the
/// statement, and gives the new row's id when exactly one row changed.
/// Nothing is claimed of the outcome.
#[verifier::external_body]
pub(crate) fn statement_insert(
    stmt: &mut rusqlite::Statement<'_>,
    values: &Vec<rusqlite::types::Value>,
) -> (r: Result<i64, rusqlite::Error>) {
    stmt.insert(rusqlite::params_from_iter(values.iter()))
}

/// `rusqlite::Statement::execute`: binds `values` by position and runs the
/// statement. Nothing is claimed of the outcome.
#[verifier::external_body]
pub(crate) fn statement_execute(
    stmt: &mut rusqlite::Statement<'_>,
    values: &Vec<rusqlite::types::Value>,
) -> (r: Result<usize, rusqlite::Error>) {
    stmt.execute(rusqlite::params_from_iter(values.iter()))
}

/// `rusqlite::Statement::query_row`: binds `values` by position and reads the
/// first column of the first row as an integer. Nothing is claimed of the
/// outcome.
#[verifier::external_body]
pub(crate) fn statement_first_id(
    stmt: &mut rusqlite::Statement<'_>,
    values: &Vec<rusqlite::types::Value>,
) -> (r: Result<i64, rusqlite::Error>) {
    stmt.query_row(rusqlite::params_from_iter(values.iter()), |row| row.get(0))
}

/// `rusqlite::Statement::query_map`: binds `values` by position and reads
/// every row's first five columns as time, session, command line, directory
/// and host. Nothing is claimed of the outcome.
#[verifier::external_body]
pub(crate) fn statement_history_rows(
    stmt: &mut rusqlite::Statement<'_>,
    values: &Vec<rusqlite::types::Value>,
) -> (r: Result<Vec<QueryResultRow>, rusqlite::Error>) {
    let rows = stmt.query_map(rusqlite::params_from_iter(values.iter()), |row| {
        Ok(QueryResultRow {
            time: row.get(0)?,
            session: row.get(1)?,
            argv: row.get(2)?,
            dir: row.get(3)?,
            host: row.get(4)?,
        })
    })?;
    rows.collect()
}

/// `rusqlite::Statement::query_map`: binds `values` by position and reads
/// every row's first column as text. Nothing is claimed of the outcome.
#[verifier::external_body]
pub(crate) fn statement_text_rows(
    stmt: &mut rusqlite::Statement<'_>,
    values: &Vec<rusqlite::types::Value>,
) -> (r: Result<Vec<String>, rusqlite::Error>) {
    let rows = stmt.query_map(rusqlite::params_from_iter(values.iter()), |row| row.get(0))?;
    rows.collect()
}

} // verus!
