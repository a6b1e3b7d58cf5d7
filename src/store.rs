use vstd::prelude::*;

verus! {

#[verifier::external_type_specification]
#[verifier::external_body]
pub struct ExConnection(rusqlite::Connection);

/// A value bound to a parameter of an SQL statement.
pub enum SqlParam {
    Int(i64),
    Text(String),
}

/// One write handed to the store, as the ghost log of a task list records it.
pub enum StoreWrite {
    Begin,
    Commit,
    Rollback,
    DeleteAll,
    /// A new row: id, text, done flag.
    Insert(nat, Seq<char>, bool),
    /// The row with this id gets this text and done flag.
    Update(nat, Seq<char>, bool),
}

/// How a done flag is stored.
pub open spec fn flag_value(done: bool) -> i64 {
    if done { 1 } else { 0 }
}

/// The parameters of an insert: id, text, done flag.
pub fn insert_params(id: usize, name: &str, done: bool) -> (r: Vec<SqlParam>)
    requires
        id <= i64::MAX,
    ensures
        r@.len() == 3,
        r@[0] == SqlParam::Int(id as i64),
        r@[1] matches SqlParam::Text(s) && s@ == name@,
        r@[2] == SqlParam::Int(flag_value(done)),
{
    let flag: i64 = if done { 1 } else { 0 };
    vec![SqlParam::Int(id as i64), SqlParam::Text(String::from_str(name)), SqlParam::Int(flag)]
}

/// The parameters of an update: text, done flag, id.
pub fn update_params(id: usize, name: &str, done: bool) -> (r: Vec<SqlParam>)
    requires
        id <= i64::MAX,
    ensures
        r@.len() == 3,
        r@[0] matches SqlParam::Text(s) && s@ == name@,
        r@[1] == SqlParam::Int(flag_value(done)),
        r@[2] == SqlParam::Int(id as i64),
{
    let flag: i64 = if done { 1 } else { 0 };
    vec![SqlParam::Text(String::from_str(name)), SqlParam::Int(flag), SqlParam::Int(id as i64)]
}

/// Relies on rusqlite::Connection::open: opens, or creates, the database at `path`.
#[verifier::external_body]
pub(crate) fn open_connection(path: &str) -> (r: Result<rusqlite::Connection, rusqlite::Error>) {
    rusqlite::Connection::open(path)
}

/// Relies on rusqlite::Connection::execute: runs one statement with its parameters
/// bound in order. What it does to the database is not stated: the connection
/// is handed over as `&mut` so that a write is seen to change it.
#[verifier::external_body]
pub(crate) fn execute(
    conn: &mut rusqlite::Connection,
    sql: &str,
    params: Vec<SqlParam>,
) -> (r: Result<usize, rusqlite::Error>) {
    let values = params.into_iter().map(|p| match p {
        SqlParam::Int(i) => rusqlite::types::Value::Integer(i),
        SqlParam::Text(s) => rusqlite::types::Value::Text(s),
    });
    conn.execute(sql, rusqlite::params_from_iter(values))
}

/// Relies on rusqlite's Connection::prepare, Statement::query_map and Row::get:
/// runs a query whose rows have an integer, a text and a boolean column, and
/// collects them. What the rows hold depends on the file on disk: nothing is stated.
#[verifier::external_body]
pub(crate) fn select_rows(
    conn: &rusqlite::Connection,
    sql: &str,
) -> (r: Result<Vec<(i64, String, bool)>, rusqlite::Error>) {
    let mut stmt = conn.prepare(sql)?;
    let rows = stmt.query_map([], |row| Ok((row.get(0)?, row.get(1)?, row.get(2)?)))?;
    rows.collect()
}

} // verus!
