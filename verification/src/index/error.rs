//! Errors of the index database.

use vstd::prelude::*;

verus! {

/// Errors of database operations. Errors of the database library carry its
/// message.
#[derive(Debug, Clone, PartialEq, Eq)]
pub enum DbError {
    /// Error of the database library.
    LibSql(String),
    /// SQL query error.
    Query(String),
    /// Schema error.
    Schema(String),
    /// Data error.
    Data(String),
    /// Connection error.
    Connection(String),
    /// Transaction error.
    Transaction(String),
    /// Other errors.
    Other(String),
}

/// The message of `e`: its kind, then its detail.
pub open spec fn db_error_message(e: DbError) -> Seq<char> {
    match e {
        DbError::LibSql(m) => "LibSQL error: "@ + m@,
        DbError::Query(m) => "SQL query error: "@ + m@,
        DbError::Schema(m) => "Schema error: "@ + m@,
        DbError::Data(m) => "Data error: "@ + m@,
        DbError::Connection(m) => "Connection error: "@ + m@,
        DbError::Transaction(m) => "Transaction error: "@ + m@,
        DbError::Other(m) => m@,
    }
}

fn labelled(label: &str, detail: &String) -> (s: String)
    ensures
        s@ == label@ + detail@,
{
    let mut s = String::from_str(label);
    s.append(detail.as_str());
    s
}

impl DbError {
    /// The message of the error (see `db_error_message`).
    pub fn message(&self) -> (s: String)
        ensures
            s@ == db_error_message(*self),
    {
        match self {
            DbError::LibSql(m) => labelled("LibSQL error: ", m),
            DbError::Query(m) => labelled("SQL query error: ", m),
            DbError::Schema(m) => labelled("Schema error: ", m),
            DbError::Data(m) => labelled("Data error: ", m),
            DbError::Connection(m) => labelled("Connection error: ", m),
            DbError::Transaction(m) => labelled("Transaction error: ", m),
            DbError::Other(m) => m.clone(),
        }
    }

    /// The library's error for this one: a database error with its message.
    pub fn to_crate_error(&self) -> (e: crate::error::Error)
        ensures
            e matches crate::error::Error::Database(m) && m@ == db_error_message(*self),
    {
        crate::error::Error::Database(self.message())
    }
}

} // verus!
