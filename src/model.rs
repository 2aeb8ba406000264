//! The values exchanged with callers: engines, statements and results.

use vstd::prelude::*;

verus! {

/// The SQL engines served; a request is bound to one for its lifetime.
#[derive(Clone, Copy, Debug, PartialEq, Eq, Structural)]
pub enum Engine {
    Postgres,
    MySql,
    Mssql,
}

/// A statement as received: SQL text and its encoded parameters in order.
#[derive(Clone, Debug, PartialEq, Eq)]
pub struct Statement {
    pub sql: String,
    pub parameters: Option<Vec<Vec<u8>>>,
}

impl Statement {
    /// The encoded parameters, in order; none where the list is absent.
    pub open spec fn encoded_params(&self) -> Seq<Seq<u8>> {
        match self.parameters {
            Some(ps) => ps@.map_values(|p: Vec<u8>| p@),
            None => Seq::empty(),
        }
    }
}

/// A structured error as reported in a result: a category and a message.
#[derive(Clone, Debug, PartialEq, Eq)]
pub struct SqlDbError {
    pub code: String,
    pub message: String,
}

/// Outcome of a statement that returns no rows.
#[derive(Clone, Debug, PartialEq, Eq)]
pub struct ExecuteResult {
    pub rows_affected: u64,
    pub error: Option<SqlDbError>,
}

/// Metadata of one result column: its position, its name and the engine's
/// own name for its declared type.
#[derive(Clone, Debug, PartialEq, Eq)]
pub struct Column {
    pub ordinal: u32,
    pub name: String,
    pub db_type: String,
}

/// Outcome of a query: the number of rows, the columns, the encoded rows,
/// and an error in place of all three where the query failed.
#[derive(Clone, Debug, PartialEq, Eq)]
pub struct QueryResult {
    pub num_rows: u64,
    pub columns: Vec<Column>,
    pub rows: Vec<u8>,
    pub error: Option<SqlDbError>,
}

impl QueryResult {
    /// Whether the result is a failure or a payload, never both.
    pub open spec fn wf(&self) -> bool {
        self.error is Some ==> self.num_rows == 0 && self.columns@.len() == 0 && self.rows@.len() == 0
    }

    /// The result of a query that matched no rows.
    pub fn empty() -> (r: QueryResult)
        ensures
            r.num_rows == 0,
            r.columns@.len() == 0,
            r.rows@.len() == 0,
            r.error is None,
    {
        QueryResult { num_rows: 0, columns: Vec::new(), rows: Vec::new(), error: None }
    }

    /// The result of a query that failed: the error and nothing else.
    pub fn failed(error: SqlDbError) -> (r: QueryResult)
        ensures
            r.wf(),
            r.error == Some(error),
    {
        QueryResult { num_rows: 0, columns: Vec::new(), rows: Vec::new(), error: Some(error) }
    }
}

impl ExecuteResult {
    /// The result of a statement that ran and changed `rows_affected` rows.
    pub fn done(rows_affected: u64) -> (r: ExecuteResult)
        ensures
            r.rows_affected == rows_affected,
            r.error is None,
    {
        ExecuteResult { rows_affected, error: None }
    }

    /// The result of a statement that failed.
    pub fn failed(error: SqlDbError) -> (r: ExecuteResult)
        ensures
            r.rows_affected == 0,
            r.error == Some(error),
    {
        ExecuteResult { rows_affected: 0, error: Some(error) }
    }
}

} // verus!
