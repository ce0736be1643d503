use vstd::prelude::*;

verus! {

/// One result column of a prepared statement.
#[derive(Debug)]
pub struct Column {
    pub name: String,
    pub type_oid: u32,
}

/// A prepared statement: its server-side name, the types of its parameters
/// and the schema of its result columns.
#[derive(Debug)]
pub struct Statement {
    pub name: String,
    pub params: Vec<u32>,
    pub columns: Vec<Column>,
}

impl Statement {
    pub fn new(name: String, params: Vec<u32>, columns: Vec<Column>) -> (r: Statement)
        ensures
            r.name == name,
            r.params == params,
            r.columns == columns,
    {
        Statement { name, params, columns }
    }

    pub fn columns(&self) -> (r: &[Column])
        ensures
            r@ == self.columns@,
    {
        self.columns.as_slice()
    }
}

/// A message of the server's reply stream, as far as the pipeline reads it.
#[derive(Debug)]
pub enum BackendMessage {
    /// A query's results are starting.
    BindComplete,
    /// One row: each column's bytes, `None` for SQL NULL.
    DataRow(Vec<Option<Vec<u8>>>),
    /// A query's results are finished; the payload is the command tag.
    CommandComplete(Vec<u8>),
    /// The server reached a synchronization point.
    ReadyForQuery,
    /// Any other message.
    Other,
}

/// The errors of building, submitting and reading a pipeline.
#[derive(Debug, PartialEq, Eq)]
pub enum Error {
    /// The number of parameters does not match the statement.
    BindingMismatch { expected: usize, given: usize },
    /// A query could not be encoded.
    Encode,
    /// A pipeline without queries was submitted.
    EmptyPipeline,
    /// The server sent a message that does not fit the exchange.
    Unexpected,
    /// A row's number of values differs from the query's columns.
    ColumnCount { expected: usize, given: usize },
}

} // verus!
