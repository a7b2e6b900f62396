//! The closed command set: one immutable description per user intent,
//! carrying only validated plain data. The dispatcher and the session
//! match on it exhaustively; adding a command means adding a variant and
//! one match arm.

use vstd::prelude::*;

use crate::conn::DatasetConn;

verus! {

/// Register a dataset under a short name.
#[derive(Debug, Clone, PartialEq)]
pub struct ConnectOpts {
    pub conn: DatasetConn,
    pub table: Option<String>,
    pub name: String,
}

impl ConnectOpts {
    pub fn new(conn: DatasetConn, table: Option<String>, name: String) -> (r: Self)
        ensures
            r.conn == conn,
            r.table == table,
            r.name == name,
    {
        ConnectOpts { conn, table, name }
    }
}

/// List every registered dataset.
#[derive(Debug, Clone, PartialEq)]
pub struct ListOpts;

/// Show the schema of a dataset.
#[derive(Debug, Clone, PartialEq)]
pub struct SchemaOpts {
    pub name: String,
}

impl SchemaOpts {
    pub fn new(name: String) -> (r: Self)
        ensures
            r.name == name,
    {
        SchemaOpts { name }
    }
}

/// Summarize a dataset with per-column statistics.
#[derive(Debug, Clone, PartialEq)]
pub struct DescribeOpts {
    pub name: String,
}

impl DescribeOpts {
    pub fn new(name: String) -> (r: Self)
        ensures
            r.name == name,
    {
        DescribeOpts { name }
    }
}

/// Show the first few rows of a dataset.
#[derive(Debug, Clone, PartialEq)]
pub struct HeadOpts {
    pub name: String,
    pub size: usize,
}

impl HeadOpts {
    pub fn new(name: String, size: usize) -> (r: Self)
        ensures
            r.name == name,
            r.size == size,
    {
        HeadOpts { name, size }
    }
}

/// Run a SQL query against the catalog.
#[derive(Debug, Clone, PartialEq)]
pub struct SqlOpts {
    pub query: String,
}

impl SqlOpts {
    pub fn new(query: String) -> (r: Self)
        ensures
            r.query == query,
    {
        SqlOpts { query }
    }
}

/// End the session.
#[derive(Debug, Clone, PartialEq)]
pub struct ExitOpts;

/// One user intent, validated and immutable.
#[derive(Debug, Clone, PartialEq)]
pub enum ReplCommand {
    Connect(ConnectOpts),
    List(ListOpts),
    Schema(SchemaOpts),
    Describe(DescribeOpts),
    Head(HeadOpts),
    Sql(SqlOpts),
    Exit(ExitOpts),
}

impl ReplCommand {
    /// `Exit` bypasses the backend entirely: the front-end terminates
    /// instead of sending it through the bridge.
    pub fn is_exit(&self) -> (r: bool)
        ensures
            r == (self is Exit),
    {
        match self {
            ReplCommand::Exit(_) => true,
            _ => false,
        }
    }
}

} // verus!
