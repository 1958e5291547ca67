//! The query and data-definition structures that SQL is translated into.
use vstd::prelude::*;

use crate::schema::{ColumnSchema, IndexSchema, TableSchema};
use crate::text::concat;
use crate::value::{Row, Value};

verus! {

/// A column reference; `table` is empty when the column is unqualified.
#[derive(Clone, Debug)]
pub struct QueryColumn {
    pub table: String,
    pub column: String,
}

impl QueryColumn {
    pub fn new(table: String, column: String) -> (r: QueryColumn)
        ensures
            r.table == table,
            r.column == column,
    {
        QueryColumn { table, column }
    }
}

#[derive(Clone, Copy, Debug, PartialEq, Eq, Structural)]
pub enum QueryJoinKind {
    Inner,
    Left,
    Right,
    Full,
}

#[derive(Debug)]
pub struct QueryJoin {
    pub kind: QueryJoinKind,
    pub table: String,
    pub on: QueryExpr,
}

#[derive(Clone, Copy, Debug, PartialEq, Eq, Structural)]
pub enum QuerySortDirection {
    Asc,
    Desc,
}

#[derive(Clone, Debug)]
pub struct QueryOrderBy {
    pub by: QueryColumn,
    pub direction: QuerySortDirection,
}

#[derive(Debug)]
pub enum QueryExprValue {
    Column(QueryColumn),
    Value(Value),
}

#[derive(Debug)]
pub enum QueryExpr {
    Value(QueryExprValue),
    Not(Box<QueryExpr>),
    Exists(Box<QueryExpr>),
    IsNull(Box<QueryExpr>),
    IsNotNull(Box<QueryExpr>),
    Equals(Box<QueryExpr>, Box<QueryExpr>),
    NotEquals(Box<QueryExpr>, Box<QueryExpr>),
    LessThan(Box<QueryExpr>, Box<QueryExpr>),
    LessThanOrEquals(Box<QueryExpr>, Box<QueryExpr>),
    GreaterThan(Box<QueryExpr>, Box<QueryExpr>),
    GreaterThanOrEquals(Box<QueryExpr>, Box<QueryExpr>),
    InList { expr: Box<QueryExpr>, list: Vec<QueryExpr>, negated: bool },
    InSubquery { expr: Box<QueryExpr>, subquery: Box<QuerySelect> },
    Like { expr: Box<QueryExpr>, pattern: Box<QueryExpr> },
    And(Box<QueryExpr>, Box<QueryExpr>),
    Or(Box<QueryExpr>, Box<QueryExpr>),
}

#[derive(Clone, Debug)]
pub enum QueryCountTarget {
    AllRows,
    Single(String),
    Distinct(String),
    DistinctMulti(Vec<String>),
}

#[derive(Clone, Debug)]
pub enum QueryAggregate {
    Count(QueryCountTarget),
    Sum(QueryColumn),
    Avg(QueryColumn),
    Min(QueryColumn),
    Max(QueryColumn),
}

#[derive(Debug)]
pub struct QueryFrom {
    pub table: String,
    pub joins: Vec<QueryJoin>,
}

#[derive(Debug)]
pub struct QueryUpdateAssignment {
    pub column: QueryColumn,
    pub value: QueryExprValue,
}

#[derive(Clone, Debug)]
pub struct QueryResultColumn {
    pub name: String,
    pub source_table: Option<String>,
    pub source_column: Option<String>,
}

#[derive(Clone, Debug)]
pub struct QueryResult {
    pub rows: Vec<Row>,
    pub columns: Vec<QueryResultColumn>,
}

impl QueryResult {
    pub fn new(rows: Vec<Row>) -> (r: QueryResult)
        ensures
            r.rows == rows,
            r.columns@.len() == 0,
    {
        QueryResult { rows, columns: Vec::new() }
    }

    pub fn new_with_columns(rows: Vec<Row>, columns: Vec<QueryResultColumn>) -> (r: QueryResult)
        ensures
            r.rows == rows,
            r.columns == columns,
    {
        QueryResult { rows, columns }
    }
}

#[derive(Debug)]
pub struct QuerySelect {
    pub from: QueryFrom,
    pub projection: Vec<QueryColumn>,
    pub predicate: Option<QueryExpr>,
    pub aggregates: Vec<QueryAggregate>,
    pub group_by: Vec<QueryColumn>,
    pub order_by: Vec<QueryOrderBy>,
    pub limit: Option<usize>,
    pub offset: Option<usize>,
    pub having: Option<QueryExpr>,
}

#[derive(Debug)]
pub struct QueryInsert {
    pub table: String,
    pub row: Row,
    pub returning: Option<Vec<String>>,
}

#[derive(Debug)]
pub enum QueryInsertValue {
    Value(Value),
    Default,
}

#[derive(Debug)]
pub struct QueryInsertValues {
    pub table: String,
    pub columns: Vec<String>,
    pub values: Vec<QueryInsertValue>,
    pub returning: Option<Vec<String>>,
}

#[derive(Debug)]
pub struct QueryUpdate {
    pub from: QueryFrom,
    pub assignments: Vec<QueryUpdateAssignment>,
    pub predicate: Option<QueryExpr>,
    pub returning: Option<Vec<QueryColumn>>,
}

#[derive(Debug)]
pub struct QueryDelete {
    pub from: QueryFrom,
    pub predicate: Option<QueryExpr>,
    pub returning: Option<Vec<QueryColumn>>,
}

#[derive(Debug)]
pub enum Query {
    Select(QuerySelect),
    Insert(QueryInsert),
    InsertValues(QueryInsertValues),
    Update(QueryUpdate),
    Delete(QueryDelete),
}

#[derive(Debug)]
pub enum AlterTableOperation {
    AddColumn(ColumnSchema),
    DropColumn(String),
    RenameColumn { old_name: String, new_name: String },
    RenameTable { new_name: String },
    AddIndex(IndexSchema),
    RenameIndex { old_name: String, new_name: String },
    DropIndex(String),
}

#[derive(Debug)]
pub enum AlterIndexOperation {
    Rename { new_name: String },
}

#[derive(Debug)]
pub enum DataDefinition {
    CreateTable { schema: TableSchema, if_not_exists: bool },
    CreateTableWithIndexes { schema: TableSchema, indexes: Vec<IndexSchema>, if_not_exists: bool },
    AlterTable { table_name: String, operations: Vec<AlterTableOperation>, if_exists: bool },
    DropTable { table_name: String, if_exists: bool },
    CreateIndex { schema: IndexSchema, if_not_exists: bool },
    CreateIndexUnresolved {
        index_name: String,
        table_name: String,
        column_names: Vec<String>,
        unique: bool,
        if_not_exists: bool,
    },
    AlterIndex { index_name: String, operation: AlterIndexOperation, if_exists: bool },
    DropIndex { index_name: String, if_exists: bool },
}

#[derive(Debug)]
pub enum Statement {
    Query(Query),
    DataDefinition(DataDefinition),
}

impl Statement {
    pub fn into_query(self) -> (r: Option<Query>)
        ensures
            match self {
                Statement::Query(q) => r == Some(q),
                Statement::DataDefinition(_) => r is None,
            },
    {
        match self {
            Statement::Query(query) => Some(query),
            Statement::DataDefinition(_) => None,
        }
    }

    pub fn into_data_definition(self) -> (r: Option<DataDefinition>)
        ensures
            match self {
                Statement::Query(_) => r is None,
                Statement::DataDefinition(d) => r == Some(d),
            },
    {
        match self {
            Statement::Query(_) => None,
            Statement::DataDefinition(def) => Some(def),
        }
    }
}

/// Parameters bound to the placeholders of a query: by position, or by name
/// (each name once).
#[derive(Debug)]
pub enum QueryParams {
    Positional(Vec<Value>),
    Named(Vec<(String, Value)>),
}

/// Why a query could not be translated.
#[derive(Clone, Debug)]
pub enum TranslateError {
    MissingNamedParameter(String),
    MixedPlaceholderStyles,
    Custom(String),
}

impl TranslateError {
    /// An error carrying the given message.
    pub fn custom(message: &str) -> (r: TranslateError)
        ensures
            r matches TranslateError::Custom(m) && m@ == message@,
    {
        TranslateError::Custom(String::from_str(message))
    }

    /// The text of the error.
    pub fn message(&self) -> (r: String)
        ensures
            r@ == translate_error_text(*self),
    {
        match self {
            TranslateError::MissingNamedParameter(name) => {
                concat(missing_named_prefix(), name.as_str())
            },
            TranslateError::MixedPlaceholderStyles => String::from_str(mixed_styles_text()),
            TranslateError::Custom(message) => concat(error_prefix(), message.as_str()),
        }
    }
}

pub open spec fn translate_error_text(e: TranslateError) -> Seq<char> {
    match e {
        TranslateError::MissingNamedParameter(name) => "Missing named parameter: "@ + name@,
        TranslateError::MixedPlaceholderStyles => "cannot mix named and positional/indexed placeholders in one query"@,
        TranslateError::Custom(message) => "Error: "@ + message@,
    }
}

fn missing_named_prefix() -> (r: &'static str)
    ensures
        r@ == "Missing named parameter: "@,
{
    "Missing named parameter: "
}

fn mixed_styles_text() -> (r: &'static str)
    ensures
        r@ == "cannot mix named and positional/indexed placeholders in one query"@,
{
    "cannot mix named and positional/indexed placeholders in one query"
}

fn error_prefix() -> (r: &'static str)
    ensures
        r@ == "Error: "@,
{
    "Error: "
}

} // verus!
