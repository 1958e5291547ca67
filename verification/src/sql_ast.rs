//! The part of a parsed SQL statement that the translator reads.
//!
//! Nodes that the translator only reports in an error message keep the debug
//! text of the parser's node (`debug`), which is what such messages show.
use vstd::prelude::*;

verus! {

#[derive(Debug)]
pub enum SqlObjectNamePart {
    Identifier(String),
    Function,
}

/// A possibly qualified name such as `schema.table`.
#[derive(Debug)]
pub struct SqlObjectName {
    pub parts: Vec<SqlObjectNamePart>,
    pub debug: String,
}

/// The target of an `INSERT`.
#[derive(Debug)]
pub enum SqlTableObject {
    TableName(SqlObjectName),
    Other(String),
}

#[derive(Debug)]
pub enum SqlBinaryOperator {
    Eq,
    NotEq,
    Lt,
    LtEq,
    Gt,
    GtEq,
    And,
    Or,
    Other(String),
}

/// A literal. A number keeps its text and, where the text reads as a
/// floating-point number, the bit pattern of that number.
#[derive(Debug)]
pub enum SqlValue {
    Number { text: String, float_bits: Option<u64> },
    SingleQuotedString(String),
    Boolean(bool),
    Null,
    /// A parameter placeholder such as `$1`, `?` or `:name`.
    Placeholder { raw: String, debug: String },
    Other(String),
}

#[derive(Debug)]
pub enum SqlExpr {
    BinaryOp { left: Box<SqlExpr>, op: SqlBinaryOperator, right: Box<SqlExpr> },
    Identifier(String),
    CompoundIdentifier { parts: Vec<String>, debug: String, parts_debug: String },
    Nested(Box<SqlExpr>),
    IsNull(Box<SqlExpr>),
    IsNotNull(Box<SqlExpr>),
    Value(SqlValue),
    /// `CAST(expr AS UUID)` without array or format options.
    CastUuid(Box<SqlExpr>),
    /// Any other cast, with the expression cast.
    Cast(Box<SqlExpr>),
    Other(String),
}

#[derive(Debug)]
pub enum SqlSelectItem {
    UnnamedExpr { expr: SqlExpr, debug: String },
    ExprWithAlias { expr: SqlExpr, debug: String },
    Wildcard,
    Other,
}

#[derive(Debug)]
pub enum SqlTableFactor {
    Table { name: SqlObjectName, alias: Option<String> },
    Other,
}

#[derive(Debug)]
pub enum SqlJoinConstraint {
    On(SqlExpr),
    Using,
    Natural,
    Missing,
}

#[derive(Debug)]
pub enum SqlJoinOperator {
    Inner(SqlJoinConstraint),
    Left(SqlJoinConstraint),
    Right(SqlJoinConstraint),
    FullOuter(SqlJoinConstraint),
    Other,
}

#[derive(Debug)]
pub struct SqlJoin {
    pub relation: SqlTableFactor,
    pub operator: SqlJoinOperator,
}

#[derive(Debug)]
pub struct SqlTableWithJoins {
    pub relation: SqlTableFactor,
    pub joins: Vec<SqlJoin>,
}

#[derive(Debug)]
pub struct SqlSelect {
    pub from: Vec<SqlTableWithJoins>,
    pub projection: Vec<SqlSelectItem>,
    pub selection: Option<SqlExpr>,
    pub having: Option<SqlExpr>,
}

/// The body of a query: a `SELECT`, a `VALUES` list (rows of expressions),
/// or anything else.
#[derive(Debug)]
pub enum SqlSetExpr {
    Select(SqlSelect),
    Values(Vec<Vec<SqlExpr>>),
    Other,
}

#[derive(Debug)]
pub struct SqlQuery {
    pub has_with: bool,
    pub body: SqlSetExpr,
}

#[derive(Debug)]
pub struct SqlInsert {
    pub table: SqlTableObject,
    pub columns: Vec<SqlObjectName>,
    pub source: Option<SqlQuery>,
    pub returning: Option<Vec<SqlSelectItem>>,
}

#[derive(Debug)]
pub struct SqlUpdate {
    pub table: SqlTableFactor,
    pub selection: Option<SqlExpr>,
}

#[derive(Debug)]
pub struct SqlDelete {
    pub tables: Vec<SqlObjectName>,
    pub selection: Option<SqlExpr>,
}

#[derive(Debug)]
pub enum SqlDataType {
    Char,
    Varchar,
    Text,
    Int,
    Integer,
    BigInt,
    Float,
    Double,
    Boolean,
    Blob,
    Uuid,
    Json,
    Jsonb,
    Other(String),
}

/// A unique constraint's own name and index name, where given.
#[derive(Debug)]
pub struct SqlUniqueNames {
    pub name: Option<String>,
    pub index_name: Option<String>,
}

#[derive(Debug)]
pub enum SqlColumnOption {
    Default(SqlExpr),
    PrimaryKey,
    Unique(SqlUniqueNames),
    Other,
}

#[derive(Debug)]
pub struct SqlColumnDef {
    pub name: String,
    pub data_type: SqlDataType,
    pub options: Vec<SqlColumnOption>,
}

/// A column of an index or of a unique constraint, with flags for the
/// options it carries beyond its expression.
#[derive(Debug)]
pub struct SqlIndexColumn {
    pub expr: SqlExpr,
    pub has_operator_class: bool,
    pub has_asc: bool,
    pub has_nulls_first: bool,
    pub has_with_fill: bool,
}

#[derive(Debug)]
pub enum SqlTableConstraint {
    Unique { names: SqlUniqueNames, columns: Vec<SqlIndexColumn> },
    Other,
}

#[derive(Debug)]
pub struct SqlCreateTable {
    pub name: SqlObjectName,
    pub columns: Vec<SqlColumnDef>,
    pub constraints: Vec<SqlTableConstraint>,
    pub if_not_exists: bool,
}

#[derive(Debug)]
pub enum SqlObjectType {
    Table,
    Index,
    Other(String),
}

#[derive(Debug)]
pub enum SqlAlterTableOperation {
    AddColumn(SqlColumnDef),
    Other,
}

#[derive(Debug)]
pub struct SqlAlterTable {
    pub name: SqlObjectName,
    pub operations: Vec<SqlAlterTableOperation>,
    pub if_exists: bool,
}

#[derive(Debug)]
pub struct SqlCreateIndex {
    pub name: Option<SqlObjectName>,
    pub table_name: SqlObjectName,
    pub columns: Vec<SqlIndexColumn>,
    pub unique: bool,
    pub if_not_exists: bool,
}

#[derive(Debug)]
pub enum SqlStatement {
    Query(SqlQuery),
    Insert(SqlInsert),
    Update(SqlUpdate),
    Delete(SqlDelete),
    CreateTable(SqlCreateTable),
    Drop { object_type: SqlObjectType, if_exists: bool, names: Vec<SqlObjectName> },
    AlterTable(SqlAlterTable),
    CreateIndex(SqlCreateIndex),
    AlterIndex { name: SqlObjectName, new_name: SqlObjectName },
    Other(String),
}

} // verus!
