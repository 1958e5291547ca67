//! Table, column and index schemas.
use vstd::prelude::*;

use crate::value::{Value, ValueType};

verus! {

/// Index of a column within its table.
pub type ColumnSchemaIndex = u32;

/// A column: its name, type, default value and whether it is the primary key.
#[derive(Clone, Debug)]
pub struct ColumnSchema {
    pub name: String,
    pub value_type: ValueType,
    pub default: Value,
    pub primary_key: bool,
}

/// An index over columns of one table, given by their positions.
#[derive(Clone, Debug)]
pub struct IndexSchema {
    pub name: String,
    pub table_name: String,
    pub column_indices: Vec<ColumnSchemaIndex>,
    pub unique: bool,
}

/// A table and its columns in order.
#[derive(Clone, Debug)]
pub struct TableSchema {
    pub name: String,
    pub columns: Vec<ColumnSchema>,
}

} // verus!
