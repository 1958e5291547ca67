//! Verified core of a small SQL database: values and their order, schemas
//! and queries, the translation of parsed SQL into queries, placeholders and
//! parameters, byte orders and key ranges, storage key codecs, in-memory
//! named trees with transactions, the pieces of the row codec and the redb
//! backend that hold logic of their own, and the storage engine's side of SQL:
//! definitions, joins, conditions, `SELECT`, `INSERT`, `DELETE` and `UPDATE`.

pub mod bytes_order;
pub mod text;
pub mod numbers;
pub mod float_bits;
pub mod value;
pub mod value_order;
pub mod json_order;
pub mod json_docs;
pub mod from_row;
pub mod schema;
pub mod query;
pub mod sql_ast;
pub mod translator;
pub mod engine_ddl;
pub mod engine_statement;
pub mod engine_joins;
pub mod engine_predicates;
pub mod engine_dml;
pub mod engine_update;
pub mod engine_insert;
pub mod engine_select;
pub mod engine_having;
pub mod engine_query;
pub mod engine_types;
pub mod engine_order;
pub mod placeholders;
pub mod key;
pub mod change_key;
pub mod sorted_map;
pub mod in_memory;
pub mod row_codec;
pub mod errors;
pub mod redb_store;
pub mod layout;
