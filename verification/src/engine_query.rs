//! Data statements for the storage engine, from SQL text: `SELECT`,
//! `INSERT`, `UPDATE` and `DELETE` are translated here, and a definition
//! statement is refused once read.
use vstd::prelude::*;

use crate::engine_ddl::{feature_is, EngineTableSchema};
use crate::engine_dml::{delete_translated, translate_delete, DeleteQuery, EngineDelete};
use crate::engine_insert::{insert_translated, translate_insert, EngineInsert, InsertQuery};
use crate::engine_joins::QualifiedColumn;
use crate::engine_predicates::{PredicateExpr, Scope};
use crate::engine_select::{select_translated, translate_select, EngineSelect, SelectQuery};
use crate::engine_statement::{
    definition_outcome, generic_parse_error, generic_parsed, parse_single_statement, single_statement_message,
    translate_definition, DdlOp, EngineStatement,
};
use crate::engine_types::EngineValue;
use crate::engine_update::{translate_update, update_translated, EngineUpdate, UpdateQuery};
use crate::placeholders::TranslateError;
use crate::sql_ast::SqlExpr;
use sqlparser::ast::Statement as ParsedStatement;

verus! {

/// A parsed statement as the engine's translator reads it: a data
/// statement or a definition statement (any other statement, a query whose
/// body is not a plain `SELECT` among them, is
/// `Definition(EngineStatement::Other)`).
#[derive(Debug)]
pub enum EngineQueryStatement {
    Select(EngineSelect),
    Insert(EngineInsert),
    Update(EngineUpdate),
    Delete(EngineDelete),
    Definition(EngineStatement),
}

/// What the engine runs for a data statement; `Q` is what the caller's
/// subquery reader makes of a subquery.
#[derive(Debug)]
pub enum EngineQuery<Q> {
    Select(SelectQuery<Q>),
    Insert(InsertQuery),
    Update(UpdateQuery<Q>),
    Delete(DeleteQuery<Q>),
}

/// What translating the statement `st` against the catalog `schemas` gives.
/// A definition statement is read as such and then refused: its own error
/// where it has one, else `UnsupportedStatement`.
pub open spec fn query_outcome<R, C, V, S, Q>(
    st: EngineQueryStatement,
    schemas: Seq<EngineTableSchema>,
    resolve: R,
    column: C,
    value: V,
    subquery: S,
    r: Result<EngineQuery<Q>, TranslateError>,
) -> bool
    where
        R: Fn(&SqlExpr, &Vec<(String, String)>, &Vec<usize>) -> Result<QualifiedColumn, TranslateError>,
        C: Fn(&PredicateExpr, &Scope) -> Result<QualifiedColumn, TranslateError>,
        V: Fn(&PredicateExpr) -> Result<EngineValue, TranslateError>,
        S: Fn(&String) -> Result<Q, TranslateError>,
{
    match st {
        EngineQueryStatement::Insert(ins) => match r {
            Ok(EngineQuery::Insert(q)) => insert_translated(ins, schemas, column, value, Ok(q)),
            Ok(_) => false,
            Err(x) => insert_translated(ins, schemas, column, value, Err(x)),
        },
        EngineQueryStatement::Update(u) => match r {
            Ok(EngineQuery::Update(q)) => update_translated(u, schemas, resolve, column, value, subquery, Ok(q)),
            Ok(_) => false,
            Err(x) => update_translated::<R, C, V, S, Q>(u, schemas, resolve, column, value, subquery, Err(x)),
        },
        EngineQueryStatement::Delete(d) => match r {
            Ok(EngineQuery::Delete(q)) => delete_translated(d, schemas, column, value, subquery, Ok(q)),
            Ok(_) => false,
            Err(x) => delete_translated::<C, V, S, Q>(d, schemas, column, value, subquery, Err(x)),
        },
        EngineQueryStatement::Select(sel) => match r {
            Ok(EngineQuery::Select(q)) => select_translated(sel, schemas, resolve, column, value, subquery, Ok(q)),
            Ok(_) => false,
            Err(x) => select_translated::<R, C, V, S, Q>(sel, schemas, resolve, column, value, subquery, Err(x)),
        },
        EngineQueryStatement::Definition(d) => match r {
            Ok(_) => false,
            Err(x) => exists|o: Result<DdlOp, TranslateError>| #[trigger] definition_outcome(d, o) && match o {
                Ok(_) => x is UnsupportedStatement,
                Err(e) => x == e,
            },
        },
    }
}

/// Translates a parsed statement into what the engine runs. Tables are read
/// against `schemas`, the catalog; `resolve` reads the columns of a join's
/// `ON`, `column` and `value` the columns and literals of the rest, and
/// `subquery` a subquery's text.
pub fn translate_statement<R, C, V, S, Q>(
    stmt: &EngineQueryStatement,
    schemas: &Vec<EngineTableSchema>,
    resolve: &R,
    column: &C,
    value: &V,
    subquery: &S,
) -> (r: Result<EngineQuery<Q>, TranslateError>)
    where
        R: Fn(&SqlExpr, &Vec<(String, String)>, &Vec<usize>) -> Result<QualifiedColumn, TranslateError>,
        C: Fn(&PredicateExpr, &Scope) -> Result<QualifiedColumn, TranslateError>,
        V: Fn(&PredicateExpr) -> Result<EngineValue, TranslateError>,
        S: Fn(&String) -> Result<Q, TranslateError>,
    requires
        forall|e: &SqlExpr, a: &Vec<(String, String)>, k: &Vec<usize>| resolve.requires((e, a, k)),
        forall|x: &PredicateExpr, y: &Scope| column.requires((x, y)),
        forall|x: &PredicateExpr| value.requires((x,)),
        forall|x: &String| subquery.requires((x,)),
    ensures
        query_outcome(*stmt, schemas@, *resolve, *column, *value, *subquery, r),
{
    match stmt {
        EngineQueryStatement::Insert(ins) => match translate_insert(ins, schemas, column, value) {
            Ok(q) => Ok(EngineQuery::Insert(q)),
            Err(x) => Err(x),
        },
        EngineQueryStatement::Update(u) => match translate_update(u, schemas, resolve, column, value, subquery) {
            Ok(q) => Ok(EngineQuery::Update(q)),
            Err(x) => Err(x),
        },
        EngineQueryStatement::Delete(d) => match translate_delete(d, schemas, column, value, subquery) {
            Ok(q) => Ok(EngineQuery::Delete(q)),
            Err(x) => Err(x),
        },
        EngineQueryStatement::Select(sel) => match translate_select(sel, schemas, resolve, column, value, subquery) {
            Ok(q) => Ok(EngineQuery::Select(q)),
            Err(x) => Err(x),
        },
        EngineQueryStatement::Definition(d) => {
            let o = translate_definition(d);
            let ghost o0 = o;
            match o {
                Ok(_) => {
                    assert(definition_outcome(*d, o0));
                    Err(TranslateError::UnsupportedStatement)
                },
                Err(e) => {
                    assert(definition_outcome(*d, o0));
                    Err(e)
                },
            }
        },
    }
}

/// Parses SQL text holding one statement (sqlparser's generic dialect) and
/// translates it into what the engine runs; `lower` reads the parsed
/// statement into the tree translated here. Parse errors carry the
/// parser's message.
pub fn parse_and_translate<L, R, C, V, S, Q>(
    sql: &str,
    schemas: &Vec<EngineTableSchema>,
    lower: L,
    resolve: &R,
    column: &C,
    value: &V,
    subquery: &S,
) -> (r: Result<EngineQuery<Q>, TranslateError>)
    where
        L: Fn(&ParsedStatement) -> EngineQueryStatement,
        R: Fn(&SqlExpr, &Vec<(String, String)>, &Vec<usize>) -> Result<QualifiedColumn, TranslateError>,
        C: Fn(&PredicateExpr, &Scope) -> Result<QualifiedColumn, TranslateError>,
        V: Fn(&PredicateExpr) -> Result<EngineValue, TranslateError>,
        S: Fn(&String) -> Result<Q, TranslateError>,
    requires
        forall|s: &ParsedStatement| lower.requires((s,)),
        forall|e: &SqlExpr, a: &Vec<(String, String)>, k: &Vec<usize>| resolve.requires((e, a, k)),
        forall|x: &PredicateExpr, y: &Scope| column.requires((x, y)),
        forall|x: &PredicateExpr| value.requires((x,)),
        forall|x: &String| subquery.requires((x,)),
    ensures
        match generic_parse_error(sql@) {
            Some(m) => r matches Err(TranslateError::SqlParse(e)) && e@ == m,
            None => if generic_parsed(sql@).len() != 1 {
                r matches Err(e) && feature_is(e, single_statement_message())
            } else {
                exists|st: EngineQueryStatement| #[trigger] lower.ensures((&generic_parsed(sql@)[0],), st)
                    && query_outcome(st, schemas@, *resolve, *column, *value, *subquery, r)
            },
        },
{
    let parsed = match parse_single_statement(sql) {
        Ok(p) => p,
        Err(x) => return Err(x),
    };
    let st = lower(&parsed);
    translate_statement(&st, schemas, resolve, column, value, subquery)
}

/// A statement translated for the engine: a data statement's query, or a
/// definition statement's operation.
#[derive(Debug)]
pub enum CanonicalStatement<Q> {
    Query(EngineQuery<Q>),
    Ddl(DdlOp),
}

/// What translating the statement `st` into a query or a definition gives.
pub open spec fn canonical_outcome<R, C, V, S, Q>(
    st: EngineQueryStatement,
    schemas: Seq<EngineTableSchema>,
    resolve: R,
    column: C,
    value: V,
    subquery: S,
    r: Result<CanonicalStatement<Q>, TranslateError>,
) -> bool
    where
        R: Fn(&SqlExpr, &Vec<(String, String)>, &Vec<usize>) -> Result<QualifiedColumn, TranslateError>,
        C: Fn(&PredicateExpr, &Scope) -> Result<QualifiedColumn, TranslateError>,
        V: Fn(&PredicateExpr) -> Result<EngineValue, TranslateError>,
        S: Fn(&String) -> Result<Q, TranslateError>,
{
    match st {
        EngineQueryStatement::Definition(d) => match r {
            Ok(CanonicalStatement::Ddl(op)) => definition_outcome(d, Ok(op)),
            Ok(_) => false,
            Err(x) => definition_outcome(d, Err(x)),
        },
        _ => match r {
            Ok(CanonicalStatement::Query(q)) => query_outcome(st, schemas, resolve, column, value, subquery, Ok(q)),
            Ok(_) => false,
            Err(x) => query_outcome::<R, C, V, S, Q>(st, schemas, resolve, column, value, subquery, Err(x)),
        },
    }
}

/// Translates a parsed statement into the engine's query or definition.
pub fn translate_statement_to_canonical<R, C, V, S, Q>(
    stmt: &EngineQueryStatement,
    schemas: &Vec<EngineTableSchema>,
    resolve: &R,
    column: &C,
    value: &V,
    subquery: &S,
) -> (r: Result<CanonicalStatement<Q>, TranslateError>)
    where
        R: Fn(&SqlExpr, &Vec<(String, String)>, &Vec<usize>) -> Result<QualifiedColumn, TranslateError>,
        C: Fn(&PredicateExpr, &Scope) -> Result<QualifiedColumn, TranslateError>,
        V: Fn(&PredicateExpr) -> Result<EngineValue, TranslateError>,
        S: Fn(&String) -> Result<Q, TranslateError>,
    requires
        forall|e: &SqlExpr, a: &Vec<(String, String)>, k: &Vec<usize>| resolve.requires((e, a, k)),
        forall|x: &PredicateExpr, y: &Scope| column.requires((x, y)),
        forall|x: &PredicateExpr| value.requires((x,)),
        forall|x: &String| subquery.requires((x,)),
    ensures
        canonical_outcome(*stmt, schemas@, *resolve, *column, *value, *subquery, r),
{
    match stmt {
        EngineQueryStatement::Definition(d) => match translate_definition(d) {
            Ok(op) => Ok(CanonicalStatement::Ddl(op)),
            Err(x) => Err(x),
        },
        _ => match translate_statement(stmt, schemas, resolve, column, value, subquery) {
            Ok(q) => Ok(CanonicalStatement::Query(q)),
            Err(x) => Err(x),
        },
    }
}

/// Parses SQL text holding one statement (sqlparser's generic dialect) and
/// translates it into the engine's query or definition; `lower` reads the
/// parsed statement into the tree translated here.
pub fn parse_and_translate_statement<L, R, C, V, S, Q>(
    sql: &str,
    schemas: &Vec<EngineTableSchema>,
    lower: L,
    resolve: &R,
    column: &C,
    value: &V,
    subquery: &S,
) -> (r: Result<CanonicalStatement<Q>, TranslateError>)
    where
        L: Fn(&ParsedStatement) -> EngineQueryStatement,
        R: Fn(&SqlExpr, &Vec<(String, String)>, &Vec<usize>) -> Result<QualifiedColumn, TranslateError>,
        C: Fn(&PredicateExpr, &Scope) -> Result<QualifiedColumn, TranslateError>,
        V: Fn(&PredicateExpr) -> Result<EngineValue, TranslateError>,
        S: Fn(&String) -> Result<Q, TranslateError>,
    requires
        forall|s: &ParsedStatement| lower.requires((s,)),
        forall|e: &SqlExpr, a: &Vec<(String, String)>, k: &Vec<usize>| resolve.requires((e, a, k)),
        forall|x: &PredicateExpr, y: &Scope| column.requires((x, y)),
        forall|x: &PredicateExpr| value.requires((x,)),
        forall|x: &String| subquery.requires((x,)),
    ensures
        match generic_parse_error(sql@) {
            Some(m) => r matches Err(TranslateError::SqlParse(e)) && e@ == m,
            None => if generic_parsed(sql@).len() != 1 {
                r matches Err(e) && feature_is(e, single_statement_message())
            } else {
                exists|st: EngineQueryStatement| #[trigger] lower.ensures((&generic_parsed(sql@)[0],), st)
                    && canonical_outcome(st, schemas@, *resolve, *column, *value, *subquery, r)
            },
        },
{
    let parsed = match parse_single_statement(sql) {
        Ok(p) => p,
        Err(x) => return Err(x),
    };
    let st = lower(&parsed);
    translate_statement_to_canonical(&st, schemas, resolve, column, value, subquery)
}

} // verus!
