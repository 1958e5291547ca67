//! Definition statements for the storage engine, from SQL text: the parse
//! with sqlparser's generic dialect, `CREATE TABLE` and `DROP`.
use vstd::prelude::*;

use crate::engine_ddl::{create_table_error, feature_is, table_schema_of, translate_create_table, EngineCreateTable, EngineTableSchema};
use crate::placeholders::TranslateError;
use crate::text::{join, join_spec, string_views};
use sqlparser::ast::Statement as ParsedStatement;
use sqlparser::dialect::GenericDialect;
use sqlparser::parser::Parser;

verus! {

/// The message of the error that sqlparser's generic dialect reports on
/// `sql`, or nothing where the text parses.
pub uninterp spec fn generic_parse_error(sql: Seq<char>) -> Option<Seq<char>>;

/// The statements, in order, that sqlparser's generic dialect reads from
/// `sql` where it parses.
pub uninterp spec fn generic_parsed(sql: Seq<char>) -> Seq<ParsedStatement>;

/// Parses SQL text with sqlparser (`Parser::parse_sql` with the generic
/// dialect): the statements, or the parser's error message, both named.
#[verifier::external_body]
fn parse_sql_generic(sql: &str) -> (r: Result<Vec<ParsedStatement>, String>)
    ensures
        match r {
            Ok(v) => generic_parse_error(sql@) is None && v@ == generic_parsed(sql@),
            Err(m) => generic_parse_error(sql@) == Some(m@),
        },
{
    Parser::parse_sql(&GenericDialect {}, sql).map_err(|e| e.to_string())
}

pub open spec fn single_statement_message() -> Seq<char> {
    "only a single statement is supported"@
}

/// Parses SQL text that must hold exactly one statement.
pub fn parse_single_statement(sql: &str) -> (r: Result<ParsedStatement, TranslateError>)
    ensures
        match generic_parse_error(sql@) {
            Some(m) => r matches Err(TranslateError::SqlParse(e)) && e@ == m,
            None => if generic_parsed(sql@).len() != 1 {
                r matches Err(e) && feature_is(e, single_statement_message())
            } else {
                r matches Ok(s) && s == generic_parsed(sql@)[0]
            },
        },
{
    let mut stmts = match parse_sql_generic(sql) {
        Ok(v) => v,
        Err(m) => return Err(TranslateError::SqlParse(m)),
    };
    if stmts.len() != 1 {
        return Err(TranslateError::UnsupportedFeature(String::from_str("only a single statement is supported")));
    }
    Ok(stmts.remove(0))
}

#[derive(Debug)]
pub enum EngineObjectType {
    Table,
    Index,
    Other,
}

/// A parsed definition statement; the names of `DROP` are given by parts.
/// `Other` is any other statement.
#[derive(Debug)]
pub enum EngineStatement {
    CreateTable(EngineCreateTable),
    Drop { object_type: EngineObjectType, names: Vec<Vec<String>>, if_exists: bool },
    Other,
}

/// A definition operation for the engine; the flag is `IF NOT EXISTS` or
/// `IF EXISTS`.
#[derive(Debug)]
pub enum DdlOp {
    CreateTable(EngineTableSchema, bool),
    DropTable(String, bool),
    DropIndex(String, bool),
}

pub open spec fn drop_outcome(object_type: EngineObjectType, names: Seq<Vec<String>>, if_exists: bool, r: Result<DdlOp, TranslateError>) -> bool {
    if names.len() != 1 {
        r matches Err(e) && feature_is(e, "DROP only supports a single object"@)
    } else {
        let name = join_spec(string_views(names[0]@), "."@);
        match object_type {
            EngineObjectType::Table => r matches Ok(DdlOp::DropTable(n, f)) && n@ == name && f == if_exists,
            EngineObjectType::Index => r matches Ok(DdlOp::DropIndex(n, f)) && n@ == name && f == if_exists,
            EngineObjectType::Other => r matches Err(TranslateError::UnsupportedStatement),
        }
    }
}

/// Translates a `DROP TABLE` or `DROP INDEX` of one object.
pub fn translate_drop_statement(object_type: &EngineObjectType, names: &Vec<Vec<String>>, if_exists: bool) -> (r: Result<DdlOp, TranslateError>)
    ensures
        drop_outcome(*object_type, names@, if_exists, r),
{
    if names.len() != 1 {
        return Err(TranslateError::UnsupportedFeature(String::from_str("DROP only supports a single object")));
    }
    let object_name = join(&names[0], ".");
    match object_type {
        EngineObjectType::Table => Ok(DdlOp::DropTable(object_name, if_exists)),
        EngineObjectType::Index => Ok(DdlOp::DropIndex(object_name, if_exists)),
        EngineObjectType::Other => Err(TranslateError::UnsupportedStatement),
    }
}

/// What translating a definition statement gives.
pub open spec fn definition_outcome(st: EngineStatement, r: Result<DdlOp, TranslateError>) -> bool {
    match st {
        EngineStatement::CreateTable(ct) => match r {
            Ok(DdlOp::CreateTable(t, flag)) => create_table_error(ct) is None && table_schema_of(ct, t) && flag == ct.if_not_exists,
            Ok(_) => false,
            Err(e) => create_table_error(ct) matches Some(m) && feature_is(e, m),
        },
        EngineStatement::Drop { object_type, names, if_exists } => drop_outcome(object_type, names@, if_exists, r),
        EngineStatement::Other => r matches Err(TranslateError::UnsupportedStatement),
    }
}

/// Translates a definition statement into the engine's operation.
pub fn translate_definition(stmt: &EngineStatement) -> (r: Result<DdlOp, TranslateError>)
    ensures
        definition_outcome(*stmt, r),
{
    match stmt {
        EngineStatement::CreateTable(ct) => {
            let t = translate_create_table(ct)?;
            Ok(DdlOp::CreateTable(t, ct.if_not_exists))
        },
        EngineStatement::Drop { object_type, names, if_exists } => translate_drop_statement(object_type, names, *if_exists),
        EngineStatement::Other => Err(TranslateError::UnsupportedStatement),
    }
}

/// Parses SQL text holding one statement and translates it as a definition
/// statement; `lower` reads the parsed statement into the tree translated
/// here. Parse errors carry the parser's message.
pub fn parse_and_translate_definition<F>(sql: &str, lower: F) -> (r: Result<DdlOp, TranslateError>)
    where
        F: Fn(&ParsedStatement) -> EngineStatement,
    requires
        forall|s: &ParsedStatement| lower.requires((s,)),
    ensures
        match generic_parse_error(sql@) {
            Some(m) => r matches Err(TranslateError::SqlParse(e)) && e@ == m,
            None => if generic_parsed(sql@).len() != 1 {
                r matches Err(e) && feature_is(e, single_statement_message())
            } else {
                exists|st: EngineStatement| lower.ensures((&generic_parsed(sql@)[0],), st) && definition_outcome(st, r)
            },
        },
{
    let parsed = parse_single_statement(sql)?;
    let st = lower(&parsed);
    translate_definition(&st)
}

} // verus!
