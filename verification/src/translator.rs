//! Translation of parsed SQL statements into query and data-definition
//! structures.
use vstd::prelude::*;

use crate::numbers::{parse_i64, parse_i64_spec};
use crate::query::{
    AlterIndexOperation, AlterTableOperation, DataDefinition, Query, QueryColumn, QueryDelete, QueryExpr, QueryExprValue, QueryFrom, QueryInsertValue,
    QueryInsertValues, QueryJoin, QueryJoinKind, QueryParams, QuerySelect, QueryUpdate,
    Statement, TranslateError,
};
use crate::sql_ast::{
    SqlAlterTable, SqlAlterTableOperation, SqlBinaryOperator, SqlColumnDef, SqlColumnOption,
    SqlCreateIndex, SqlCreateTable, SqlDataType, SqlDelete, SqlExpr, SqlIndexColumn, SqlInsert,
    SqlJoin, SqlJoinConstraint, SqlJoinOperator, SqlObjectName, SqlObjectNamePart, SqlObjectType,
    SqlQuery, SqlSelectItem, SqlSetExpr, SqlStatement, SqlTableConstraint, SqlTableFactor,
    SqlTableObject, SqlTableWithJoins, SqlUniqueNames, SqlUpdate, SqlValue,
};
use crate::schema::{ColumnSchema, IndexSchema, TableSchema};
use crate::text::{join, join_spec, string_views};
use crate::value::ValueType;
use crate::text::{concat, contains_char, decimal, decimal_string, str_eq};
use crate::value::Value;
use sqlparser::ast::Statement as ParsedStatement;
use sqlparser::dialect::PostgreSqlDialect;
use sqlparser::parser::Parser;

verus! {

// ---------------------------------------------------------------------------
// Outcomes and errors

/// The translator's errors all carry a message; `err_is(r, m)` says that the
/// error is `Custom` with message `m`.
pub open spec fn custom_is(e: TranslateError, m: Seq<char>) -> bool {
    e matches TranslateError::Custom(msg) && msg@ == m
}

// ---------------------------------------------------------------------------
// The uuid crate

/// What `uuid::Uuid::parse_str` yields on a text: the sixteen bytes of the
/// UUID it denotes, or nothing when the text is not a UUID.
pub uninterp spec fn uuid_parse(s: Seq<char>) -> Option<Seq<u8>>;

/// The text of the error that `uuid::Uuid::parse_str` reports on `s`.
pub uninterp spec fn uuid_error_text(s: Seq<char>) -> Seq<char>;

/// Parses a UUID in any of the textual forms that `uuid::Uuid::parse_str`
/// accepts: its bytes, named by `uuid_parse`, or the text of the parser's
/// error, named by `uuid_error_text`.
#[verifier::external_body]
pub(crate) fn parse_uuid_text(s: &str) -> (r: Result<[u8; 16], String>)
    ensures
        match r {
            Ok(b) => uuid_parse(s@) == Some(b@),
            Err(m) => uuid_parse(s@) is None && m@ == uuid_error_text(s@),
        },
{
    match uuid::Uuid::parse_str(s) {
        Ok(u) => Ok(*u.as_bytes()),
        Err(e) => Err(e.to_string()),
    }
}

/// The value a UUID cast gives, from what parsing its text gave: the UUID,
/// or the error for text that is not one.
pub fn uuid_cast_result(parsed: Option<[u8; 16]>) -> (r: Result<QueryExpr, TranslateError>)
    ensures
        match parsed {
            Some(b) => r matches Ok(QueryExpr::Value(QueryExprValue::Value(Value::Uuid(u)))) && u == b,
            None => r matches Err(e) && custom_is(e, "Invalid UUID literal"@),
        },
{
    match parsed {
        Some(uuid) => Ok(QueryExpr::Value(QueryExprValue::Value(Value::Uuid(uuid)))),
        None => Err(TranslateError::custom("Invalid UUID literal")),
    }
}

// ---------------------------------------------------------------------------
// Names

/// Result of reading a one-part object name: the name, or an error message.
pub open spec fn part_result(p: SqlObjectNamePart) -> Result<Seq<char>, Seq<char>> {
    match p {
        SqlObjectNamePart::Identifier(s) => Ok(s@),
        SqlObjectNamePart::Function => Err("Function names not supported in object names"@),
    }
}

pub open spec fn object_name_result(n: SqlObjectName) -> Result<Seq<char>, Seq<char>> {
    if n.parts@.len() == 1 {
        part_result(n.parts@[0])
    } else {
        Err("Unsupported object name with "@ + decimal(n.parts@.len()) + " parts: "@ + n.debug@)
    }
}

pub open spec fn table_object_result(t: SqlTableObject) -> Result<Seq<char>, Seq<char>> {
    match t {
        SqlTableObject::TableName(n) => if n.parts@.len() == 1 {
            part_result(n.parts@[0])
        } else {
            Err("Unsupported table name with "@ + decimal(n.parts@.len()) + " parts: "@ + n.debug@)
        },
        SqlTableObject::Other(d) => Err("Unsupported table object: "@ + d@),
    }
}

/// A string result against its specification.
pub open spec fn string_result_is(r: Result<String, TranslateError>, s: Result<Seq<char>, Seq<char>>) -> bool {
    match r {
        Ok(v) => s == Ok::<Seq<char>, Seq<char>>(v@),
        Err(e) => s is Err && custom_is(e, s->Err_0),
    }
}

fn object_name_part_to_string(part: &SqlObjectNamePart) -> (r: Result<String, TranslateError>)
    ensures
        string_result_is(r, part_result(*part)),
{
    match part {
        SqlObjectNamePart::Identifier(s) => Ok(s.clone()),
        SqlObjectNamePart::Function => Err(
            TranslateError::custom("Function names not supported in object names"),
        ),
    }
}

fn parts_message(prefix: &str, count: usize, debug: &String) -> (r: String)
    ensures
        r@ == prefix@ + decimal(count as nat) + " parts: "@ + debug@,
{
    let mut m = concat(prefix, decimal_string(count as u64).as_str());
    m.append(" parts: ");
    m.append(debug.as_str());
    m
}

pub fn object_name_to_string(name: &SqlObjectName) -> (r: Result<String, TranslateError>)
    ensures
        string_result_is(r, object_name_result(*name)),
{
    if name.parts.len() == 1 {
        object_name_part_to_string(&name.parts[0])
    } else {
        let m = parts_message("Unsupported object name with ", name.parts.len(), &name.debug);
        Err(TranslateError::Custom(m))
    }
}

pub fn table_name_to_string(name: &SqlTableObject) -> (r: Result<String, TranslateError>)
    ensures
        string_result_is(r, table_object_result(*name)),
{
    match name {
        SqlTableObject::TableName(object_name) => {
            if object_name.parts.len() == 1 {
                object_name_part_to_string(&object_name.parts[0])
            } else {
                let m = parts_message(
                    "Unsupported table name with ",
                    object_name.parts.len(),
                    &object_name.debug,
                );
                Err(TranslateError::Custom(m))
            }
        },
        SqlTableObject::Other(d) => Err(
            TranslateError::Custom(concat("Unsupported table object: ", d.as_str())),
        ),
    }
}

// ---------------------------------------------------------------------------
// Aliases

/// Alias bindings as text: (alias, table) pairs in the order they were made.
pub type Aliases = Seq<(Seq<char>, Seq<char>)>;

pub open spec fn alias_view(v: Seq<(String, String)>) -> Aliases {
    v.map_values(|p: (String, String)| (p.0@, p.1@))
}

/// The table that `alias` names in `aliases`: the latest binding wins.
pub open spec fn alias_lookup(aliases: Aliases, alias: Seq<char>) -> Option<Seq<char>>
    decreases aliases.len(),
{
    if aliases.len() == 0 {
        None
    } else if aliases.last().0 == alias {
        Some(aliases.last().1)
    } else {
        alias_lookup(aliases.drop_last(), alias)
    }
}

/// `aliases` with `alias`, if given, bound to `table`.
pub open spec fn bind_alias(aliases: Aliases, alias: Option<Seq<char>>, table: Seq<char>) -> Aliases {
    match alias {
        Some(a) => aliases.push((a, table)),
        None => aliases,
    }
}

/// The table a qualifier stands for: the aliased table, or the qualifier.
pub open spec fn resolve_table(aliases: Aliases, q: Seq<char>) -> Seq<char> {
    match alias_lookup(aliases, q) {
        Some(t) => t,
        None => q,
    }
}

pub open spec fn opt_view(o: Option<String>) -> Option<Seq<char>> {
    match o {
        Some(s) => Some(s@),
        None => None,
    }
}

/// Binds `alias`, when there is one, to `table`.
pub fn insert_alias(aliases: &mut Vec<(String, String)>, alias: Option<String>, table: &str)
    ensures
        alias_view(final(aliases)@) == bind_alias(alias_view(old(aliases)@), opt_view(alias), table@),
{
    if let Some(alias) = alias {
        aliases.push((alias, String::from_str(table)));
        assert(alias_view(aliases@) =~= alias_view(old(aliases)@).push((alias@, table@)));
    }
}

/// After binding `alias` to `table`, `alias` names `table` and every other
/// alias names what it named before.
pub proof fn law_alias_binding(aliases: Aliases, alias: Seq<char>, table: Seq<char>, other: Seq<char>)
    ensures
        alias_lookup(bind_alias(aliases, Some(alias), table), alias) == Some(table),
        other != alias ==> alias_lookup(bind_alias(aliases, Some(alias), table), other)
            == alias_lookup(aliases, other),
        alias_lookup(bind_alias(aliases, None, table), other) == alias_lookup(aliases, other),
{
    assert(aliases.push((alias, table)).drop_last() == aliases);
}

/// The table bound to `alias`, if any.
pub fn lookup_alias(aliases: &Vec<(String, String)>, alias: &str) -> (r: Option<String>)
    ensures
        match r {
            Some(t) => alias_lookup(alias_view(aliases@), alias@) == Some(t@),
            None => alias_lookup(alias_view(aliases@), alias@) is None,
        },
{
    let ghost all = alias_view(aliases@);
    let mut i: usize = aliases.len();
    assert(all.take(i as int) == all);
    while i > 0
        invariant
            i <= aliases@.len(),
            all == alias_view(aliases@),
            alias_lookup(all, alias@) == alias_lookup(all.take(i as int), alias@),
        decreases i,
    {
        let ghost pre = all.take(i as int);
        assert(pre.last() == all[i - 1]);
        assert(pre.drop_last() == all.take(i - 1));
        if str_eq(aliases[i - 1].0.as_str(), alias) {
            return Some(aliases[i - 1].1.clone());
        }
        i = i - 1;
    }
    None
}

fn resolve_qualifier(aliases: &Vec<(String, String)>, q: &String) -> (r: String)
    ensures
        r@ == resolve_table(alias_view(aliases@), q@),
{
    match lookup_alias(aliases, q.as_str()) {
        Some(t) => t,
        None => q.clone(),
    }
}

// ---------------------------------------------------------------------------
// Literals

/// The error that translating a literal gives, if any.
pub open spec fn value_error(v: SqlValue) -> Option<Seq<char>> {
    match v {
        SqlValue::Number { text, float_bits } => if text@.contains('.') {
            if float_bits is Some { None } else { Some("Invalid float literal: "@ + text@) }
        } else {
            if parse_i64_spec(text@) is Some { None } else { Some("Invalid integer literal: "@ + text@) }
        },
        _ => None,
    }
}

/// `out` is the value that a literal translates to.
pub open spec fn value_translation(v: SqlValue, out: Value) -> bool {
    match v {
        SqlValue::Number { text, float_bits } => if text@.contains('.') {
            out == Value::Float(float_bits->Some_0)
        } else {
            out == Value::Integer(parse_i64_spec(text@)->Some_0)
        },
        SqlValue::SingleQuotedString(s) => out matches Value::Text(t) && t@ == s@,
        SqlValue::Boolean(b) => out == Value::Bool(b),
        SqlValue::Null => out is Null,
        SqlValue::Placeholder { raw, debug } => out matches Value::Text(t) && t@ == debug@,
        SqlValue::Other(d) => out matches Value::Text(t) && t@ == d@,
    }
}

pub fn translate_value(value: &SqlValue) -> (r: Result<Value, TranslateError>)
    ensures
        match r {
            Ok(out) => value_error(*value) is None && value_translation(*value, out),
            Err(e) => value_error(*value) matches Some(m) && custom_is(e, m),
        },
{
    match value {
        SqlValue::Number { text, float_bits } => {
            if contains_char(text.as_str(), '.') {
                match float_bits {
                    Some(bits) => Ok(Value::Float(*bits)),
                    None => Err(TranslateError::Custom(concat("Invalid float literal: ", text.as_str()))),
                }
            } else {
                match parse_i64(text.as_str()) {
                    Some(i) => Ok(Value::Integer(i)),
                    None => Err(TranslateError::Custom(concat("Invalid integer literal: ", text.as_str()))),
                }
            }
        },
        SqlValue::SingleQuotedString(s) => Ok(Value::Text(s.clone())),
        SqlValue::Boolean(b) => Ok(Value::Bool(*b)),
        SqlValue::Null => Ok(Value::Null),
        SqlValue::Placeholder { raw: _, debug } => Ok(Value::Text(debug.clone())),
        SqlValue::Other(d) => Ok(Value::Text(d.clone())),
    }
}

// ---------------------------------------------------------------------------
// Expressions

/// The text of an expression that translates to a text literal.
pub open spec fn text_literal(e: SqlExpr) -> Option<Seq<char>>
    decreases e,
{
    match e {
        SqlExpr::Value(SqlValue::SingleQuotedString(s)) => Some(s@),
        SqlExpr::Value(SqlValue::Other(d)) => Some(d@),
        SqlExpr::Value(SqlValue::Placeholder { raw, debug }) => Some(debug@),
        SqlExpr::Nested(inner) => text_literal(*inner),
        _ => None,
    }
}

pub open spec fn binary_op_error(op: SqlBinaryOperator) -> Option<Seq<char>> {
    match op {
        SqlBinaryOperator::Other(d) => Some("Unsupported binary operator: "@ + d@),
        _ => None,
    }
}

/// The error that translating `e` gives, if any: the first one met when
/// translating left to right.
pub open spec fn expr_error(aliases: Aliases, e: SqlExpr) -> Option<Seq<char>>
    decreases e,
{
    match e {
        SqlExpr::BinaryOp { left, op, right } => if expr_error(aliases, *left) is Some {
            expr_error(aliases, *left)
        } else if expr_error(aliases, *right) is Some {
            expr_error(aliases, *right)
        } else {
            binary_op_error(op)
        },
        SqlExpr::Identifier(_) => None,
        SqlExpr::CompoundIdentifier { parts, debug, parts_debug } => if parts@.len() == 2 {
            None
        } else {
            Some("Unsupported expression: "@ + debug@)
        },
        SqlExpr::Nested(inner) => expr_error(aliases, *inner),
        SqlExpr::IsNull(inner) => expr_error(aliases, *inner),
        SqlExpr::IsNotNull(inner) => expr_error(aliases, *inner),
        SqlExpr::Value(v) => value_error(v),
        SqlExpr::CastUuid(inner) => if expr_error(aliases, *inner) is Some {
            expr_error(aliases, *inner)
        } else {
            match text_literal(*inner) {
                None => Some("UUID casts require text values"@),
                Some(t) => if uuid_parse(t) is None { Some("Invalid UUID literal"@) } else { None },
            }
        },
        SqlExpr::Cast(_) => Some("Unsupported cast"@),
        SqlExpr::Other(d) => Some("Unsupported expression: "@ + d@),
    }
}

/// `q` is a reference to column `column` of table `table`.
pub open spec fn is_column_ref(q: QueryExpr, table: Seq<char>, column: Seq<char>) -> bool {
    q matches QueryExpr::Value(QueryExprValue::Column(c)) && c.table@ == table && c.column@ == column
}

/// `q` is what `e` translates to (when it translates without error).
pub open spec fn expr_translation(aliases: Aliases, e: SqlExpr, q: QueryExpr) -> bool
    decreases e,
{
    match e {
        SqlExpr::BinaryOp { left, op, right } => match (op, q) {
            (SqlBinaryOperator::Eq, QueryExpr::Equals(l, r)) => expr_translation(aliases, *left, *l)
                && expr_translation(aliases, *right, *r),
            (SqlBinaryOperator::NotEq, QueryExpr::NotEquals(l, r)) => expr_translation(aliases, *left, *l)
                && expr_translation(aliases, *right, *r),
            (SqlBinaryOperator::Lt, QueryExpr::LessThan(l, r)) => expr_translation(aliases, *left, *l)
                && expr_translation(aliases, *right, *r),
            (SqlBinaryOperator::LtEq, QueryExpr::LessThanOrEquals(l, r)) => expr_translation(aliases, *left, *l)
                && expr_translation(aliases, *right, *r),
            (SqlBinaryOperator::Gt, QueryExpr::GreaterThan(l, r)) => expr_translation(aliases, *left, *l)
                && expr_translation(aliases, *right, *r),
            (SqlBinaryOperator::GtEq, QueryExpr::GreaterThanOrEquals(l, r)) => expr_translation(aliases, *left, *l)
                && expr_translation(aliases, *right, *r),
            (SqlBinaryOperator::And, QueryExpr::And(l, r)) => expr_translation(aliases, *left, *l)
                && expr_translation(aliases, *right, *r),
            (SqlBinaryOperator::Or, QueryExpr::Or(l, r)) => expr_translation(aliases, *left, *l)
                && expr_translation(aliases, *right, *r),
            _ => false,
        },
        SqlExpr::Identifier(i) => is_column_ref(q, Seq::empty(), i@),
        SqlExpr::CompoundIdentifier { parts, debug, parts_debug } => parts@.len() == 2 && is_column_ref(
            q,
            resolve_table(aliases, parts@[0]@),
            parts@[1]@,
        ),
        SqlExpr::Nested(inner) => expr_translation(aliases, *inner, q),
        SqlExpr::IsNull(inner) => q matches QueryExpr::IsNull(b) && expr_translation(aliases, *inner, *b),
        SqlExpr::IsNotNull(inner) => q matches QueryExpr::IsNotNull(b) && expr_translation(aliases, *inner, *b),
        SqlExpr::Value(v) => q matches QueryExpr::Value(QueryExprValue::Value(out)) && value_translation(v, out),
        SqlExpr::CastUuid(inner) => q matches QueryExpr::Value(QueryExprValue::Value(Value::Uuid(u)))
            && text_literal(*inner) matches Some(t) && uuid_parse(t) == Some(u@),
        _ => false,
    }
}

/// The outcome of translating `e`, against its specification.
pub open spec fn expr_result_is(aliases: Aliases, e: SqlExpr, r: Result<QueryExpr, TranslateError>) -> bool {
    match r {
        Ok(q) => expr_error(aliases, e) is None && expr_translation(aliases, e, q),
        Err(err) => expr_error(aliases, e) matches Some(m) && custom_is(err, m),
    }
}

fn column_expr(table: String, column: String) -> (r: QueryExpr)
    ensures
        is_column_ref(r, table@, column@),
{
    QueryExpr::Value(QueryExprValue::Column(QueryColumn::new(table, column)))
}

/// A translated expression that is a text literal carries that text.
proof fn lemma_text_literal(aliases: Aliases, e: SqlExpr, q: QueryExpr)
    requires
        expr_error(aliases, e) is None,
        expr_translation(aliases, e, q),
    ensures
        (q matches QueryExpr::Value(QueryExprValue::Value(Value::Text(s)))) <==> text_literal(e) is Some,
        q matches QueryExpr::Value(QueryExprValue::Value(Value::Text(s))) ==> text_literal(e) == Some(s@),
    decreases e,
{
    match e {
        SqlExpr::Nested(inner) => lemma_text_literal(aliases, *inner, q),
        SqlExpr::BinaryOp { left, op, right } => {},
        _ => {},
    }
}

pub fn translate_expr(aliases: &Vec<(String, String)>, expr: &SqlExpr) -> (r: Result<QueryExpr, TranslateError>)
    ensures
        expr_result_is(alias_view(aliases@), *expr, r),
    decreases *expr, 1nat,
{
    match expr {
        SqlExpr::BinaryOp { left, op, right } => translate_binary_expr(aliases, left, op, right),
        SqlExpr::Identifier(ident) => Ok(column_expr(String::new(), ident.clone())),
        SqlExpr::CompoundIdentifier { parts, debug, parts_debug } => {
            if parts.len() == 2 {
                let table = resolve_qualifier(aliases, &parts[0]);
                Ok(column_expr(table, parts[1].clone()))
            } else {
                Err(TranslateError::Custom(concat("Unsupported expression: ", debug.as_str())))
            }
        },
        SqlExpr::Nested(inner) => translate_expr(aliases, inner),
        SqlExpr::IsNull(inner) => {
            let t = translate_expr(aliases, inner)?;
            Ok(QueryExpr::IsNull(Box::new(t)))
        },
        SqlExpr::IsNotNull(inner) => {
            let t = translate_expr(aliases, inner)?;
            Ok(QueryExpr::IsNotNull(Box::new(t)))
        },
        SqlExpr::Value(value) => {
            let v = translate_value(value)?;
            Ok(QueryExpr::Value(QueryExprValue::Value(v)))
        },
        SqlExpr::CastUuid(inner) => {
            let t = translate_expr(aliases, inner)?;
            proof { lemma_text_literal(alias_view(aliases@), **inner, t); }
            match t {
                QueryExpr::Value(QueryExprValue::Value(Value::Text(value))) => {
                    uuid_cast_result(match parse_uuid_text(value.as_str()) {
                        Ok(b) => Some(b),
                        Err(_) => None,
                    })
                },
                _ => Err(TranslateError::custom("UUID casts require text values")),
            }
        },
        SqlExpr::Cast(_) => Err(TranslateError::custom("Unsupported cast")),
        SqlExpr::Other(d) => Err(TranslateError::Custom(concat("Unsupported expression: ", d.as_str()))),
    }
}

/// The binary expression with the given operands and operator.
pub open spec fn binary_node(left: SqlExpr, op: SqlBinaryOperator, right: SqlExpr) -> SqlExpr {
    SqlExpr::BinaryOp { left: Box::new(left), op, right: Box::new(right) }
}

fn translate_binary_expr(
    aliases: &Vec<(String, String)>,
    left: &SqlExpr,
    op: &SqlBinaryOperator,
    right: &SqlExpr,
) -> (r: Result<QueryExpr, TranslateError>)
    ensures
        expr_result_is(alias_view(aliases@), binary_node(*left, *op, *right), r),
    decreases binary_node(*left, *op, *right), 0nat,
{
    let ghost e = binary_node(*left, *op, *right);
    assert(decreases_to!(e => e->left));
    let l = translate_expr(aliases, left)?;
    assert(decreases_to!(e => e->right));
    let r = translate_expr(aliases, right)?;
    let left = Box::new(l);
    let right = Box::new(r);
    match op {
        SqlBinaryOperator::Eq => Ok(QueryExpr::Equals(left, right)),
        SqlBinaryOperator::NotEq => Ok(QueryExpr::NotEquals(left, right)),
        SqlBinaryOperator::Lt => Ok(QueryExpr::LessThan(left, right)),
        SqlBinaryOperator::LtEq => Ok(QueryExpr::LessThanOrEquals(left, right)),
        SqlBinaryOperator::Gt => Ok(QueryExpr::GreaterThan(left, right)),
        SqlBinaryOperator::GtEq => Ok(QueryExpr::GreaterThanOrEquals(left, right)),
        SqlBinaryOperator::And => Ok(QueryExpr::And(left, right)),
        SqlBinaryOperator::Or => Ok(QueryExpr::Or(left, right)),
        SqlBinaryOperator::Other(d) => Err(
            TranslateError::Custom(concat("Unsupported binary operator: ", d.as_str())),
        ),
    }
}

// ---------------------------------------------------------------------------
// Sequences of fallible steps

/// The first error met when running a step on each item in order.
pub open spec fn first_error<A>(s: Seq<A>, f: spec_fn(A) -> Option<Seq<char>>) -> Option<Seq<char>>
    decreases s.len(),
{
    if s.len() == 0 {
        None
    } else if first_error(s.drop_last(), f) is Some {
        first_error(s.drop_last(), f)
    } else {
        f(s.last())
    }
}

/// Extending a prefix without error by one item.
pub proof fn lemma_first_error_step<A>(s: Seq<A>, f: spec_fn(A) -> Option<Seq<char>>, i: int)
    requires
        0 <= i < s.len(),
        first_error(s.take(i), f) is None,
    ensures
        first_error(s.take(i + 1), f) == f(s[i]),
{
    assert(s.take(i + 1).drop_last() == s.take(i));
}

/// An error at an item after an error-free prefix is the first error.
pub proof fn lemma_first_error_at<A>(s: Seq<A>, f: spec_fn(A) -> Option<Seq<char>>, i: int)
    requires
        0 <= i < s.len(),
        first_error(s.take(i), f) is None,
        f(s[i]) is Some,
    ensures
        first_error(s, f) == f(s[i]),
    decreases s.len() - i,
{
    lemma_first_error_step(s, f, i);
    lemma_first_error_prefix(s, f, i + 1);
}

/// An error within a prefix is the first error of the whole sequence.
pub proof fn lemma_first_error_prefix<A>(s: Seq<A>, f: spec_fn(A) -> Option<Seq<char>>, i: int)
    requires
        0 <= i <= s.len(),
        first_error(s.take(i), f) is Some,
    ensures
        first_error(s, f) == first_error(s.take(i), f),
    decreases s.len() - i,
{
    if i < s.len() {
        assert(s.take(i + 1).drop_last() == s.take(i));
        lemma_first_error_prefix(s, f, i + 1);
    } else {
        assert(s.take(i) == s);
    }
}

// ---------------------------------------------------------------------------
// Projection

pub open spec fn projection_item_error(item: SqlSelectItem) -> Option<Seq<char>> {
    match item {
        SqlSelectItem::Other => Some("Unsupported projection item"@),
        _ => None,
    }
}

/// The (table, column) that a projected expression stands for.
pub open spec fn expr_column(aliases: Aliases, e: SqlExpr, debug: Seq<char>) -> (Seq<char>, Seq<char>) {
    match e {
        SqlExpr::Identifier(i) => (Seq::empty(), i@),
        SqlExpr::CompoundIdentifier { parts, debug: d, parts_debug } => if parts@.len() == 2 {
            (resolve_table(aliases, parts@[0]@), parts@[1]@)
        } else {
            (Seq::empty(), debug)
        },
        _ => (Seq::empty(), "expr:"@ + debug),
    }
}

pub open spec fn projection_step() -> spec_fn(SqlSelectItem) -> Option<Seq<char>> {
    |it: SqlSelectItem| projection_item_error(it)
}

pub open spec fn projection_item_column(aliases: Aliases, item: SqlSelectItem, c: QueryColumn) -> bool {
    match item {
        SqlSelectItem::UnnamedExpr { expr, debug } => expr_column(aliases, expr, debug@) == (c.table@, c.column@),
        SqlSelectItem::ExprWithAlias { expr, debug } => expr_column(aliases, expr, debug@) == (c.table@, c.column@),
        SqlSelectItem::Wildcard => c.table@ == Seq::<char>::empty() && c.column@ == "*"@,
        SqlSelectItem::Other => false,
    }
}

fn translate_projection_expr(aliases: &Vec<(String, String)>, expr: &SqlExpr, debug: &String) -> (c: QueryColumn)
    ensures
        expr_column(alias_view(aliases@), *expr, debug@) == (c.table@, c.column@),
{
    match expr {
        SqlExpr::Identifier(ident) => QueryColumn::new(String::new(), ident.clone()),
        SqlExpr::CompoundIdentifier { parts, debug: _, parts_debug: _ } => {
            if parts.len() == 2 {
                QueryColumn::new(resolve_qualifier(aliases, &parts[0]), parts[1].clone())
            } else {
                QueryColumn::new(String::new(), debug.clone())
            }
        },
        _ => QueryColumn::new(String::new(), concat("expr:", debug.as_str())),
    }
}

pub fn translate_projection(aliases: &Vec<(String, String)>, projection: &Vec<SqlSelectItem>) -> (r: Result<Vec<QueryColumn>, TranslateError>)
    ensures
        match r {
            Ok(cols) => first_error(projection@, projection_step()) is None
                && cols@.len() == projection@.len()
                && forall|i: int| 0 <= i < cols@.len() ==> projection_item_column(alias_view(aliases@), #[trigger] projection@[i], cols@[i]),
            Err(e) => first_error(projection@, projection_step()) matches Some(m) && custom_is(e, m),
        },
{
    let ghost f = projection_step();
    let mut cols: Vec<QueryColumn> = Vec::new();
    let mut i: usize = 0;
    while i < projection.len()
        invariant
            i <= projection@.len(),
            cols@.len() == i,
            f == projection_step(),
            first_error(projection@.take(i as int), f) is None,
            forall|j: int| 0 <= j < i ==> projection_item_column(alias_view(aliases@), #[trigger] projection@[j], cols@[j]),
        decreases projection.len() - i,
    {
        proof { lemma_first_error_step(projection@, f, i as int); }
        let c = match &projection[i] {
            SqlSelectItem::UnnamedExpr { expr, debug } => translate_projection_expr(aliases, expr, debug),
            SqlSelectItem::ExprWithAlias { expr, debug } => translate_projection_expr(aliases, expr, debug),
            SqlSelectItem::Wildcard => QueryColumn::new(String::new(), String::from_str("*")),
            SqlSelectItem::Other => {
                proof {
                    assert(projection@[i as int] is Other);
                    assert(f(projection@[i as int]) == projection_item_error(projection@[i as int]));
                    lemma_first_error_at(projection@, f, i as int);
                }
                return Err(TranslateError::custom("Unsupported projection item"));
            },
        };
        cols.push(c);
        i = i + 1;
    }
    assert(projection@.take(i as int) == projection@);
    Ok(cols)
}

// ---------------------------------------------------------------------------
// FROM and JOIN

/// A table reference read as (table name, alias), or an error message.
pub open spec fn factor_result(f: SqlTableFactor, error: Seq<char>) -> Result<(Seq<char>, Option<Seq<char>>), Seq<char>> {
    match f {
        SqlTableFactor::Table { name, alias } => match object_name_result(name) {
            Ok(n) => Ok((n, opt_view(alias))),
            Err(m) => Err(m),
        },
        SqlTableFactor::Other => Err(error),
    }
}

pub open spec fn factor_error(f: SqlTableFactor, error: Seq<char>) -> Option<Seq<char>> {
    match factor_result(f, error) {
        Ok(_) => None,
        Err(m) => Some(m),
    }
}

fn translate_table_factor(factor: &SqlTableFactor, error: &str) -> (r: Result<(String, Option<String>), TranslateError>)
    ensures
        match r {
            Ok((t, a)) => factor_result(*factor, error@) == Ok::<(Seq<char>, Option<Seq<char>>), Seq<char>>((t@, opt_view(a))),
            Err(e) => factor_result(*factor, error@) matches Err(m) && custom_is(e, m),
        },
{
    match factor {
        SqlTableFactor::Table { name, alias } => {
            let n = object_name_to_string(name)?;
            let a = match alias {
                Some(a) => Some(a.clone()),
                None => None,
            };
            Ok((n, a))
        },
        SqlTableFactor::Other => Err(TranslateError::custom(error)),
    }
}

pub open spec fn complex_join_text() -> Seq<char> {
    "Complex table in JOIN not supported"@
}

pub open spec fn join_constraint_of(op: SqlJoinOperator) -> Option<(QueryJoinKind, SqlJoinConstraint)> {
    match op {
        SqlJoinOperator::Inner(c) => Some((QueryJoinKind::Inner, c)),
        SqlJoinOperator::Left(c) => Some((QueryJoinKind::Left, c)),
        SqlJoinOperator::Right(c) => Some((QueryJoinKind::Right, c)),
        SqlJoinOperator::FullOuter(c) => Some((QueryJoinKind::Full, c)),
        SqlJoinOperator::Other => None,
    }
}

pub open spec fn constraint_error(aliases: Aliases, c: SqlJoinConstraint) -> Option<Seq<char>> {
    match c {
        SqlJoinConstraint::On(e) => expr_error(aliases, e),
        SqlJoinConstraint::Using => Some("USING joins not yet supported"@),
        SqlJoinConstraint::Natural => Some("NATURAL joins not yet supported"@),
        SqlJoinConstraint::Missing => Some("JOIN without ON condition"@),
    }
}

pub open spec fn join_error(aliases: Aliases, j: SqlJoin) -> Option<Seq<char>> {
    if factor_error(j.relation, complex_join_text()) is Some {
        factor_error(j.relation, complex_join_text())
    } else {
        match join_constraint_of(j.operator) {
            None => Some("Unsupported JOIN type"@),
            Some((_, c)) => constraint_error(aliases, c),
        }
    }
}

pub open spec fn join_factor_step() -> spec_fn(SqlJoin) -> Option<Seq<char>> {
    |j: SqlJoin| factor_error(j.relation, complex_join_text())
}

pub open spec fn join_step(aliases: Aliases) -> spec_fn(SqlJoin) -> Option<Seq<char>> {
    |j: SqlJoin| join_error(aliases, j)
}

pub open spec fn join_translation(aliases: Aliases, j: SqlJoin, q: QueryJoin) -> bool {
    &&& factor_result(j.relation, complex_join_text()) matches Ok((t, _)) && q.table@ == t
    &&& join_constraint_of(j.operator) matches Some((kind, SqlJoinConstraint::On(e)))
        && q.kind == kind && expr_translation(aliases, e, q.on)
}

fn parse_join_constraint(aliases: &Vec<(String, String)>, constraint: &SqlJoinConstraint) -> (r: Result<QueryExpr, TranslateError>)
    ensures
        match r {
            Ok(q) => constraint_error(alias_view(aliases@), *constraint) is None
                && (*constraint matches SqlJoinConstraint::On(e) && expr_translation(alias_view(aliases@), e, q)),
            Err(err) => constraint_error(alias_view(aliases@), *constraint) matches Some(m) && custom_is(err, m),
        },
{
    match constraint {
        SqlJoinConstraint::On(expr) => translate_expr(aliases, expr),
        SqlJoinConstraint::Using => Err(TranslateError::custom("USING joins not yet supported")),
        SqlJoinConstraint::Natural => Err(TranslateError::custom("NATURAL joins not yet supported")),
        SqlJoinConstraint::Missing => Err(TranslateError::custom("JOIN without ON condition")),
    }
}

fn translate_join(aliases: &Vec<(String, String)>, join: &SqlJoin) -> (r: Result<QueryJoin, TranslateError>)
    ensures
        match r {
            Ok(q) => join_error(alias_view(aliases@), *join) is None && join_translation(alias_view(aliases@), *join, q),
            Err(e) => join_error(alias_view(aliases@), *join) matches Some(m) && custom_is(e, m),
        },
{
    let (table, _) = translate_table_factor(&join.relation, "Complex table in JOIN not supported")?;
    let (kind, constraint) = match &join.operator {
        SqlJoinOperator::Inner(c) => (QueryJoinKind::Inner, c),
        SqlJoinOperator::Left(c) => (QueryJoinKind::Left, c),
        SqlJoinOperator::Right(c) => (QueryJoinKind::Right, c),
        SqlJoinOperator::FullOuter(c) => (QueryJoinKind::Full, c),
        SqlJoinOperator::Other => return Err(TranslateError::custom("Unsupported JOIN type")),
    };
    let on = parse_join_constraint(aliases, constraint)?;
    Ok(QueryJoin { kind, table, on })
}

/// Aliases bound by the joined tables, after those in `aliases`.
pub open spec fn join_aliases(aliases: Aliases, joins: Seq<SqlJoin>) -> Aliases
    decreases joins.len(),
{
    if joins.len() == 0 {
        aliases
    } else {
        match factor_result(joins.last().relation, complex_join_text()) {
            Ok((t, a)) => bind_alias(join_aliases(aliases, joins.drop_last()), a, t),
            Err(_) => join_aliases(aliases, joins.drop_last()),
        }
    }
}

/// Aliases bound by a FROM item: the main table's, then the joined tables'.
pub open spec fn from_aliases(twj: SqlTableWithJoins) -> Aliases {
    match factor_result(twj.relation, "Only simple table references supported in FROM"@) {
        Ok((t, a)) => join_aliases(bind_alias(Seq::empty(), a, t), twj.joins@),
        Err(_) => Seq::empty(),
    }
}

pub open spec fn from_error(from: Seq<SqlTableWithJoins>) -> Option<Seq<char>> {
    if from.len() == 0 {
        Some("Missing FROM clause"@)
    } else if factor_error(from[0].relation, "Only simple table references supported in FROM"@) is Some {
        factor_error(from[0].relation, "Only simple table references supported in FROM"@)
    } else if first_error(from[0].joins@, join_factor_step()) is Some {
        first_error(from[0].joins@, join_factor_step())
    } else {
        first_error(from[0].joins@, join_step(from_aliases(from[0])))
    }
}

pub open spec fn from_translation(from: Seq<SqlTableWithJoins>, q: QueryFrom) -> bool {
    &&& from.len() > 0
    &&& factor_result(from[0].relation, "Only simple table references supported in FROM"@) matches Ok((t, _))
        && q.table@ == t
    &&& q.joins@.len() == from[0].joins@.len()
    &&& forall|i: int| 0 <= i < q.joins@.len() ==> join_translation(from_aliases(from[0]), #[trigger] from[0].joins@[i], q.joins@[i])
}

pub fn translate_from(from: &Vec<SqlTableWithJoins>) -> (r: Result<(QueryFrom, Vec<(String, String)>), TranslateError>)
    ensures
        match r {
            Ok((q, aliases)) => from_error(from@) is None && from_translation(from@, q)
                && alias_view(aliases@) == from_aliases(from@[0]),
            Err(e) => from_error(from@) matches Some(m) && custom_is(e, m),
        },
{
    if from.len() == 0 {
        return Err(TranslateError::custom("Missing FROM clause"));
    }
    let twj = &from[0];
    let (table, alias) = translate_table_factor(&twj.relation, "Only simple table references supported in FROM")?;
    let mut aliases: Vec<(String, String)> = Vec::new();
    assert(alias_view(aliases@) =~= Seq::<(Seq<char>, Seq<char>)>::empty());
    insert_alias(&mut aliases, alias, table.as_str());
    let ghost base = alias_view(aliases@);
    let ghost ff = join_factor_step();
    let mut i: usize = 0;
    while i < twj.joins.len()
        invariant
            i <= twj.joins@.len(),
            ff == join_factor_step(),
            twj == &from@[0],
            from@.len() > 0,
            factor_error(from@[0].relation, "Only simple table references supported in FROM"@) is None,
            first_error(twj.joins@.take(i as int), ff) is None,
            alias_view(aliases@) == join_aliases(base, twj.joins@.take(i as int)),
        decreases twj.joins.len() - i,
    {
        proof { lemma_first_error_step(twj.joins@, ff, i as int); }
        let ghost pre = twj.joins@.take(i as int);
        assert(twj.joins@.take(i + 1).drop_last() == pre);
        let (jt, ja) = match translate_table_factor(&twj.joins[i].relation, "Complex table in JOIN not supported") {
            Ok(p) => p,
            Err(e) => {
                proof {
                    assert(ff(twj.joins@[i as int]) == factor_error(twj.joins@[i as int].relation, complex_join_text()));
                    lemma_first_error_at(twj.joins@, ff, i as int);
                }
                return Err(e);
            },
        };
        insert_alias(&mut aliases, ja, jt.as_str());
        i = i + 1;
    }
    assert(twj.joins@.take(i as int) == twj.joins@);
    let ghost jf = join_step(from_aliases(from@[0]));
    let mut joins: Vec<QueryJoin> = Vec::new();
    let mut k: usize = 0;
    while k < twj.joins.len()
        invariant
            k <= twj.joins@.len(),
            jf == join_step(from_aliases(from@[0])),
            twj == &from@[0],
            from@.len() > 0,
            factor_error(from@[0].relation, "Only simple table references supported in FROM"@) is None,
            first_error(twj.joins@, join_factor_step()) is None,
            alias_view(aliases@) == from_aliases(from@[0]),
            first_error(twj.joins@.take(k as int), jf) is None,
            joins@.len() == k,
            forall|j: int| 0 <= j < k ==> join_translation(from_aliases(from@[0]), #[trigger] twj.joins@[j], joins@[j]),
        decreases twj.joins.len() - k,
    {
        proof { lemma_first_error_step(twj.joins@, jf, k as int); }
        let qj = match translate_join(&aliases, &twj.joins[k]) {
            Ok(q) => q,
            Err(e) => {
                proof {
                    assert(jf(twj.joins@[k as int]) == join_error(from_aliases(from@[0]), twj.joins@[k as int]));
                    lemma_first_error_at(twj.joins@, jf, k as int);
                }
                return Err(e);
            },
        };
        joins.push(qj);
        k = k + 1;
    }
    assert(twj.joins@.take(k as int) == twj.joins@);
    Ok((QueryFrom { table, joins }, aliases))
}

// ---------------------------------------------------------------------------
// Optional expressions

pub open spec fn opt_expr_error(aliases: Aliases, o: Option<SqlExpr>) -> Option<Seq<char>> {
    match o {
        Some(e) => expr_error(aliases, e),
        None => None,
    }
}

pub open spec fn opt_expr_translation(aliases: Aliases, o: Option<SqlExpr>, q: Option<QueryExpr>) -> bool {
    match (o, q) {
        (Some(e), Some(x)) => expr_translation(aliases, e, x),
        (None, None) => true,
        _ => false,
    }
}

fn translate_opt_expr(aliases: &Vec<(String, String)>, o: &Option<SqlExpr>) -> (r: Result<Option<QueryExpr>, TranslateError>)
    ensures
        match r {
            Ok(q) => opt_expr_error(alias_view(aliases@), *o) is None && opt_expr_translation(alias_view(aliases@), *o, q),
            Err(e) => opt_expr_error(alias_view(aliases@), *o) matches Some(m) && custom_is(e, m),
        },
{
    match o {
        Some(e) => {
            let q = translate_expr(aliases, e)?;
            Ok(Some(q))
        },
        None => Ok(None),
    }
}

fn no_aliases() -> (r: Vec<(String, String)>)
    ensures
        alias_view(r@) == Seq::<(Seq<char>, Seq<char>)>::empty(),
{
    let r: Vec<(String, String)> = Vec::new();
    assert(alias_view(r@) =~= Seq::<(Seq<char>, Seq<char>)>::empty());
    r
}

// ---------------------------------------------------------------------------
// SELECT

pub open spec fn query_error(q: SqlQuery) -> Option<Seq<char>> {
    if q.has_with {
        Some("CTEs not yet supported"@)
    } else {
        match q.body {
            SqlSetExpr::Select(sel) => if from_error(sel.from@) is Some {
                from_error(sel.from@)
            } else if first_error(sel.projection@, projection_step()) is Some {
                first_error(sel.projection@, projection_step())
            } else if opt_expr_error(from_aliases(sel.from@[0]), sel.selection) is Some {
                opt_expr_error(from_aliases(sel.from@[0]), sel.selection)
            } else {
                opt_expr_error(from_aliases(sel.from@[0]), sel.having)
            },
            _ => Some("Only plain SELECT queries supported"@),
        }
    }
}

pub open spec fn select_translation(q: SqlQuery, st: Statement) -> bool {
    &&& q.body matches SqlSetExpr::Select(sel)
    &&& st matches Statement::Query(Query::Select(out))
    &&& from_translation(sel.from@, out.from)
    &&& out.projection@.len() == sel.projection@.len()
    &&& forall|i: int| 0 <= i < out.projection@.len()
        ==> projection_item_column(from_aliases(sel.from@[0]), #[trigger] sel.projection@[i], out.projection@[i])
    &&& opt_expr_translation(from_aliases(sel.from@[0]), sel.selection, out.predicate)
    &&& opt_expr_translation(from_aliases(sel.from@[0]), sel.having, out.having)
    &&& out.aggregates@.len() == 0 && out.group_by@.len() == 0 && out.order_by@.len() == 0
    &&& out.limit is None && out.offset is None
}

pub fn translate_query(query: &SqlQuery) -> (r: Result<Statement, TranslateError>)
    ensures
        match r {
            Ok(st) => query_error(*query) is None && select_translation(*query, st),
            Err(e) => query_error(*query) matches Some(m) && custom_is(e, m),
        },
{
    if query.has_with {
        return Err(TranslateError::custom("CTEs not yet supported"));
    }
    let select = match &query.body {
        SqlSetExpr::Select(select) => select,
        _ => return Err(TranslateError::custom("Only plain SELECT queries supported")),
    };
    let (from, aliases) = translate_from(&select.from)?;
    let projection = translate_projection(&aliases, &select.projection)?;
    let predicate = translate_opt_expr(&aliases, &select.selection)?;
    let having = translate_opt_expr(&aliases, &select.having)?;
    Ok(Statement::Query(Query::Select(QuerySelect {
        from,
        projection,
        predicate,
        aggregates: Vec::new(),
        group_by: Vec::new(),
        order_by: Vec::new(),
        limit: None,
        offset: None,
        having,
    })))
}

// ---------------------------------------------------------------------------
// INSERT

/// The expression translates to a literal value.
pub open spec fn translates_to_literal(e: SqlExpr) -> bool
    decreases e,
{
    match e {
        SqlExpr::Value(_) => true,
        SqlExpr::CastUuid(_) => true,
        SqlExpr::Nested(inner) => translates_to_literal(*inner),
        _ => false,
    }
}

/// The column name that the expression translates to a reference of.
pub open spec fn column_of(e: SqlExpr) -> Option<Seq<char>>
    decreases e,
{
    match e {
        SqlExpr::Identifier(i) => Some(i@),
        SqlExpr::CompoundIdentifier { parts, debug, parts_debug } => if parts@.len() == 2 {
            Some(parts@[1]@)
        } else {
            None
        },
        SqlExpr::Nested(inner) => column_of(*inner),
        _ => None,
    }
}

proof fn lemma_expr_shape(aliases: Aliases, e: SqlExpr, q: QueryExpr)
    requires
        expr_error(aliases, e) is None,
        expr_translation(aliases, e, q),
    ensures
        (q matches QueryExpr::Value(QueryExprValue::Value(_))) <==> translates_to_literal(e),
        q matches QueryExpr::Value(QueryExprValue::Column(c)) ==> column_of(e) == Some(c.column@),
        column_of(e) is Some ==> q matches QueryExpr::Value(QueryExprValue::Column(_)),
    decreases e,
{
    if let SqlExpr::Nested(inner) = e {
        lemma_expr_shape(aliases, *inner, q);
    }
}

pub open spec fn default_text() -> Seq<char> {
    "DEFAULT"@
}

pub open spec fn insert_value_error(e: SqlExpr) -> Option<Seq<char>> {
    if expr_error(Seq::empty(), e) is Some {
        expr_error(Seq::empty(), e)
    } else if translates_to_literal(e) || column_of(e) == Some(default_text()) {
        None
    } else {
        Some("Unsupported expression in VALUES"@)
    }
}

pub open spec fn insert_value_step() -> spec_fn(SqlExpr) -> Option<Seq<char>> {
    |e: SqlExpr| insert_value_error(e)
}

pub open spec fn insert_value_translation(e: SqlExpr, v: QueryInsertValue) -> bool {
    match v {
        QueryInsertValue::Value(x) => translates_to_literal(e)
            && expr_translation(Seq::empty(), e, QueryExpr::Value(QueryExprValue::Value(x))),
        QueryInsertValue::Default => !translates_to_literal(e) && column_of(e) == Some(default_text()),
    }
}

/// The error that reading the VALUES rows of an INSERT gives, if any.
pub open spec fn values_error(source: Option<SqlQuery>) -> Option<Seq<char>> {
    match source {
        Some(q) => match q.body {
            SqlSetExpr::Values(rows) => if rows@.len() == 0 {
                Some("INSERT with no VALUES"@)
            } else {
                first_error(rows@[0]@, insert_value_step())
            },
            _ => None,
        },
        None => None,
    }
}

/// The values read from the first VALUES row (no values without a VALUES body).
pub open spec fn values_translation(source: Option<SqlQuery>, out: Seq<QueryInsertValue>) -> bool {
    match source {
        Some(q) => match q.body {
            SqlSetExpr::Values(rows) => rows@.len() > 0 && out.len() == rows@[0]@.len()
                && forall|i: int| 0 <= i < out.len() ==> insert_value_translation(#[trigger] rows@[0]@[i], out[i]),
            _ => out.len() == 0,
        },
        None => out.len() == 0,
    }
}

fn translate_insert_values(source: &Option<SqlQuery>) -> (r: Result<Vec<QueryInsertValue>, TranslateError>)
    ensures
        match r {
            Ok(v) => values_error(*source) is None && values_translation(*source, v@),
            Err(e) => values_error(*source) matches Some(m) && custom_is(e, m),
        },
{
    let query = match source {
        Some(q) => q,
        None => return Ok(Vec::new()),
    };
    let rows = match &query.body {
        SqlSetExpr::Values(rows) => rows,
        _ => return Ok(Vec::new()),
    };
    if rows.len() == 0 {
        return Err(TranslateError::custom("INSERT with no VALUES"));
    }
    let content = &rows[0];
    let empty = no_aliases();
    let ghost f = insert_value_step();
    let mut out: Vec<QueryInsertValue> = Vec::new();
    let mut i: usize = 0;
    while i < content.len()
        invariant
            i <= content@.len(),
            f == insert_value_step(),
            *source matches Some(q) && (q.body matches SqlSetExpr::Values(rs) && rs@.len() > 0 && rs@[0] == *content),
            alias_view(empty@) == Seq::<(Seq<char>, Seq<char>)>::empty(),
            out@.len() == i,
            first_error(content@.take(i as int), f) is None,
            forall|j: int| 0 <= j < i ==> insert_value_translation(#[trigger] content@[j], out@[j]),
        decreases content.len() - i,
    {
        proof { lemma_first_error_step(content@, f, i as int); }
        let ghost e = content@[i as int];
        assert(f(e) == insert_value_error(e));
        let t = match translate_expr(&empty, &content[i]) {
            Ok(t) => t,
            Err(err) => {
                proof { lemma_first_error_at(content@, f, i as int); }
                return Err(err);
            },
        };
        proof { lemma_expr_shape(Seq::empty(), e, t); }
        let v = match t {
            QueryExpr::Value(QueryExprValue::Value(value)) => QueryInsertValue::Value(value),
            QueryExpr::Value(QueryExprValue::Column(column)) => {
                if str_eq(column.column.as_str(), "DEFAULT") {
                    QueryInsertValue::Default
                } else {
                    proof { lemma_first_error_at(content@, f, i as int); }
                    return Err(TranslateError::custom("Unsupported expression in VALUES"));
                }
            },
            _ => {
                proof { lemma_first_error_at(content@, f, i as int); }
                return Err(TranslateError::custom("Unsupported expression in VALUES"));
            },
        };
        out.push(v);
        i = i + 1;
    }
    assert(content@.take(i as int) == content@);
    Ok(out)
}

pub open spec fn returning_item_result(item: SqlSelectItem) -> Result<Seq<char>, Seq<char>> {
    match item {
        SqlSelectItem::UnnamedExpr { expr, debug } => match expr {
            SqlExpr::Identifier(i) => Ok(i@),
            SqlExpr::CompoundIdentifier { parts, debug: d, parts_debug } => if parts@.len() == 1 {
                Ok(parts@[0]@)
            } else {
                Err("Unsupported RETURNING identifier: "@ + parts_debug@)
            },
            _ => Err("Unsupported RETURNING expression: "@ + debug@),
        },
        SqlSelectItem::Wildcard => Ok("*"@),
        _ => Err("Unsupported RETURNING item"@),
    }
}

pub open spec fn returning_step() -> spec_fn(SqlSelectItem) -> Option<Seq<char>> {
    |it: SqlSelectItem| match returning_item_result(it) {
        Ok(_) => None,
        Err(m) => Some(m),
    }
}

fn translate_returning_item(item: &SqlSelectItem) -> (r: Result<String, TranslateError>)
    ensures
        string_result_is(r, returning_item_result(*item)),
{
    match item {
        SqlSelectItem::UnnamedExpr { expr, debug } => match expr {
            SqlExpr::Identifier(ident) => Ok(ident.clone()),
            SqlExpr::CompoundIdentifier { parts, debug: _, parts_debug } => {
                if parts.len() == 1 {
                    Ok(parts[0].clone())
                } else {
                    Err(TranslateError::Custom(concat("Unsupported RETURNING identifier: ", parts_debug.as_str())))
                }
            },
            _ => Err(TranslateError::Custom(concat("Unsupported RETURNING expression: ", debug.as_str()))),
        },
        SqlSelectItem::Wildcard => Ok(String::from_str("*")),
        _ => Err(TranslateError::custom("Unsupported RETURNING item")),
    }
}

/// Translates a list of items, each to a string, stopping at the first error.
pub open spec fn strings_translation(items: Seq<SqlSelectItem>, out: Seq<String>) -> bool {
    out.len() == items.len() && forall|i: int| 0 <= i < out.len()
        ==> returning_item_result(#[trigger] items[i]) == Ok::<Seq<char>, Seq<char>>(out[i]@)
}

fn translate_returning(items: &Vec<SqlSelectItem>) -> (r: Result<Vec<String>, TranslateError>)
    ensures
        match r {
            Ok(v) => first_error(items@, returning_step()) is None && strings_translation(items@, v@),
            Err(e) => first_error(items@, returning_step()) matches Some(m) && custom_is(e, m),
        },
{
    let ghost f = returning_step();
    let mut out: Vec<String> = Vec::new();
    let mut i: usize = 0;
    while i < items.len()
        invariant
            i <= items@.len(),
            f == returning_step(),
            out@.len() == i,
            first_error(items@.take(i as int), f) is None,
            forall|j: int| 0 <= j < i ==> returning_item_result(#[trigger] items@[j]) == Ok::<Seq<char>, Seq<char>>(out@[j]@),
        decreases items.len() - i,
    {
        proof { lemma_first_error_step(items@, f, i as int); }
        let s = match translate_returning_item(&items[i]) {
            Ok(s) => s,
            Err(e) => {
                proof { lemma_first_error_at(items@, f, i as int); }
                return Err(e);
            },
        };
        out.push(s);
        i = i + 1;
    }
    assert(items@.take(i as int) == items@);
    Ok(out)
}

pub open spec fn name_step() -> spec_fn(SqlObjectName) -> Option<Seq<char>> {
    |n: SqlObjectName| match object_name_result(n) {
        Ok(_) => None,
        Err(m) => Some(m),
    }
}

fn translate_names(names: &Vec<SqlObjectName>) -> (r: Result<Vec<String>, TranslateError>)
    ensures
        match r {
            Ok(v) => first_error(names@, name_step()) is None && v@.len() == names@.len()
                && forall|i: int| 0 <= i < v@.len() ==> object_name_result(#[trigger] names@[i]) == Ok::<Seq<char>, Seq<char>>(v@[i]@),
            Err(e) => first_error(names@, name_step()) matches Some(m) && custom_is(e, m),
        },
{
    let ghost f = name_step();
    let mut out: Vec<String> = Vec::new();
    let mut i: usize = 0;
    while i < names.len()
        invariant
            i <= names@.len(),
            f == name_step(),
            out@.len() == i,
            first_error(names@.take(i as int), f) is None,
            forall|j: int| 0 <= j < i ==> object_name_result(#[trigger] names@[j]) == Ok::<Seq<char>, Seq<char>>(out@[j]@),
        decreases names.len() - i,
    {
        proof { lemma_first_error_step(names@, f, i as int); }
        let s = match object_name_to_string(&names[i]) {
            Ok(s) => s,
            Err(e) => {
                proof { lemma_first_error_at(names@, f, i as int); }
                return Err(e);
            },
        };
        out.push(s);
        i = i + 1;
    }
    assert(names@.take(i as int) == names@);
    Ok(out)
}

pub open spec fn opt_returning_error(o: Option<Vec<SqlSelectItem>>) -> Option<Seq<char>> {
    match o {
        Some(items) => first_error(items@, returning_step()),
        None => None,
    }
}

pub open spec fn insert_error(ins: SqlInsert) -> Option<Seq<char>> {
    if table_object_result(ins.table) is Err {
        Some(table_object_result(ins.table)->Err_0)
    } else if first_error(ins.columns@, name_step()) is Some {
        first_error(ins.columns@, name_step())
    } else if values_error(ins.source) is Some {
        values_error(ins.source)
    } else {
        opt_returning_error(ins.returning)
    }
}

pub open spec fn insert_translation(ins: SqlInsert, st: Statement) -> bool {
    &&& st matches Statement::Query(Query::InsertValues(out))
    &&& table_object_result(ins.table) == Ok::<Seq<char>, Seq<char>>(out.table@)
    &&& out.columns@.len() == ins.columns@.len()
    &&& forall|i: int| 0 <= i < out.columns@.len()
        ==> object_name_result(#[trigger] ins.columns@[i]) == Ok::<Seq<char>, Seq<char>>(out.columns@[i]@)
    &&& values_translation(ins.source, out.values@)
    &&& match (ins.returning, out.returning) {
        (Some(items), Some(names)) => strings_translation(items@, names@),
        (None, None) => true,
        _ => false,
    }
}

pub fn translate_insert(insert: &SqlInsert) -> (r: Result<Statement, TranslateError>)
    ensures
        match r {
            Ok(st) => insert_error(*insert) is None && insert_translation(*insert, st),
            Err(e) => insert_error(*insert) matches Some(m) && custom_is(e, m),
        },
{
    let table = table_name_to_string(&insert.table)?;
    let columns = translate_names(&insert.columns)?;
    let values = translate_insert_values(&insert.source)?;
    let returning = match &insert.returning {
        Some(items) => Some(translate_returning(items)?),
        None => None,
    };
    Ok(Statement::Query(Query::InsertValues(QueryInsertValues { table, columns, values, returning })))
}

// ---------------------------------------------------------------------------
// UPDATE and DELETE

pub open spec fn update_table_result(u: SqlUpdate) -> Result<Seq<char>, Seq<char>> {
    match u.table {
        SqlTableFactor::Table { name, alias } => object_name_result(name),
        SqlTableFactor::Other => Err("Only simple table references supported in UPDATE"@),
    }
}

pub open spec fn update_error(u: SqlUpdate) -> Option<Seq<char>> {
    match update_table_result(u) {
        Err(m) => Some(m),
        Ok(_) => opt_expr_error(Seq::empty(), u.selection),
    }
}

pub open spec fn update_translation(u: SqlUpdate, st: Statement) -> bool {
    &&& st matches Statement::Query(Query::Update(out))
    &&& update_table_result(u) == Ok::<Seq<char>, Seq<char>>(out.from.table@)
    &&& out.from.joins@.len() == 0
    &&& out.assignments@.len() == 0
    &&& opt_expr_translation(Seq::empty(), u.selection, out.predicate)
    &&& out.returning is None
}

pub fn translate_update(update: &SqlUpdate) -> (r: Result<Statement, TranslateError>)
    ensures
        match r {
            Ok(st) => update_error(*update) is None && update_translation(*update, st),
            Err(e) => update_error(*update) matches Some(m) && custom_is(e, m),
        },
{
    let table = match &update.table {
        SqlTableFactor::Table { name, alias: _ } => object_name_to_string(name)?,
        SqlTableFactor::Other => {
            return Err(TranslateError::custom("Only simple table references supported in UPDATE"));
        },
    };
    let empty = no_aliases();
    let predicate = translate_opt_expr(&empty, &update.selection)?;
    Ok(Statement::Query(Query::Update(QueryUpdate {
        from: QueryFrom { table, joins: Vec::new() },
        assignments: Vec::new(),
        predicate,
        returning: None,
    })))
}

pub open spec fn delete_error(d: SqlDelete) -> Option<Seq<char>> {
    if d.tables@.len() == 0 {
        Some("No tables in DELETE"@)
    } else if d.tables@.len() > 1 {
        Some("Multiple tables in DELETE not supported"@)
    } else if object_name_result(d.tables@[0]) is Err {
        Some(object_name_result(d.tables@[0])->Err_0)
    } else {
        opt_expr_error(Seq::empty(), d.selection)
    }
}

pub open spec fn delete_translation(d: SqlDelete, st: Statement) -> bool {
    &&& st matches Statement::Query(Query::Delete(out))
    &&& d.tables@.len() == 1
    &&& object_name_result(d.tables@[0]) == Ok::<Seq<char>, Seq<char>>(out.from.table@)
    &&& out.from.joins@.len() == 0
    &&& opt_expr_translation(Seq::empty(), d.selection, out.predicate)
    &&& out.returning is None
}

pub fn translate_delete(delete: &SqlDelete) -> (r: Result<Statement, TranslateError>)
    ensures
        match r {
            Ok(st) => delete_error(*delete) is None && delete_translation(*delete, st),
            Err(e) => delete_error(*delete) matches Some(m) && custom_is(e, m),
        },
{
    if delete.tables.len() == 0 {
        return Err(TranslateError::custom("No tables in DELETE"));
    }
    if delete.tables.len() > 1 {
        return Err(TranslateError::custom("Multiple tables in DELETE not supported"));
    }
    let table = object_name_to_string(&delete.tables[0])?;
    let empty = no_aliases();
    let predicate = translate_opt_expr(&empty, &delete.selection)?;
    Ok(Statement::Query(Query::Delete(QueryDelete {
        from: QueryFrom { table, joins: Vec::new() },
        predicate,
        returning: None,
    })))
}

// ---------------------------------------------------------------------------
// Column definitions

pub open spec fn data_type_result(t: SqlDataType) -> Result<ValueType, Seq<char>> {
    match t {
        SqlDataType::Char | SqlDataType::Varchar | SqlDataType::Text => Ok(ValueType::Text),
        SqlDataType::Int | SqlDataType::Integer | SqlDataType::BigInt => Ok(ValueType::Integer),
        SqlDataType::Float | SqlDataType::Double => Ok(ValueType::Float),
        SqlDataType::Boolean => Ok(ValueType::Bool),
        SqlDataType::Blob => Ok(ValueType::Blob),
        SqlDataType::Uuid => Ok(ValueType::Uuid),
        SqlDataType::Json | SqlDataType::Jsonb => Ok(ValueType::Json),
        SqlDataType::Other(d) => Err("Unsupported column data type: "@ + d@),
    }
}

pub fn translate_column_data_type(data_type: &SqlDataType) -> (r: Result<ValueType, TranslateError>)
    ensures
        match r {
            Ok(t) => data_type_result(*data_type) == Ok::<ValueType, Seq<char>>(t),
            Err(e) => data_type_result(*data_type) matches Err(m) && custom_is(e, m),
        },
{
    match data_type {
        SqlDataType::Char | SqlDataType::Varchar | SqlDataType::Text => Ok(ValueType::Text),
        SqlDataType::Int | SqlDataType::Integer | SqlDataType::BigInt => Ok(ValueType::Integer),
        SqlDataType::Float | SqlDataType::Double => Ok(ValueType::Float),
        SqlDataType::Boolean => Ok(ValueType::Bool),
        SqlDataType::Blob => Ok(ValueType::Blob),
        SqlDataType::Uuid => Ok(ValueType::Uuid),
        SqlDataType::Json | SqlDataType::Jsonb => Ok(ValueType::Json),
        SqlDataType::Other(d) => Err(TranslateError::Custom(concat("Unsupported column data type: ", d.as_str()))),
    }
}

/// The expression of the first DEFAULT option, if any.
pub open spec fn first_default(options: Seq<SqlColumnOption>) -> Option<SqlExpr>
    decreases options.len(),
{
    if options.len() == 0 {
        None
    } else {
        match options[0] {
            SqlColumnOption::Default(e) => Some(e),
            _ => first_default(options.drop_first()),
        }
    }
}

pub open spec fn has_primary_key(options: Seq<SqlColumnOption>) -> bool {
    exists|i: int| 0 <= i < options.len() && options[i] is PrimaryKey
}

pub open spec fn has_unique(options: Seq<SqlColumnOption>) -> bool {
    exists|i: int| 0 <= i < options.len() && options[i] is Unique
}

pub open spec fn default_error(options: Seq<SqlColumnOption>) -> Option<Seq<char>> {
    match first_default(options) {
        None => None,
        Some(e) => if expr_error(Seq::empty(), e) is Some {
            expr_error(Seq::empty(), e)
        } else if translates_to_literal(e) {
            None
        } else {
            Some("Column default must be a literal value"@)
        },
    }
}

pub open spec fn column_error(c: SqlColumnDef) -> Option<Seq<char>> {
    if default_error(c.options@) is Some {
        default_error(c.options@)
    } else {
        match data_type_result(c.data_type) {
            Ok(_) => None,
            Err(m) => Some(m),
        }
    }
}

pub open spec fn column_step() -> spec_fn(SqlColumnDef) -> Option<Seq<char>> {
    |c: SqlColumnDef| column_error(c)
}

pub open spec fn column_translation(c: SqlColumnDef, out: ColumnSchema) -> bool {
    &&& out.name@ == c.name@
    &&& data_type_result(c.data_type) == Ok::<ValueType, Seq<char>>(out.value_type)
    &&& match first_default(c.options@) {
        None => out.default is Null,
        Some(e) => expr_translation(Seq::empty(), e, QueryExpr::Value(QueryExprValue::Value(out.default))),
    }
    &&& out.primary_key == has_primary_key(c.options@)
}

fn find_default(options: &Vec<SqlColumnOption>) -> (r: Option<&SqlExpr>)
    ensures
        match r {
            Some(e) => first_default(options@) == Some(*e),
            None => first_default(options@) is None,
        },
{
    let mut i: usize = 0;
    assert(options@.skip(0) == options@);
    while i < options.len()
        invariant
            i <= options@.len(),
            first_default(options@) == first_default(options@.skip(i as int)),
        decreases options.len() - i,
    {
        assert(options@.skip(i as int).drop_first() == options@.skip(i + 1));
        if let SqlColumnOption::Default(e) = &options[i] {
            return Some(e);
        }
        i = i + 1;
    }
    None
}

fn any_primary_key(options: &Vec<SqlColumnOption>) -> (r: bool)
    ensures
        r == has_primary_key(options@),
{
    let mut i: usize = 0;
    while i < options.len()
        invariant
            i <= options@.len(),
            forall|j: int| 0 <= j < i ==> !(options@[j] is PrimaryKey),
        decreases options.len() - i,
    {
        if let SqlColumnOption::PrimaryKey = &options[i] {
            return true;
        }
        i = i + 1;
    }
    false
}

fn any_unique(options: &Vec<SqlColumnOption>) -> (r: bool)
    ensures
        r == has_unique(options@),
{
    let mut i: usize = 0;
    while i < options.len()
        invariant
            i <= options@.len(),
            forall|j: int| 0 <= j < i ==> !(options@[j] is Unique),
        decreases options.len() - i,
    {
        if let SqlColumnOption::Unique(_) = &options[i] {
            return true;
        }
        i = i + 1;
    }
    false
}

pub fn translate_column_schema(column: &SqlColumnDef) -> (r: Result<ColumnSchema, TranslateError>)
    ensures
        match r {
            Ok(c) => column_error(*column) is None && column_translation(*column, c),
            Err(e) => column_error(*column) matches Some(m) && custom_is(e, m),
        },
{
    let default = match find_default(&column.options) {
        None => Value::Null,
        Some(expr) => {
            let empty = no_aliases();
            let t = translate_expr(&empty, expr)?;
            proof { lemma_expr_shape(Seq::empty(), *expr, t); }
            match t {
                QueryExpr::Value(QueryExprValue::Value(value)) => value,
                _ => return Err(TranslateError::custom("Column default must be a literal value")),
            }
        },
    };
    let value_type = translate_column_data_type(&column.data_type)?;
    Ok(ColumnSchema {
        name: column.name.clone(),
        value_type,
        default,
        primary_key: any_primary_key(&column.options),
    })
}

// ---------------------------------------------------------------------------
// Index names and columns

/// Name given to an unnamed unique index: `{table}_unique_{ordinal}_{columns joined by _}`.
pub open spec fn unique_index_name_spec(table: Seq<char>, columns: Seq<Seq<char>>, ordinal: nat) -> Seq<char> {
    table + "_unique_"@ + decimal(ordinal) + "_"@ + join_spec(columns, "_"@)
}

pub fn unique_index_name(table: &str, columns: &Vec<String>, ordinal: usize) -> (r: String)
    ensures
        r@ == unique_index_name_spec(table@, string_views(columns@), ordinal as nat),
{
    let mut r = concat(table, "_unique_");
    r.append(decimal_string(ordinal as u64).as_str());
    r.append("_");
    r.append(join(columns, "_").as_str());
    r
}

/// The name of a bare identifier column without extra options.
pub open spec fn bare_column(c: SqlIndexColumn) -> Option<Seq<char>> {
    if !c.has_operator_class && !c.has_asc && !c.has_nulls_first && !c.has_with_fill {
        match c.expr {
            SqlExpr::Identifier(i) => Some(i@),
            _ => None,
        }
    } else {
        None
    }
}

pub open spec fn bare_step(message: Seq<char>) -> spec_fn(SqlIndexColumn) -> Option<Seq<char>> {
    |c: SqlIndexColumn| if bare_column(c) is Some { None } else { Some(message) }
}

/// Reads index columns that must all be bare identifiers.
fn bare_columns(columns: &Vec<SqlIndexColumn>, message: &str) -> (r: Result<Vec<String>, TranslateError>)
    ensures
        match r {
            Ok(v) => first_error(columns@, bare_step(message@)) is None && v@.len() == columns@.len()
                && forall|i: int| 0 <= i < v@.len() ==> bare_column(#[trigger] columns@[i]) == Some(v@[i]@),
            Err(e) => first_error(columns@, bare_step(message@)) matches Some(m) && custom_is(e, m),
        },
{
    let ghost f = bare_step(message@);
    let mut out: Vec<String> = Vec::new();
    let mut i: usize = 0;
    while i < columns.len()
        invariant
            i <= columns@.len(),
            f == bare_step(message@),
            out@.len() == i,
            first_error(columns@.take(i as int), f) is None,
            forall|j: int| 0 <= j < i ==> bare_column(#[trigger] columns@[j]) == Some(out@[j]@),
        decreases columns.len() - i,
    {
        proof { lemma_first_error_step(columns@, f, i as int); }
        let c = &columns[i];
        let name = if !c.has_operator_class && !c.has_asc && !c.has_nulls_first && !c.has_with_fill {
            match &c.expr {
                SqlExpr::Identifier(identifier) => Some(identifier.clone()),
                _ => None,
            }
        } else {
            None
        };
        match name {
            Some(n) => out.push(n),
            None => {
                proof { lemma_first_error_at(columns@, f, i as int); }
                return Err(TranslateError::custom(message));
            },
        }
        i = i + 1;
    }
    assert(columns@.take(i as int) == columns@);
    Ok(out)
}

pub fn unique_columns(columns: &Vec<SqlIndexColumn>) -> (r: Result<Vec<String>, TranslateError>)
    ensures
        match r {
            Ok(v) => first_error(columns@, bare_step(unique_bare_text())) is None && v@.len() == columns@.len()
                && forall|i: int| 0 <= i < v@.len() ==> bare_column(#[trigger] columns@[i]) == Some(v@[i]@),
            Err(e) => first_error(columns@, bare_step(unique_bare_text())) matches Some(m) && custom_is(e, m),
        },
{
    bare_columns(columns, "UNIQUE constraints only support bare identifier columns")
}

pub open spec fn unique_bare_text() -> Seq<char> {
    "UNIQUE constraints only support bare identifier columns"@
}

// ---------------------------------------------------------------------------
// CREATE TABLE

/// An index as text: (name, table name, column positions, unique).
pub type IndexView = (Seq<char>, Seq<char>, Seq<u32>, bool);

pub open spec fn index_view(ix: IndexSchema) -> IndexView {
    (ix.name@, ix.table_name@, ix.column_indices@, ix.unique)
}

pub open spec fn unique_names_name(u: SqlUniqueNames) -> Option<Seq<char>> {
    match u.name {
        Some(n) => Some(n@),
        None => opt_view(u.index_name),
    }
}

/// The name given by the first UNIQUE option that names its index.
pub open spec fn first_unique_name(options: Seq<SqlColumnOption>) -> Option<Seq<char>>
    decreases options.len(),
{
    if options.len() == 0 {
        None
    } else {
        match options[0] {
            SqlColumnOption::Unique(u) => if unique_names_name(u) is Some {
                unique_names_name(u)
            } else {
                first_unique_name(options.drop_first())
            },
            _ => first_unique_name(options.drop_first()),
        }
    }
}

/// Unique indexes declared on single columns, in column order.
pub open spec fn column_indexes(table: Seq<char>, columns: Seq<SqlColumnDef>) -> Seq<IndexView>
    decreases columns.len(),
{
    if columns.len() == 0 {
        Seq::empty()
    } else {
        let ordinal = (columns.len() - 1) as nat;
        let c = columns.last();
        let prev = column_indexes(table, columns.drop_last());
        if has_unique(c.options@) {
            let name = match first_unique_name(c.options@) {
                Some(n) => n,
                None => unique_index_name_spec(table, seq![c.name@], ordinal),
            };
            prev.push((name, table, seq![ordinal as u32], true))
        } else {
            prev
        }
    }
}

/// The first position of `name` among `names`.
pub open spec fn position_of(names: Seq<Seq<char>>, name: Seq<char>) -> Option<nat>
    decreases names.len(),
{
    if names.len() == 0 {
        None
    } else if names[0] == name {
        Some(0)
    } else {
        match position_of(names.drop_first(), name) {
            Some(p) => Some(p + 1),
            None => None,
        }
    }
}

pub open spec fn column_names(columns: Seq<SqlColumnDef>) -> Seq<Seq<char>> {
    columns.map_values(|c: SqlColumnDef| c.name@)
}

pub open spec fn bare_names(columns: Seq<SqlIndexColumn>) -> Seq<Seq<char>> {
    columns.map_values(|c: SqlIndexColumn| bare_column(c)->Some_0)
}

pub open spec fn table_constraint_error(names: Seq<Seq<char>>, c: SqlTableConstraint) -> Option<Seq<char>> {
    match c {
        SqlTableConstraint::Unique { names: _, columns } => if first_error(columns@, bare_step(unique_bare_text())) is Some {
            first_error(columns@, bare_step(unique_bare_text()))
        } else if exists|i: int| 0 <= i < columns@.len() && position_of(names, bare_column(#[trigger] columns@[i])->Some_0) is None {
            Some("UNIQUE column not found"@)
        } else {
            None
        },
        SqlTableConstraint::Other => None,
    }
}

pub open spec fn constraint_step(names: Seq<Seq<char>>) -> spec_fn(SqlTableConstraint) -> Option<Seq<char>> {
    |c: SqlTableConstraint| table_constraint_error(names, c)
}

/// Unique indexes declared as table constraints, in constraint order.
pub open spec fn constraint_indexes(table: Seq<char>, names: Seq<Seq<char>>, cons: Seq<SqlTableConstraint>) -> Seq<IndexView>
    decreases cons.len(),
{
    if cons.len() == 0 {
        Seq::empty()
    } else {
        let ordinal = (cons.len() - 1) as nat;
        let prev = constraint_indexes(table, names, cons.drop_last());
        match cons.last() {
            SqlTableConstraint::Unique { names: u, columns } => {
                let cols = bare_names(columns@);
                let name = match unique_names_name(u) {
                    Some(n) => n,
                    None => unique_index_name_spec(table, cols, ordinal),
                };
                let positions = cols.map_values(|n: Seq<char>| position_of(names, n)->Some_0 as u32);
                prev.push((name, table, positions, true))
            },
            SqlTableConstraint::Other => prev,
        }
    }
}

pub open spec fn create_table_error(ct: SqlCreateTable) -> Option<Seq<char>> {
    if object_name_result(ct.name) is Err {
        Some(object_name_result(ct.name)->Err_0)
    } else if first_error(ct.columns@, column_step()) is Some {
        first_error(ct.columns@, column_step())
    } else {
        first_error(ct.constraints@, constraint_step(column_names(ct.columns@)))
    }
}

pub open spec fn create_table_translation(ct: SqlCreateTable, st: Statement) -> bool {
    let table = object_name_result(ct.name)->Ok_0;
    let indexes = column_indexes(table, ct.columns@)
        + constraint_indexes(table, column_names(ct.columns@), ct.constraints@);
    let schema_ok = |schema: TableSchema| {
        &&& schema.name@ == table
        &&& schema.columns@.len() == ct.columns@.len()
        &&& forall|i: int| 0 <= i < schema.columns@.len() ==> column_translation(#[trigger] ct.columns@[i], schema.columns@[i])
    };
    match st {
        Statement::DataDefinition(DataDefinition::CreateTable { schema, if_not_exists }) =>
            indexes.len() == 0 && schema_ok(schema) && if_not_exists == ct.if_not_exists,
        Statement::DataDefinition(DataDefinition::CreateTableWithIndexes { schema, indexes: ix, if_not_exists }) =>
            indexes.len() > 0 && schema_ok(schema) && if_not_exists == ct.if_not_exists
                && ix@.map_values(|x: IndexSchema| index_view(x)) == indexes,
        _ => false,
    }
}

/// The first position of `name` among the names of `columns`.
fn find_column(columns: &Vec<ColumnSchema>, name: &String) -> (r: Option<usize>)
    ensures
        match r {
            Some(p) => position_of(columns@.map_values(|c: ColumnSchema| c.name@), name@) == Some(p as nat),
            None => position_of(columns@.map_values(|c: ColumnSchema| c.name@), name@) is None,
        },
{
    let ghost names = columns@.map_values(|c: ColumnSchema| c.name@);
    let mut i: usize = 0;
    while i < columns.len()
        invariant
            i <= columns@.len(),
            names == columns@.map_values(|c: ColumnSchema| c.name@),
            forall|j: int| 0 <= j < i ==> names[j] != name@,
        decreases columns.len() - i,
    {
        if str_eq(columns[i].name.as_str(), name.as_str()) {
            proof { lemma_position_found(names, name@, i as int); }
            return Some(i);
        }
        i = i + 1;
    }
    proof { lemma_position_missing(names, name@); }
    None
}

proof fn lemma_position_found(names: Seq<Seq<char>>, name: Seq<char>, i: int)
    requires
        0 <= i < names.len(),
        names[i] == name,
        forall|j: int| 0 <= j < i ==> names[j] != name,
    ensures
        position_of(names, name) == Some(i as nat),
    decreases i,
{
    if i > 0 {
        lemma_position_found(names.drop_first(), name, i - 1);
    }
}

proof fn lemma_position_missing(names: Seq<Seq<char>>, name: Seq<char>)
    requires
        forall|j: int| 0 <= j < names.len() ==> names[j] != name,
    ensures
        position_of(names, name) is None,
    decreases names.len(),
{
    if names.len() > 0 {
        lemma_position_missing(names.drop_first(), name);
    }
}

fn first_unique_option_name(options: &Vec<SqlColumnOption>) -> (r: Option<String>)
    ensures
        opt_view(r) == first_unique_name(options@),
{
    let mut i: usize = 0;
    assert(options@.skip(0) == options@);
    while i < options.len()
        invariant
            i <= options@.len(),
            first_unique_name(options@) == first_unique_name(options@.skip(i as int)),
        decreases options.len() - i,
    {
        assert(options@.skip(i as int).drop_first() == options@.skip(i + 1));
        if let SqlColumnOption::Unique(u) = &options[i] {
            match &u.name {
                Some(n) => return Some(n.clone()),
                None => match &u.index_name {
                    Some(n) => return Some(n.clone()),
                    None => {},
                },
            }
        }
        i = i + 1;
    }
    None
}

pub fn translate_create_table(create_table: &SqlCreateTable) -> (r: Result<Statement, TranslateError>)
    ensures
        match r {
            Ok(st) => create_table_error(*create_table) is None && create_table_translation(*create_table, st),
            Err(e) => create_table_error(*create_table) matches Some(m) && custom_is(e, m),
        },
{
    let table_name = object_name_to_string(&create_table.name)?;
    let cols = &create_table.columns;
    let ghost cf = column_step();
    let mut columns: Vec<ColumnSchema> = Vec::new();
    let mut i: usize = 0;
    while i < cols.len()
        invariant
            i <= cols@.len(),
            cf == column_step(),
            cols == &create_table.columns,
            object_name_result(create_table.name) == Ok::<Seq<char>, Seq<char>>(table_name@),
            columns@.len() == i,
            first_error(cols@.take(i as int), cf) is None,
            forall|j: int| 0 <= j < i ==> column_translation(#[trigger] cols@[j], columns@[j]),
        decreases cols.len() - i,
    {
        proof { lemma_first_error_step(cols@, cf, i as int); }
        let c = match translate_column_schema(&cols[i]) {
            Ok(c) => c,
            Err(e) => {
                proof { lemma_first_error_at(cols@, cf, i as int); }
                return Err(e);
            },
        };
        columns.push(c);
        i = i + 1;
    }
    assert(cols@.take(i as int) == cols@);
    let ghost table = table_name@;
    let ghost names = column_names(cols@);
    assert(columns@.map_values(|c: ColumnSchema| c.name@) =~= names);
    let mut indexes: Vec<IndexSchema> = Vec::new();
    let mut k: usize = 0;
    assert(indexes@.map_values(|x: IndexSchema| index_view(x)) =~= column_indexes(table, cols@.take(0)));
    while k < cols.len()
        invariant
            k <= cols@.len(),
            table == table_name@,
            indexes@.map_values(|x: IndexSchema| index_view(x)) == column_indexes(table, cols@.take(k as int)),
        decreases cols.len() - k,
    {
        let ghost prev = indexes@;
        assert(cols@.take(k + 1).drop_last() == cols@.take(k as int));
        assert(cols@.take(k + 1).last() == cols@[k as int]);
        if any_unique(&cols[k].options) {
            let mut single: Vec<String> = Vec::new();
            single.push(cols[k].name.clone());
            assert(string_views(single@) =~= seq![cols@[k as int].name@]);
            let name = match first_unique_option_name(&cols[k].options) {
                Some(n) => n,
                None => unique_index_name(table_name.as_str(), &single, k),
            };
            let mut positions: Vec<u32> = Vec::new();
            positions.push(k as u32);
            indexes.push(IndexSchema {
                name,
                table_name: table_name.clone(),
                column_indices: positions,
                unique: true,
            });
            assert(indexes@.map_values(|x: IndexSchema| index_view(x)) =~= prev.map_values(|x: IndexSchema| index_view(x)).push(index_view(indexes@.last())));
        }
        k = k + 1;
    }
    assert(cols@.take(k as int) == cols@);
    let ghost col_part = indexes@.map_values(|x: IndexSchema| index_view(x));
    let cons = &create_table.constraints;
    let ghost tf = constraint_step(names);
    let mut c: usize = 0;
    assert(cons@.take(0) =~= Seq::<SqlTableConstraint>::empty());
    while c < cons.len()
        invariant
            c <= cons@.len(),
            tf == constraint_step(names),
            cols == &create_table.columns,
            cons == &create_table.constraints,
            object_name_result(create_table.name) == Ok::<Seq<char>, Seq<char>>(table_name@),
            first_error(cols@, column_step()) is None,
            names == column_names(cols@),
            columns@.map_values(|x: ColumnSchema| x.name@) == names,
            table == table_name@,
            first_error(cons@.take(c as int), tf) is None,
            indexes@.map_values(|x: IndexSchema| index_view(x))
                == col_part + constraint_indexes(table, names, cons@.take(c as int)),
        decreases cons.len() - c,
    {
        proof { lemma_first_error_step(cons@, tf, c as int); }
        assert(cons@.take(c + 1).drop_last() == cons@.take(c as int));
        assert(cons@.take(c + 1).last() == cons@[c as int]);
        let ghost prev = indexes@;
        if let SqlTableConstraint::Unique { names: u, columns: ucols } = &cons[c] {
            let ghost constraint = cons@[c as int];
            assert(tf(constraint) == table_constraint_error(names, constraint));
            let col_names = match unique_columns(ucols) {
                Ok(v) => v,
                Err(e) => {
                    proof { lemma_first_error_at(cons@, tf, c as int); }
                    return Err(e);
                },
            };
            assert(string_views(col_names@) =~= bare_names(ucols@));
            let name = match &u.name {
                Some(n) => n.clone(),
                None => match &u.index_name {
                    Some(n) => n.clone(),
                    None => unique_index_name(table_name.as_str(), &col_names, c),
                },
            };
            let mut positions: Vec<u32> = Vec::new();
            let mut p: usize = 0;
            while p < col_names.len()
                invariant
                    p <= col_names@.len(),
                    c < cons@.len(),
                    tf == constraint_step(names),
                    first_error(cons@.take(c as int), tf) is None,
                    cons@[c as int] == constraint,
                    constraint matches SqlTableConstraint::Unique { names: _, columns: cc } && cc == *ucols,
                    first_error(ucols@, bare_step(unique_bare_text())) is None,
                    cols == &create_table.columns,
                    cons == &create_table.constraints,
                    object_name_result(create_table.name) == Ok::<Seq<char>, Seq<char>>(table_name@),
                    first_error(cols@, column_step()) is None,
                    names == column_names(cols@),
                    col_names@.len() == ucols@.len(),
                    forall|j: int| 0 <= j < col_names@.len() ==> bare_column(#[trigger] ucols@[j]) == Some(col_names@[j]@),
                    columns@.map_values(|x: ColumnSchema| x.name@) == names,
                    positions@.len() == p,
                    forall|j: int| 0 <= j < p ==> #[trigger] positions@[j] == (position_of(names, bare_column(ucols@[j])->Some_0)->Some_0 as u32),
                    forall|j: int| 0 <= j < p ==> position_of(names, bare_column(#[trigger] ucols@[j])->Some_0) is Some,
                decreases col_names.len() - p,
            {
                match find_column(&columns, &col_names[p]) {
                    Some(pos) => {
                        positions.push(pos as u32);
                    },
                    None => {
                        proof {
                            assert(position_of(names, bare_column(ucols@[p as int])->Some_0) is None);
                            assert(tf(constraint) == table_constraint_error(names, constraint));
                            lemma_first_error_at(cons@, tf, c as int);
                        }
                        return Err(TranslateError::custom("UNIQUE column not found"));
                    },
                }
                p = p + 1;
            }
            proof {
                assert(table_constraint_error(names, constraint) is None);
                assert(positions@ =~= bare_names(ucols@).map_values(|n: Seq<char>| position_of(names, n)->Some_0 as u32));
            }
            indexes.push(IndexSchema {
                name,
                table_name: table_name.clone(),
                column_indices: positions,
                unique: true,
            });
            assert(indexes@.map_values(|x: IndexSchema| index_view(x)) =~= prev.map_values(|x: IndexSchema| index_view(x)).push(index_view(indexes@.last())));
        }
        c = c + 1;
    }
    assert(cons@.take(c as int) == cons@);
    let schema = TableSchema { name: table_name, columns };
    if indexes.len() == 0 {
        Ok(Statement::DataDefinition(DataDefinition::CreateTable {
            schema,
            if_not_exists: create_table.if_not_exists,
        }))
    } else {
        Ok(Statement::DataDefinition(DataDefinition::CreateTableWithIndexes {
            schema,
            indexes,
            if_not_exists: create_table.if_not_exists,
        }))
    }
}

// ---------------------------------------------------------------------------
// DROP, ALTER TABLE, CREATE INDEX, ALTER INDEX

pub open spec fn drop_error(object_type: SqlObjectType, names: Seq<SqlObjectName>) -> Option<Seq<char>> {
    if names.len() == 0 {
        Some("No object names in DROP"@)
    } else if object_name_result(names[0]) is Err {
        Some(object_name_result(names[0])->Err_0)
    } else {
        match object_type {
            SqlObjectType::Table => Some("DROP TABLE is not supported"@),
            SqlObjectType::Index => None,
            SqlObjectType::Other(d) => Some("DROP "@ + d@ + " not supported"@),
        }
    }
}

pub open spec fn drop_translation(if_exists: bool, names: Seq<SqlObjectName>, st: Statement) -> bool {
    st matches Statement::DataDefinition(DataDefinition::DropIndex { index_name, if_exists: ie })
        && object_name_result(names[0]) == Ok::<Seq<char>, Seq<char>>(index_name@) && ie == if_exists
}

pub fn translate_drop(object_type: &SqlObjectType, if_exists: bool, names: &Vec<SqlObjectName>) -> (r: Result<Statement, TranslateError>)
    ensures
        match r {
            Ok(st) => drop_error(*object_type, names@) is None && drop_translation(if_exists, names@, st),
            Err(e) => drop_error(*object_type, names@) matches Some(m) && custom_is(e, m),
        },
{
    if names.len() == 0 {
        return Err(TranslateError::custom("No object names in DROP"));
    }
    let name = object_name_to_string(&names[0])?;
    match object_type {
        SqlObjectType::Table => Err(TranslateError::custom("DROP TABLE is not supported")),
        SqlObjectType::Index => Ok(Statement::DataDefinition(DataDefinition::DropIndex { index_name: name, if_exists })),
        SqlObjectType::Other(d) => {
            let mut m = concat("DROP ", d.as_str());
            m.append(" not supported");
            Err(TranslateError::Custom(m))
        },
    }
}

pub open spec fn alter_operation_error(op: SqlAlterTableOperation) -> Option<Seq<char>> {
    match op {
        SqlAlterTableOperation::AddColumn(c) => column_error(c),
        SqlAlterTableOperation::Other => Some("Only ALTER TABLE ADD COLUMN is supported"@),
    }
}

pub open spec fn alter_step() -> spec_fn(SqlAlterTableOperation) -> Option<Seq<char>> {
    |op: SqlAlterTableOperation| alter_operation_error(op)
}

pub open spec fn alter_table_error(a: SqlAlterTable) -> Option<Seq<char>> {
    if object_name_result(a.name) is Err {
        Some(object_name_result(a.name)->Err_0)
    } else {
        first_error(a.operations@, alter_step())
    }
}

pub open spec fn alter_operation_translation(op: SqlAlterTableOperation, out: AlterTableOperation) -> bool {
    op matches SqlAlterTableOperation::AddColumn(c) && (out matches AlterTableOperation::AddColumn(col)
        && column_translation(c, col))
}

pub open spec fn alter_table_translation(a: SqlAlterTable, st: Statement) -> bool {
    st matches Statement::DataDefinition(DataDefinition::AlterTable { table_name, operations, if_exists })
        && object_name_result(a.name) == Ok::<Seq<char>, Seq<char>>(table_name@)
        && if_exists == a.if_exists && operations@.len() == a.operations@.len()
        && forall|i: int| 0 <= i < operations@.len()
            ==> alter_operation_translation(#[trigger] a.operations@[i], operations@[i])
}

pub fn translate_alter_table(alter_table: &SqlAlterTable) -> (r: Result<Statement, TranslateError>)
    ensures
        match r {
            Ok(st) => alter_table_error(*alter_table) is None && alter_table_translation(*alter_table, st),
            Err(e) => alter_table_error(*alter_table) matches Some(m) && custom_is(e, m),
        },
{
    let table_name = object_name_to_string(&alter_table.name)?;
    let ops = &alter_table.operations;
    let ghost f = alter_step();
    let mut operations: Vec<AlterTableOperation> = Vec::new();
    let mut i: usize = 0;
    while i < ops.len()
        invariant
            i <= ops@.len(),
            f == alter_step(),
            ops == &alter_table.operations,
            object_name_result(alter_table.name) == Ok::<Seq<char>, Seq<char>>(table_name@),
            operations@.len() == i,
            first_error(ops@.take(i as int), f) is None,
            forall|j: int| 0 <= j < i ==> alter_operation_translation(#[trigger] ops@[j], operations@[j]),
        decreases ops.len() - i,
    {
        proof { lemma_first_error_step(ops@, f, i as int); }
        assert(f(ops@[i as int]) == alter_operation_error(ops@[i as int]));
        let op = match &ops[i] {
            SqlAlterTableOperation::AddColumn(column_def) => match translate_column_schema(column_def) {
                Ok(c) => AlterTableOperation::AddColumn(c),
                Err(e) => {
                    proof { lemma_first_error_at(ops@, f, i as int); }
                    return Err(e);
                },
            },
            SqlAlterTableOperation::Other => {
                proof { lemma_first_error_at(ops@, f, i as int); }
                return Err(TranslateError::custom("Only ALTER TABLE ADD COLUMN is supported"));
            },
        };
        operations.push(op);
        i = i + 1;
    }
    assert(ops@.take(i as int) == ops@);
    Ok(Statement::DataDefinition(DataDefinition::AlterTable {
        table_name,
        operations,
        if_exists: alter_table.if_exists,
    }))
}

pub open spec fn index_bare_text() -> Seq<char> {
    "CREATE INDEX only supports bare identifier columns"@
}

pub open spec fn create_index_error(ci: SqlCreateIndex) -> Option<Seq<char>> {
    match ci.name {
        None => Some("CREATE INDEX requires an index name"@),
        Some(n) => if object_name_result(n) is Err {
            Some(object_name_result(n)->Err_0)
        } else if object_name_result(ci.table_name) is Err {
            Some(object_name_result(ci.table_name)->Err_0)
        } else {
            first_error(ci.columns@, bare_step(index_bare_text()))
        },
    }
}

pub open spec fn create_index_translation(ci: SqlCreateIndex, st: Statement) -> bool {
    st matches Statement::DataDefinition(
        DataDefinition::CreateIndexUnresolved { index_name, table_name, column_names, unique, if_not_exists },
    ) && object_name_result(ci.name->Some_0) == Ok::<Seq<char>, Seq<char>>(index_name@)
        && object_name_result(ci.table_name) == Ok::<Seq<char>, Seq<char>>(table_name@)
        && column_names@.len() == ci.columns@.len()
        && (forall|i: int| 0 <= i < column_names@.len()
            ==> bare_column(#[trigger] ci.columns@[i]) == Some(column_names@[i]@))
        && unique == ci.unique && if_not_exists == ci.if_not_exists
}

pub fn translate_create_index(create_index: &SqlCreateIndex) -> (r: Result<Statement, TranslateError>)
    ensures
        match r {
            Ok(st) => create_index_error(*create_index) is None && create_index_translation(*create_index, st),
            Err(e) => create_index_error(*create_index) matches Some(m) && custom_is(e, m),
        },
{
    let index_name = match &create_index.name {
        Some(n) => object_name_to_string(n)?,
        None => return Err(TranslateError::custom("CREATE INDEX requires an index name")),
    };
    let table_name = object_name_to_string(&create_index.table_name)?;
    let column_names = bare_columns(&create_index.columns, "CREATE INDEX only supports bare identifier columns")?;
    Ok(Statement::DataDefinition(DataDefinition::CreateIndexUnresolved {
        index_name,
        table_name,
        column_names,
        unique: create_index.unique,
        if_not_exists: create_index.if_not_exists,
    }))
}

pub open spec fn alter_index_error(name: SqlObjectName, new_name: SqlObjectName) -> Option<Seq<char>> {
    if object_name_result(name) is Err {
        Some(object_name_result(name)->Err_0)
    } else if object_name_result(new_name) is Err {
        Some(object_name_result(new_name)->Err_0)
    } else {
        None
    }
}

pub open spec fn alter_index_translation(name: SqlObjectName, new_name: SqlObjectName, st: Statement) -> bool {
    st matches Statement::DataDefinition(
        DataDefinition::AlterIndex { index_name, operation: AlterIndexOperation::Rename { new_name: renamed }, if_exists },
    ) && object_name_result(name) == Ok::<Seq<char>, Seq<char>>(index_name@)
        && object_name_result(new_name) == Ok::<Seq<char>, Seq<char>>(renamed@) && !if_exists
}

pub fn translate_alter_index(name: &SqlObjectName, new_name: &SqlObjectName) -> (r: Result<Statement, TranslateError>)
    ensures
        match r {
            Ok(st) => alter_index_error(*name, *new_name) is None && alter_index_translation(*name, *new_name, st),
            Err(e) => alter_index_error(*name, *new_name) matches Some(m) && custom_is(e, m),
        },
{
    let index_name = object_name_to_string(name)?;
    let renamed = object_name_to_string(new_name)?;
    Ok(Statement::DataDefinition(DataDefinition::AlterIndex {
        index_name,
        operation: AlterIndexOperation::Rename { new_name: renamed },
        if_exists: false,
    }))
}

// ---------------------------------------------------------------------------
// Statements

/// The error that translating a statement gives, if any.
pub open spec fn statement_error(st: SqlStatement) -> Option<Seq<char>> {
    match st {
        SqlStatement::Query(q) => query_error(q),
        SqlStatement::Insert(i) => insert_error(i),
        SqlStatement::Update(u) => update_error(u),
        SqlStatement::Delete(d) => delete_error(d),
        SqlStatement::CreateTable(ct) => create_table_error(ct),
        SqlStatement::Drop { object_type, if_exists, names } => drop_error(object_type, names@),
        SqlStatement::AlterTable(a) => alter_table_error(a),
        SqlStatement::CreateIndex(ci) => create_index_error(ci),
        SqlStatement::AlterIndex { name, new_name } => alter_index_error(name, new_name),
        SqlStatement::Other(d) => Some("Unsupported SQL statement: "@ + d@),
    }
}

/// `out` is what a statement translates to, for the kinds whose result is
/// stated here; the translation of each kind is stated by its own function.
pub open spec fn statement_translation(st: SqlStatement, out: Statement) -> bool {
    match st {
        SqlStatement::Query(q) => select_translation(q, out),
        SqlStatement::Insert(i) => insert_translation(i, out),
        SqlStatement::Update(u) => update_translation(u, out),
        SqlStatement::Delete(d) => delete_translation(d, out),
        SqlStatement::CreateTable(ct) => create_table_translation(ct, out),
        SqlStatement::Drop { object_type, if_exists, names } => drop_translation(if_exists, names@, out),
        SqlStatement::AlterTable(a) => alter_table_translation(a, out),
        SqlStatement::CreateIndex(ci) => create_index_translation(ci, out),
        SqlStatement::AlterIndex { name, new_name } => alter_index_translation(name, new_name, out),
        SqlStatement::Other(_) => false,
    }
}

pub fn translate_stmt(stmt: &SqlStatement) -> (r: Result<Statement, TranslateError>)
    ensures
        match r {
            Ok(out) => statement_error(*stmt) is None && statement_translation(*stmt, out),
            Err(e) => statement_error(*stmt) matches Some(m) && custom_is(e, m),
        },
{
    match stmt {
        SqlStatement::Query(query) => translate_query(query),
        SqlStatement::Insert(insert) => translate_insert(insert),
        SqlStatement::Update(update) => translate_update(update),
        SqlStatement::Delete(delete) => translate_delete(delete),
        SqlStatement::CreateTable(create_table) => translate_create_table(create_table),
        SqlStatement::Drop { object_type, if_exists, names } => translate_drop(object_type, *if_exists, names),
        SqlStatement::AlterTable(alter_table) => translate_alter_table(alter_table),
        SqlStatement::CreateIndex(create_index) => translate_create_index(create_index),
        SqlStatement::AlterIndex { name, new_name } => translate_alter_index(name, new_name),
        SqlStatement::Other(d) => Err(TranslateError::Custom(concat("Unsupported SQL statement: ", d.as_str()))),
    }
}

pub open spec fn statement_step() -> spec_fn(SqlStatement) -> Option<Seq<char>> {
    |st: SqlStatement| statement_error(st)
}

/// What translating a list of parsed statements gives: every statement
/// translated, in order, or the error of the first that fails.
pub open spec fn statements_outcome(stmts: Seq<SqlStatement>, r: Result<Vec<Statement>, TranslateError>) -> bool {
    match r {
        Ok(out) => first_error(stmts, statement_step()) is None && out@.len() == stmts.len()
            && forall|i: int| 0 <= i < out@.len() ==> statement_translation(#[trigger] stmts[i], out@[i]),
        Err(e) => first_error(stmts, statement_step()) matches Some(m) && custom_is(e, m),
    }
}

// ---------------------------------------------------------------------------
// The sqlparser crate

#[verifier::external_type_specification]
#[verifier::external_body]
pub struct ExParsedStatement(ParsedStatement);

/// The message of the error that sqlparser's PostgreSQL dialect reports on
/// `sql`, or nothing where the text parses.
pub uninterp spec fn sql_parse_error(sql: Seq<char>) -> Option<Seq<char>>;

/// The statements, in order, that sqlparser's PostgreSQL dialect reads from
/// `sql` where it parses.
pub uninterp spec fn sql_parsed(sql: Seq<char>) -> Seq<ParsedStatement>;

/// Parses SQL text with sqlparser (`Parser::parse_sql` with the PostgreSQL
/// dialect): the statements, or the parser's error message. Both are named;
/// the statements themselves are opaque here.
#[verifier::external_body]
fn parse_sql(sql: &str) -> (r: Result<Vec<ParsedStatement>, String>)
    ensures
        match r {
            Ok(v) => sql_parse_error(sql@) is None && v@ == sql_parsed(sql@),
            Err(m) => sql_parse_error(sql@) == Some(m@),
        },
{
    Parser::parse_sql(&PostgreSqlDialect {}, sql).map_err(|e| e.to_string())
}

/// Translates SQL into statements; parameters are accepted but placeholders
/// are not substituted.
#[derive(Clone, Copy, Debug)]
pub struct SqlTranslator;

impl SqlTranslator {
    /// Translates each parsed statement in order, stopping at the first error.
    pub fn translate_statements(&self, stmts: &Vec<SqlStatement>, params: Option<&QueryParams>) -> (r: Result<Vec<Statement>, TranslateError>)
        ensures
            statements_outcome(stmts@, r),
    {
        let ghost f = statement_step();
        let mut results: Vec<Statement> = Vec::new();
        let mut i: usize = 0;
        while i < stmts.len()
            invariant
                i <= stmts@.len(),
                f == statement_step(),
                results@.len() == i,
                first_error(stmts@.take(i as int), f) is None,
                forall|j: int| 0 <= j < i ==> statement_translation(#[trigger] stmts@[j], results@[j]),
            decreases stmts.len() - i,
        {
            proof { lemma_first_error_step(stmts@, f, i as int); }
            assert(f(stmts@[i as int]) == statement_error(stmts@[i as int]));
            let st = match translate_stmt(&stmts[i]) {
                Ok(st) => st,
                Err(e) => {
                    proof { lemma_first_error_at(stmts@, f, i as int); }
                    return Err(e);
                },
            };
            results.push(st);
            i = i + 1;
        }
        assert(stmts@.take(i as int) == stmts@);
        Ok(results)
    }
    /// Parses SQL text and translates every statement in it; `lower` reads a
    /// parsed statement into the tree the translator works on. A parse error
    /// is reported with the parser's message.
    pub fn translate_with_params<F>(&self, query: &str, params: Option<&QueryParams>, lower: F) -> (r: Result<Vec<Statement>, TranslateError>)
        where
            F: Fn(&ParsedStatement) -> SqlStatement,
        requires
            forall|s: &ParsedStatement| lower.requires((s,)),
        ensures
            sql_parse_error(query@) matches Some(m) ==> (r matches Err(e) && custom_is(e, m)),
            sql_parse_error(query@) is None ==> exists|lowered: Seq<SqlStatement>| {
                &&& lowered.len() == sql_parsed(query@).len()
                &&& forall|i: int| 0 <= i < lowered.len() ==> lower.ensures((&sql_parsed(query@)[i],), #[trigger] lowered[i])
                &&& statements_outcome(lowered, r)
            },
    {
        let parsed = match parse_sql(query) {
            Ok(v) => v,
            Err(m) => {
                return Err(TranslateError::Custom(m));
            },
        };
        let mut lowered: Vec<SqlStatement> = Vec::new();
        let mut i: usize = 0;
        while i < parsed.len()
            invariant
                i <= parsed@.len(),
                lowered@.len() == i,
                forall|s: &ParsedStatement| lower.requires((s,)),
                forall|k: int| 0 <= k < i ==> lower.ensures((&parsed@[k],), #[trigger] lowered@[k]),
            decreases parsed.len() - i,
        {
            let s = lower(&parsed[i]);
            lowered.push(s);
            i = i + 1;
        }
        let r = self.translate_statements(&lowered, params);
        proof {
            assert(parsed@ == sql_parsed(query@));
            assert(forall|k: int| 0 <= k < lowered@.len() ==> lower.ensures((&sql_parsed(query@)[k],), #[trigger] lowered@[k]));
            assert(statements_outcome(lowered@, r));
        }
        r
    }
}

/// A translated join has the kind its SQL operator names: `INNER JOIN` an
/// inner join, `LEFT JOIN` a left join, `RIGHT JOIN` a right join and
/// `FULL OUTER JOIN` a full join.
pub proof fn law_join_kind_follows_operator(aliases: Aliases, j: SqlJoin, q: QueryJoin)
    requires
        join_translation(aliases, j, q),
    ensures
        j.operator is Inner <==> q.kind == QueryJoinKind::Inner,
        j.operator is Left <==> q.kind == QueryJoinKind::Left,
        j.operator is Right <==> q.kind == QueryJoinKind::Right,
        j.operator is FullOuter <==> q.kind == QueryJoinKind::Full,
{
}

/// Column types translate by family: the integer types (`INT`, `INTEGER`,
/// `BIGINT`) to integers, the floating types (`FLOAT`, `DOUBLE`) to floats,
/// the character types (`CHAR`, `VARCHAR`, `TEXT`) to text, `BOOLEAN` to
/// booleans, `BLOB` to bytes, `UUID` to UUIDs and `JSON`/`JSONB` to
/// documents; any other type is refused.
pub proof fn law_column_types_by_family(t: SqlDataType)
    ensures
        (t is Int || t is Integer || t is BigInt) <==> data_type_result(t) == Ok::<ValueType, Seq<char>>(ValueType::Integer),
        (t is Float || t is Double) <==> data_type_result(t) == Ok::<ValueType, Seq<char>>(ValueType::Float),
        (t is Char || t is Varchar || t is Text) <==> data_type_result(t) == Ok::<ValueType, Seq<char>>(ValueType::Text),
        t is Boolean <==> data_type_result(t) == Ok::<ValueType, Seq<char>>(ValueType::Bool),
        t is Blob <==> data_type_result(t) == Ok::<ValueType, Seq<char>>(ValueType::Blob),
        t is Uuid <==> data_type_result(t) == Ok::<ValueType, Seq<char>>(ValueType::Uuid),
        (t is Json || t is Jsonb) <==> data_type_result(t) == Ok::<ValueType, Seq<char>>(ValueType::Json),
        t is Other <==> data_type_result(t) is Err,
{
}

/// Whether a comparison in the query layer accepts a row whose left side
/// orders against its right side as `c` (negative below, zero level,
/// positive above).
pub open spec fn query_comparison_accepts(q: QueryExpr, c: int) -> bool {
    match q {
        QueryExpr::Equals(_, _) => c == 0,
        QueryExpr::NotEquals(_, _) => c != 0,
        QueryExpr::LessThan(_, _) => c < 0,
        QueryExpr::LessThanOrEquals(_, _) => c <= 0,
        QueryExpr::GreaterThan(_, _) => c > 0,
        QueryExpr::GreaterThanOrEquals(_, _) => c >= 0,
        _ => false,
    }
}

/// A translated comparison keeps its meaning: it accepts exactly the rows
/// whose sides stand as the SQL operator says (`=`, `<>`, `<`, `<=`, `>`,
/// `>=`), and `AND` and `OR` stay `AND` and `OR`.
pub proof fn law_sql_comparisons_keep_meaning(aliases: Aliases, left: SqlExpr, op: SqlBinaryOperator, right: SqlExpr, q: QueryExpr, c: int)
    requires
        expr_translation(aliases, SqlExpr::BinaryOp { left: Box::new(left), op, right: Box::new(right) }, q),
    ensures
        op is Eq ==> (query_comparison_accepts(q, c) <==> c == 0),
        op is NotEq ==> (query_comparison_accepts(q, c) <==> c != 0),
        op is Lt ==> (query_comparison_accepts(q, c) <==> c < 0),
        op is LtEq ==> (query_comparison_accepts(q, c) <==> c <= 0),
        op is Gt ==> (query_comparison_accepts(q, c) <==> c > 0),
        op is GtEq ==> (query_comparison_accepts(q, c) <==> c >= 0),
        op is And <==> q is And,
        op is Or <==> q is Or,
{
}

} // verus!
