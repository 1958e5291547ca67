//! `WHERE` conditions for the storage engine. Column references, literals
//! and subqueries are read by functions that the caller supplies; this module
//! decides the shape of the predicate built from them.
use vstd::prelude::*;

use crate::engine_ddl::feature_is;
use crate::engine_joins::QualifiedColumn;
use crate::engine_types::EngineValue;
use crate::placeholders::TranslateError;
use crate::sql_ast::SqlBinaryOperator;
use crate::text::concat;

verus! {

/// The arguments of a function call: one plain expression, one argument of
/// another form, or any other list.
#[derive(Debug)]
pub enum FunctionArgs {
    Single(Box<PredicateExpr>),
    SingleNotSimple,
    Other,
}

#[derive(Debug, Clone, Copy, PartialEq, Eq, Structural)]
pub enum ArithmeticOperator {
    Plus,
    Minus,
    Multiply,
    Divide,
}

/// The part of a parsed SQL expression that a condition reads. `Value` is a
/// literal or placeholder, kept as the parser's text.
#[derive(Debug)]
pub enum PredicateExpr {
    Identifier(String),
    CompoundIdentifier(Vec<String>),
    Value(String),
    Cast(Box<PredicateExpr>),
    Function { name: String, args: FunctionArgs },
    BinaryOp { left: Box<PredicateExpr>, op: SqlBinaryOperator, right: Box<PredicateExpr> },
    /// `+`, `-`, `*` or `/` of two expressions.
    Arithmetic { left: Box<PredicateExpr>, op: ArithmeticOperator, right: Box<PredicateExpr> },
    /// A unary operator; `not` tells whether it is `NOT`.
    UnaryOp { not: bool, expr: Box<PredicateExpr> },
    InList { expr: Box<PredicateExpr>, list: Vec<PredicateExpr>, negated: bool },
    /// `expr IN (subquery)`, with the subquery as SQL text.
    InSubquery { expr: Box<PredicateExpr>, subquery: String, negated: bool },
    IsNull(Box<PredicateExpr>),
    IsNotNull(Box<PredicateExpr>),
    Like { expr: Box<PredicateExpr>, pattern: Box<PredicateExpr>, negated: bool },
    ILike { expr: Box<PredicateExpr>, pattern: Box<PredicateExpr>, negated: bool },
    Other,
}

/// What column references are read against: the aliases, as `(alias,
/// table)` pairs, and the known tables, by their positions in the catalog.
#[derive(Debug)]
pub struct Scope {
    pub aliases: Vec<(String, String)>,
    pub known: Vec<usize>,
}

#[derive(Debug)]
pub enum QualifiedOperand {
    Column(QualifiedColumn),
    Value(EngineValue),
    Lower(Box<QualifiedOperand>),
}

/// A condition on rows; `Q` is the query of a subquery.
#[derive(Debug)]
pub enum QualifiedPredicate<Q> {
    Equals(QualifiedOperand, QualifiedOperand),
    NotEquals(QualifiedOperand, QualifiedOperand),
    LessThan(QualifiedOperand, QualifiedOperand),
    LessThanOrEquals(QualifiedOperand, QualifiedOperand),
    GreaterThan(QualifiedOperand, QualifiedOperand),
    GreaterThanOrEquals(QualifiedOperand, QualifiedOperand),
    And(Box<QualifiedPredicate<Q>>, Box<QualifiedPredicate<Q>>),
    Or(Box<QualifiedPredicate<Q>>, Box<QualifiedPredicate<Q>>),
    Not(Box<QualifiedPredicate<Q>>),
    InList { expr: QualifiedColumn, list: Vec<EngineValue>, negated: bool },
    InSubquery { expr: QualifiedColumn, subquery: Box<Q>, negated: bool },
    IsNull(QualifiedColumn),
    IsNotNull(QualifiedColumn),
    Like { expr: QualifiedOperand, pattern: QualifiedOperand, negated: bool },
}

// ---------------------------------------------------------------------------
// Lower-casing names

/// The lower-case form of a text, as `str::to_lowercase` gives it.
pub uninterp spec fn lowercase(s: Seq<char>) -> Seq<char>;

/// Lower-cases a text (`str::to_lowercase`).
#[verifier::external_body]
pub(crate) fn to_lowercase(s: &str) -> (r: String)
    ensures
        r@ == lowercase(s@),
{
    s.to_lowercase()
}

// ---------------------------------------------------------------------------
// Operands

/// `r` is what the caller's column reader gives for `e`, as an operand.
pub open spec fn column_operand_ok<C>(column: C, scope: Scope, e: PredicateExpr, r: Result<QualifiedOperand, TranslateError>) -> bool
    where C: Fn(&PredicateExpr, &Scope) -> Result<QualifiedColumn, TranslateError>,
{
    match r {
        Ok(QualifiedOperand::Column(qc)) => column.ensures((&e, &scope), Ok::<QualifiedColumn, TranslateError>(qc)),
        Ok(_) => false,
        Err(x) => column.ensures((&e, &scope), Err::<QualifiedColumn, TranslateError>(x)),
    }
}

/// `r` is what the caller's literal reader gives for `e`, as an operand.
pub open spec fn value_operand_ok<V>(value: V, e: PredicateExpr, r: Result<QualifiedOperand, TranslateError>) -> bool
    where V: Fn(&PredicateExpr) -> Result<EngineValue, TranslateError>,
{
    match r {
        Ok(QualifiedOperand::Value(v)) => value.ensures((&e,), Ok::<EngineValue, TranslateError>(v)),
        Ok(_) => false,
        Err(x) => value.ensures((&e,), Err::<EngineValue, TranslateError>(x)),
    }
}

pub open spec fn is_column_ref(e: PredicateExpr) -> bool {
    e is Identifier || e is CompoundIdentifier
}

/// What an operand of a comparison gives: a column, a literal, a column
/// through a cast (other casts are literals), or `lower(operand)`.
pub open spec fn operand_ok<C, V>(column: C, scope: Scope, value: V, e: PredicateExpr, r: Result<QualifiedOperand, TranslateError>) -> bool
    where
        C: Fn(&PredicateExpr, &Scope) -> Result<QualifiedColumn, TranslateError>,
        V: Fn(&PredicateExpr) -> Result<EngineValue, TranslateError>,
    decreases e,
{
    match e {
        PredicateExpr::Identifier(_) | PredicateExpr::CompoundIdentifier(_) => column_operand_ok(column, scope, e, r),
        PredicateExpr::Value(_) => value_operand_ok(value, e, r),
        PredicateExpr::Cast(inner) => if is_column_ref(*inner) {
            column_operand_ok(column, scope, *inner, r)
        } else {
            value_operand_ok(value, e, r)
        },
        PredicateExpr::Function { name, args } => if lowercase(name@) != "lower"@ {
            r matches Err(x) && feature_is(x, "unsupported function in operand: "@ + lowercase(name@))
        } else {
            match args {
                FunctionArgs::Single(inner) => match r {
                    Ok(QualifiedOperand::Lower(b)) => operand_ok(column, scope, value, *inner, Ok(*b)),
                    Ok(_) => false,
                    Err(x) => operand_ok(column, scope, value, *inner, Err(x)),
                },
                FunctionArgs::SingleNotSimple => r matches Err(x) && feature_is(x, "function argument must be a simple expression"@),
                FunctionArgs::Other => r matches Err(x) && feature_is(x, "function must have exactly one argument"@),
            }
        },
        _ => r matches Err(x) && feature_is(x, "unsupported operand in comparison"@),
    }
}

fn column_operand<C>(e: &PredicateExpr, column: &C, scope: &Scope) -> (r: Result<QualifiedOperand, TranslateError>)
    where C: Fn(&PredicateExpr, &Scope) -> Result<QualifiedColumn, TranslateError>,
    requires
        forall|x: &PredicateExpr, y: &Scope| column.requires((x, y)),
    ensures
        column_operand_ok(*column, *scope, *e, r),
{
    match column(e, scope) {
        Ok(qc) => Ok(QualifiedOperand::Column(qc)),
        Err(x) => Err(x),
    }
}

fn value_operand<V>(e: &PredicateExpr, value: &V) -> (r: Result<QualifiedOperand, TranslateError>)
    where V: Fn(&PredicateExpr) -> Result<EngineValue, TranslateError>,
    requires
        forall|x: &PredicateExpr| value.requires((x,)),
    ensures
        value_operand_ok(*value, *e, r),
{
    match value(e) {
        Ok(v) => Ok(QualifiedOperand::Value(v)),
        Err(x) => Err(x),
    }
}

/// Reads an operand of a comparison.
pub fn resolve_operand<C, V>(e: &PredicateExpr, column: &C, scope: &Scope, value: &V) -> (r: Result<QualifiedOperand, TranslateError>)
    where
        C: Fn(&PredicateExpr, &Scope) -> Result<QualifiedColumn, TranslateError>,
        V: Fn(&PredicateExpr) -> Result<EngineValue, TranslateError>,
    requires
        forall|x: &PredicateExpr, y: &Scope| column.requires((x, y)),
        forall|x: &PredicateExpr| value.requires((x,)),
    ensures
        operand_ok(*column, *scope, *value, *e, r),
        r is Ok ==> operand_succeeds(*column, *scope, *value, *e),
    decreases e,
{
    match e {
        PredicateExpr::Identifier(_) | PredicateExpr::CompoundIdentifier(_) => column_operand(e, column, scope),
        PredicateExpr::Value(_) => value_operand(e, value),
        PredicateExpr::Cast(inner) => {
            match &**inner {
                PredicateExpr::Identifier(_) | PredicateExpr::CompoundIdentifier(_) => column_operand(&**inner, column, scope),
                _ => value_operand(e, value),
            }
        },
        PredicateExpr::Function { name, args } => {
            let lowered = to_lowercase(name.as_str());
            if !crate::text::str_eq(lowered.as_str(), "lower") {
                return Err(TranslateError::UnsupportedFeature(concat("unsupported function in operand: ", lowered.as_str())));
            }
            match args {
                FunctionArgs::Single(inner) => {
                    let operand = resolve_operand(&**inner, column, scope, value)?;
                    Ok(QualifiedOperand::Lower(Box::new(operand)))
                },
                FunctionArgs::SingleNotSimple => Err(TranslateError::UnsupportedFeature(
                    String::from_str("function argument must be a simple expression"),
                )),
                FunctionArgs::Other => Err(TranslateError::UnsupportedFeature(
                    String::from_str("function must have exactly one argument"),
                )),
            }
        },
        _ => Err(TranslateError::UnsupportedFeature(String::from_str("unsupported operand in comparison"))),
    }
}

// ---------------------------------------------------------------------------
// Conditions

/// The comparison an operator builds, for the six comparison operators.
pub open spec fn comparison<Q>(op: SqlBinaryOperator, a: QualifiedOperand, b: QualifiedOperand) -> Option<QualifiedPredicate<Q>> {
    match op {
        SqlBinaryOperator::Eq => Some(QualifiedPredicate::Equals(a, b)),
        SqlBinaryOperator::NotEq => Some(QualifiedPredicate::NotEquals(a, b)),
        SqlBinaryOperator::Lt => Some(QualifiedPredicate::LessThan(a, b)),
        SqlBinaryOperator::LtEq => Some(QualifiedPredicate::LessThanOrEquals(a, b)),
        SqlBinaryOperator::Gt => Some(QualifiedPredicate::GreaterThan(a, b)),
        SqlBinaryOperator::GtEq => Some(QualifiedPredicate::GreaterThanOrEquals(a, b)),
        _ => None,
    }
}

/// The literal reader gives a value for this item of an `IN (..)` list.
pub open spec fn item_succeeds<V>(value: V, item: PredicateExpr) -> bool
    where V: Fn(&PredicateExpr) -> Result<EngineValue, TranslateError>,
{
    (item is Value || item is Cast) && exists|v: EngineValue| #[trigger] value.ensures((&item,), Ok::<EngineValue, TranslateError>(v))
}

/// What an item of an `IN (..)` list gives: the literal reader's value for
/// a literal or a cast, an error for anything else.
pub open spec fn item_value_ok<V>(value: V, item: PredicateExpr, r: Result<EngineValue, TranslateError>) -> bool
    where V: Fn(&PredicateExpr) -> Result<EngineValue, TranslateError>,
{
    if item is Value || item is Cast {
        value.ensures((&item,), r)
    } else {
        r matches Err(x) && feature_is(x, "IN list only supports literal values in v1"@)
    }
}

/// Every item of an `IN (..)` list gives a value.
pub open spec fn list_succeeds<V>(value: V, list: Seq<PredicateExpr>) -> bool
    where V: Fn(&PredicateExpr) -> Result<EngineValue, TranslateError>,
    decreases list.len(),
{
    list.len() == 0 || (list_succeeds(value, list.drop_last()) && item_succeeds(value, list.last()))
}

/// What the items of an `IN (..)` list give, read in order up to the first error.
pub open spec fn list_values_ok<V>(value: V, list: Seq<PredicateExpr>, r: Result<Seq<EngineValue>, TranslateError>) -> bool
    where V: Fn(&PredicateExpr) -> Result<EngineValue, TranslateError>,
    decreases list.len(),
{
    if list.len() == 0 {
        r == Ok::<Seq<EngineValue>, TranslateError>(Seq::empty())
    } else {
        let init = list.drop_last();
        match r {
            Ok(vs) => vs.len() == list.len()
                && list_values_ok(value, init, Ok(vs.drop_last()))
                && item_value_ok(value, list.last(), Ok(vs.last())),
            Err(x) => list_values_ok(value, init, Err(x))
                || (list_succeeds(value, init) && item_value_ok(value, list.last(), Err(x))),
        }
    }
}

/// Reading operand `e` can succeed.
pub open spec fn operand_succeeds<C, V>(column: C, scope: Scope, value: V, e: PredicateExpr) -> bool
    where
        C: Fn(&PredicateExpr, &Scope) -> Result<QualifiedColumn, TranslateError>,
        V: Fn(&PredicateExpr) -> Result<EngineValue, TranslateError>,
    decreases e,
{
    match e {
        PredicateExpr::Identifier(_) | PredicateExpr::CompoundIdentifier(_) =>
            exists|qc: QualifiedColumn| #[trigger] column.ensures((&e, &scope), Ok::<QualifiedColumn, TranslateError>(qc)),
        PredicateExpr::Value(_) => exists|v: EngineValue| #[trigger] value.ensures((&e,), Ok::<EngineValue, TranslateError>(v)),
        PredicateExpr::Cast(inner) => if is_column_ref(*inner) {
            exists|qc: QualifiedColumn| #[trigger] column.ensures((&*inner, &scope), Ok::<QualifiedColumn, TranslateError>(qc))
        } else {
            exists|v: EngineValue| #[trigger] value.ensures((&e,), Ok::<EngineValue, TranslateError>(v))
        },
        PredicateExpr::Function { name, args } => lowercase(name@) == "lower"@ && match args {
            FunctionArgs::Single(inner) => operand_succeeds(column, scope, value, *inner),
            _ => false,
        },
        _ => false,
    }
}

/// Both operands read, or the error of the first that fails.
pub open spec fn operands_err<C, V>(column: C, scope: Scope, value: V, left: PredicateExpr, right: PredicateExpr, x: TranslateError) -> bool
    where
        C: Fn(&PredicateExpr, &Scope) -> Result<QualifiedColumn, TranslateError>,
        V: Fn(&PredicateExpr) -> Result<EngineValue, TranslateError>,
{
    operand_ok(column, scope, value, left, Err(x))
        || (operand_succeeds(column, scope, value, left) && operand_ok(column, scope, value, right, Err(x)))
}

/// The two operands of a comparison.
pub open spec fn comparison_operands<Q>(p: QualifiedPredicate<Q>) -> Option<(QualifiedOperand, QualifiedOperand)> {
    match p {
        QualifiedPredicate::Equals(a, b) | QualifiedPredicate::NotEquals(a, b) | QualifiedPredicate::LessThan(a, b)
        | QualifiedPredicate::LessThanOrEquals(a, b) | QualifiedPredicate::GreaterThan(a, b)
        | QualifiedPredicate::GreaterThanOrEquals(a, b) => Some((a, b)),
        _ => None,
    }
}

/// Translating condition `e` can succeed.
pub open spec fn predicate_succeeds<C, V, S, Q>(column: C, scope: Scope, value: V, subquery: S, e: PredicateExpr) -> bool
    where
        C: Fn(&PredicateExpr, &Scope) -> Result<QualifiedColumn, TranslateError>,
        V: Fn(&PredicateExpr) -> Result<EngineValue, TranslateError>,
        S: Fn(&String) -> Result<Q, TranslateError>,
    decreases e,
{
    match e {
        PredicateExpr::BinaryOp { left, op, right } => match op {
            SqlBinaryOperator::And | SqlBinaryOperator::Or =>
                predicate_succeeds::<C, V, S, Q>(column, scope, value, subquery, *left)
                && predicate_succeeds::<C, V, S, Q>(column, scope, value, subquery, *right),
            SqlBinaryOperator::Other(_) => false,
            _ => operand_succeeds(column, scope, value, *left) && operand_succeeds(column, scope, value, *right),
        },
        PredicateExpr::UnaryOp { not, expr } => not && predicate_succeeds::<C, V, S, Q>(column, scope, value, subquery, *expr),
        PredicateExpr::InList { expr, list, negated } =>
            (exists|qc: QualifiedColumn| #[trigger] column.ensures((&*expr, &scope), Ok::<QualifiedColumn, TranslateError>(qc)))
            && list_succeeds(value, list@),
        PredicateExpr::InSubquery { expr, subquery: sql, negated } =>
            (exists|qc: QualifiedColumn| #[trigger] column.ensures((&*expr, &scope), Ok::<QualifiedColumn, TranslateError>(qc)))
            && exists|q: Q| #[trigger] subquery.ensures((&sql,), Ok::<Q, TranslateError>(q)),
        PredicateExpr::IsNull(inner) =>
            exists|qc: QualifiedColumn| #[trigger] column.ensures((&*inner, &scope), Ok::<QualifiedColumn, TranslateError>(qc)),
        PredicateExpr::IsNotNull(inner) =>
            exists|qc: QualifiedColumn| #[trigger] column.ensures((&*inner, &scope), Ok::<QualifiedColumn, TranslateError>(qc)),
        PredicateExpr::Like { expr, pattern, negated } | PredicateExpr::ILike { expr, pattern, negated } =>
            operand_succeeds(column, scope, value, *expr) && operand_succeeds(column, scope, value, *pattern),
        _ => false,
    }
}

/// What a condition gives. `column` reads column references, `value`
/// literals, and `subquery` the SQL text of a subquery.
pub open spec fn predicate_ok<C, V, S, Q>(
    column: C,
    scope: Scope,
    value: V,
    subquery: S,
    e: PredicateExpr,
    r: Result<QualifiedPredicate<Q>, TranslateError>,
) -> bool
    where
        C: Fn(&PredicateExpr, &Scope) -> Result<QualifiedColumn, TranslateError>,
        V: Fn(&PredicateExpr) -> Result<EngineValue, TranslateError>,
        S: Fn(&String) -> Result<Q, TranslateError>,
    decreases e,
{
    match e {
        PredicateExpr::BinaryOp { left, op, right } => match op {
            SqlBinaryOperator::And => match r {
                Ok(QualifiedPredicate::And(a, b)) => predicate_ok(column, scope, value, subquery, *left, Ok(*a))
                    && predicate_ok(column, scope, value, subquery, *right, Ok(*b)),
                Ok(_) => false,
                Err(x) => predicate_ok(column, scope, value, subquery, *left, Err(x))
                    || (predicate_succeeds::<C, V, S, Q>(column, scope, value, subquery, *left)
                        && predicate_ok(column, scope, value, subquery, *right, Err(x))),
            },
            SqlBinaryOperator::Or => match r {
                Ok(QualifiedPredicate::Or(a, b)) => predicate_ok(column, scope, value, subquery, *left, Ok(*a))
                    && predicate_ok(column, scope, value, subquery, *right, Ok(*b)),
                Ok(_) => false,
                Err(x) => predicate_ok(column, scope, value, subquery, *left, Err(x))
                    || (predicate_succeeds::<C, V, S, Q>(column, scope, value, subquery, *left)
                        && predicate_ok(column, scope, value, subquery, *right, Err(x))),
            },
            SqlBinaryOperator::Other(_) => r matches Err(x) && feature_is(x, "unsupported binary operator in WHERE"@),
            _ => match r {
                Ok(p) => comparison_operands(p) matches Some((a, b))
                    && comparison::<Q>(op, a, b) == Some(p)
                    && operand_ok(column, scope, value, *left, Ok(a)) && operand_ok(column, scope, value, *right, Ok(b)),
                Err(x) => operands_err(column, scope, value, *left, *right, x),
            },
        },
        PredicateExpr::Arithmetic { .. } => r matches Err(x) && feature_is(x, "unsupported binary operator in WHERE"@),
        PredicateExpr::UnaryOp { not, expr } => if not {
            match r {
                Ok(QualifiedPredicate::Not(a)) => predicate_ok(column, scope, value, subquery, *expr, Ok(*a)),
                Ok(_) => false,
                Err(x) => predicate_ok(column, scope, value, subquery, *expr, Err(x)),
            }
        } else {
            r matches Err(x) && feature_is(x, "unsupported unary operator in WHERE"@)
        },
        PredicateExpr::InList { expr, list, negated } => match r {
            Ok(QualifiedPredicate::InList { expr: qc, list: vs, negated: n }) => n == negated
                && column.ensures((&*expr, &scope), Ok::<QualifiedColumn, TranslateError>(qc))
                && list_values_ok(value, list@, Ok(vs@)),
            Ok(_) => false,
            Err(x) => column.ensures((&*expr, &scope), Err::<QualifiedColumn, TranslateError>(x))
                || ((exists|qc: QualifiedColumn| #[trigger] column.ensures((&*expr, &scope), Ok::<QualifiedColumn, TranslateError>(qc)))
                    && list_values_ok(value, list@, Err(x))),
        },
        PredicateExpr::InSubquery { expr, subquery: sql, negated } => match r {
            Ok(QualifiedPredicate::InSubquery { expr: qc, subquery: q, negated: n }) => n == negated
                && column.ensures((&*expr, &scope), Ok::<QualifiedColumn, TranslateError>(qc))
                && subquery.ensures((&sql,), Ok::<Q, TranslateError>(*q)),
            Ok(_) => false,
            Err(x) => column.ensures((&*expr, &scope), Err::<QualifiedColumn, TranslateError>(x))
                || ((exists|qc: QualifiedColumn| #[trigger] column.ensures((&*expr, &scope), Ok::<QualifiedColumn, TranslateError>(qc)))
                    && subquery.ensures((&sql,), Err::<Q, TranslateError>(x))),
        },
        PredicateExpr::IsNull(inner) => match r {
            Ok(QualifiedPredicate::IsNull(qc)) => column.ensures((&*inner, &scope), Ok::<QualifiedColumn, TranslateError>(qc)),
            Ok(_) => false,
            Err(x) => column.ensures((&*inner, &scope), Err::<QualifiedColumn, TranslateError>(x)),
        },
        PredicateExpr::IsNotNull(inner) => match r {
            Ok(QualifiedPredicate::IsNotNull(qc)) => column.ensures((&*inner, &scope), Ok::<QualifiedColumn, TranslateError>(qc)),
            Ok(_) => false,
            Err(x) => column.ensures((&*inner, &scope), Err::<QualifiedColumn, TranslateError>(x)),
        },
        PredicateExpr::Like { expr, pattern, negated } => match r {
            Ok(QualifiedPredicate::Like { expr: a, pattern: b, negated: n }) => n == negated
                && operand_ok(column, scope, value, *expr, Ok(a)) && operand_ok(column, scope, value, *pattern, Ok(b)),
            Ok(_) => false,
            Err(x) => operands_err(column, scope, value, *expr, *pattern, x),
        },
        PredicateExpr::ILike { expr, pattern, negated } => match r {
            Ok(QualifiedPredicate::Like { expr: la, pattern: lb, negated: n }) => {
                &&& n == negated
                &&& la matches QualifiedOperand::Lower(a)
                &&& lb matches QualifiedOperand::Lower(b)
                &&& operand_ok(column, scope, value, *expr, Ok(*a))
                &&& operand_ok(column, scope, value, *pattern, Ok(*b))
            },
            Ok(_) => false,
            Err(x) => operands_err(column, scope, value, *expr, *pattern, x),
        },
        _ => r matches Err(x) && feature_is(x, "unsupported WHERE expression"@),
    }
}

fn read_column<C>(e: &PredicateExpr, column: &C, scope: &Scope) -> (r: Result<QualifiedColumn, TranslateError>)
    where C: Fn(&PredicateExpr, &Scope) -> Result<QualifiedColumn, TranslateError>,
    requires
        forall|x: &PredicateExpr, y: &Scope| column.requires((x, y)),
    ensures
        column.ensures((e, scope), r),
{
    column(e, scope)
}

fn list_values<V>(list: &Vec<PredicateExpr>, value: &V) -> (r: Result<Vec<EngineValue>, TranslateError>)
    where V: Fn(&PredicateExpr) -> Result<EngineValue, TranslateError>,
    requires
        forall|x: &PredicateExpr| value.requires((x,)),
    ensures
        match r {
            Ok(vs) => list_values_ok(*value, list@, Ok(vs@)) && list_succeeds(*value, list@),
            Err(x) => list_values_ok(*value, list@, Err(x)),
        },
{
    let mut values: Vec<EngineValue> = Vec::new();
    let mut i: usize = 0;
    while i < list.len()
        invariant
            i <= list@.len(),
            forall|x: &PredicateExpr| value.requires((x,)),
            list_values_ok(*value, list@.take(i as int), Ok(values@)),
            list_succeeds(*value, list@.take(i as int)),
        decreases list.len() - i,
    {
        assert(list@.take(i as int + 1).drop_last() == list@.take(i as int));
        assert(list@.take(i as int + 1).last() == list@[i as int]);
        let item = &list[i];
        let ghost before = values@;
        let v = match item {
            PredicateExpr::Value(_) | PredicateExpr::Cast(_) => match value(item) {
                Ok(v) => v,
                Err(x) => {
                    proof {
                        assert(item_value_ok(*value, list@[i as int], Err(x)));
                        assert(list_values_ok(*value, list@.take(i as int + 1), Err(x)));
                        lemma_list_err_prefix(*value, list@, i as int + 1, x);
                    }
                    return Err(x);
                },
            },
            _ => {
                let x = TranslateError::UnsupportedFeature(String::from_str("IN list only supports literal values in v1"));
                proof {
                    assert(item_value_ok(*value, list@[i as int], Err(x)));
                    assert(list_values_ok(*value, list@.take(i as int + 1), Err(x)));
                    lemma_list_err_prefix(*value, list@, i as int + 1, x);
                }
                return Err(x);
            },
        };
        values.push(v);
        proof {
            assert(values@.drop_last() == before);
            assert(item_succeeds(*value, list@[i as int]));
        }
        i = i + 1;
    }
    assert(list@.take(i as int) == list@);
    Ok(values)
}

proof fn lemma_list_err_prefix<V>(value: V, list: Seq<PredicateExpr>, i: int, x: TranslateError)
    where V: Fn(&PredicateExpr) -> Result<EngineValue, TranslateError>,
    requires
        0 <= i <= list.len(),
        list_values_ok(value, list.take(i), Err(x)),
    ensures
        list_values_ok(value, list, Err(x)),
    decreases list.len() - i,
{
    if i < list.len() {
        assert(list.take(i + 1).drop_last() == list.take(i));
        lemma_list_err_prefix(value, list, i + 1, x);
    } else {
        assert(list.take(i) == list);
    }
}

/// Translates a `WHERE` condition into a predicate on rows: comparisons of
/// operands, `AND`, `OR`, `NOT`, `IN` lists of literals, `IN` subqueries,
/// null checks, `LIKE` and `ILIKE` (which compares lower-cased operands).
pub fn expr_to_qualified_predicate<C, V, S, Q>(
    e: &PredicateExpr,
    column: &C,
    scope: &Scope,
    value: &V,
    subquery: &S,
) -> (r: Result<QualifiedPredicate<Q>, TranslateError>)
    where
        C: Fn(&PredicateExpr, &Scope) -> Result<QualifiedColumn, TranslateError>,
        V: Fn(&PredicateExpr) -> Result<EngineValue, TranslateError>,
        S: Fn(&String) -> Result<Q, TranslateError>,
    requires
        forall|x: &PredicateExpr, y: &Scope| column.requires((x, y)),
        forall|x: &PredicateExpr| value.requires((x,)),
        forall|x: &String| subquery.requires((x,)),
    ensures
        predicate_ok(*column, *scope, *value, *subquery, *e, r),
        r is Ok ==> predicate_succeeds::<C, V, S, Q>(*column, *scope, *value, *subquery, *e),
    decreases *e, 1nat,
{
    match e {
        PredicateExpr::BinaryOp { left, op, right } => translate_binary_expr(&**left, op, &**right, column, scope, value, subquery),
        PredicateExpr::Arithmetic { .. } => Err(TranslateError::UnsupportedFeature(
            String::from_str("unsupported binary operator in WHERE"),
        )),
        PredicateExpr::UnaryOp { not, expr } => {
            if *not {
                let inner = expr_to_qualified_predicate(&**expr, column, scope, value, subquery)?;
                Ok(QualifiedPredicate::Not(Box::new(inner)))
            } else {
                Err(TranslateError::UnsupportedFeature(String::from_str("unsupported unary operator in WHERE")))
            }
        },
        PredicateExpr::InList { expr, list, negated } => {
            let qc = read_column(&**expr, column, scope)?;
            let ghost qc0 = qc;
            let values = match list_values(list, value) {
                Ok(vs) => vs,
                Err(x) => {
                    proof { assert(column.ensures((&**expr, scope), Ok::<QualifiedColumn, TranslateError>(qc0))); }
                    return Err(x);
                },
            };
            proof { assert(column.ensures((&**expr, scope), Ok::<QualifiedColumn, TranslateError>(qc0))); }
            Ok(QualifiedPredicate::InList { expr: qc, list: values, negated: *negated })
        },
        PredicateExpr::InSubquery { expr, subquery: sql, negated } => {
            let qc = read_column(&**expr, column, scope)?;
            let ghost qc0 = qc;
            let q = match subquery(sql) {
                Ok(q) => q,
                Err(x) => {
                    proof { assert(column.ensures((&**expr, scope), Ok::<QualifiedColumn, TranslateError>(qc0))); }
                    return Err(x);
                },
            };
            proof {
                assert(column.ensures((&**expr, scope), Ok::<QualifiedColumn, TranslateError>(qc0)));
                assert(subquery.ensures((sql,), Ok::<Q, TranslateError>(q)));
            }
            Ok(QualifiedPredicate::InSubquery { expr: qc, subquery: Box::new(q), negated: *negated })
        },
        PredicateExpr::IsNull(inner) => {
            let qc = read_column(&**inner, column, scope)?;
            Ok(QualifiedPredicate::IsNull(qc))
        },
        PredicateExpr::IsNotNull(inner) => {
            let qc = read_column(&**inner, column, scope)?;
            Ok(QualifiedPredicate::IsNotNull(qc))
        },
        PredicateExpr::Like { expr, pattern, negated } => {
            let (a, b) = resolve_operands(&**expr, &**pattern, column, scope, value)?;
            Ok(QualifiedPredicate::Like { expr: a, pattern: b, negated: *negated })
        },
        PredicateExpr::ILike { expr, pattern, negated } => {
            let (a, b) = resolve_operands(&**expr, &**pattern, column, scope, value)?;
            Ok(QualifiedPredicate::Like {
                expr: QualifiedOperand::Lower(Box::new(a)),
                pattern: QualifiedOperand::Lower(Box::new(b)),
                negated: *negated,
            })
        },
        _ => Err(TranslateError::UnsupportedFeature(String::from_str("unsupported WHERE expression"))),
    }
}

/// Reads two operands, the left one first.
fn resolve_operands<C, V>(left: &PredicateExpr, right: &PredicateExpr, column: &C, scope: &Scope, value: &V)
    -> (r: Result<(QualifiedOperand, QualifiedOperand), TranslateError>)
    where
        C: Fn(&PredicateExpr, &Scope) -> Result<QualifiedColumn, TranslateError>,
        V: Fn(&PredicateExpr) -> Result<EngineValue, TranslateError>,
    requires
        forall|x: &PredicateExpr, y: &Scope| column.requires((x, y)),
        forall|x: &PredicateExpr| value.requires((x,)),
    ensures
        match r {
            Ok((a, b)) => operand_ok(*column, *scope, *value, *left, Ok(a)) && operand_ok(*column, *scope, *value, *right, Ok(b))
                && operand_succeeds(*column, *scope, *value, *left) && operand_succeeds(*column, *scope, *value, *right),
            Err(x) => operands_err(*column, *scope, *value, *left, *right, x),
        },
{
    let a = resolve_operand(left, column, scope, value)?;
    let b = resolve_operand(right, column, scope, value)?;
    Ok((a, b))
}

pub open spec fn binary_of(left: PredicateExpr, op: SqlBinaryOperator, right: PredicateExpr) -> PredicateExpr {
    PredicateExpr::BinaryOp { left: Box::new(left), op, right: Box::new(right) }
}

/// Translates `left op right` in a condition: `AND` and `OR` of two
/// conditions, or a comparison of two operands.
pub fn translate_binary_expr<C, V, S, Q>(
    left: &PredicateExpr,
    op: &SqlBinaryOperator,
    right: &PredicateExpr,
    column: &C,
    scope: &Scope,
    value: &V,
    subquery: &S,
) -> (r: Result<QualifiedPredicate<Q>, TranslateError>)
    where
        C: Fn(&PredicateExpr, &Scope) -> Result<QualifiedColumn, TranslateError>,
        V: Fn(&PredicateExpr) -> Result<EngineValue, TranslateError>,
        S: Fn(&String) -> Result<Q, TranslateError>,
    requires
        forall|x: &PredicateExpr, y: &Scope| column.requires((x, y)),
        forall|x: &PredicateExpr| value.requires((x,)),
        forall|x: &String| subquery.requires((x,)),
    ensures
        predicate_ok(*column, *scope, *value, *subquery, binary_of(*left, *op, *right), r),
        r is Ok ==> predicate_succeeds::<C, V, S, Q>(*column, *scope, *value, *subquery, binary_of(*left, *op, *right)),
    decreases binary_of(*left, *op, *right), 0nat,
{
    proof {
        let b = binary_of(*left, *op, *right);
        assert(decreases_to!(b => b->BinaryOp_left));
        assert(decreases_to!(b => b->BinaryOp_right));
    }
    match op {
        SqlBinaryOperator::And => {
            let a = expr_to_qualified_predicate(left, column, scope, value, subquery)?;
            let b = expr_to_qualified_predicate(right, column, scope, value, subquery)?;
            Ok(QualifiedPredicate::And(Box::new(a), Box::new(b)))
        },
        SqlBinaryOperator::Or => {
            let a = expr_to_qualified_predicate(left, column, scope, value, subquery)?;
            let b = expr_to_qualified_predicate(right, column, scope, value, subquery)?;
            Ok(QualifiedPredicate::Or(Box::new(a), Box::new(b)))
        },
        SqlBinaryOperator::Other(_) => Err(TranslateError::UnsupportedFeature(
            String::from_str("unsupported binary operator in WHERE"),
        )),
        _ => {
            let (a, b) = resolve_operands(left, right, column, scope, value)?;
            let p = match op {
                SqlBinaryOperator::Eq => QualifiedPredicate::Equals(a, b),
                SqlBinaryOperator::NotEq => QualifiedPredicate::NotEquals(a, b),
                SqlBinaryOperator::Lt => QualifiedPredicate::LessThan(a, b),
                SqlBinaryOperator::LtEq => QualifiedPredicate::LessThanOrEquals(a, b),
                SqlBinaryOperator::Gt => QualifiedPredicate::GreaterThan(a, b),
                _ => QualifiedPredicate::GreaterThanOrEquals(a, b),
            };
            Ok(p)
        },
    }
}

/// Whether a comparison accepts a row whose left operand orders against its
/// right one as `c` (negative below, zero level, positive above).
pub open spec fn predicate_accepts_order<Q>(p: QualifiedPredicate<Q>, c: int) -> bool {
    match p {
        QualifiedPredicate::Equals(_, _) => c == 0,
        QualifiedPredicate::NotEquals(_, _) => c != 0,
        QualifiedPredicate::LessThan(_, _) => c < 0,
        QualifiedPredicate::LessThanOrEquals(_, _) => c <= 0,
        QualifiedPredicate::GreaterThan(_, _) => c > 0,
        QualifiedPredicate::GreaterThanOrEquals(_, _) => c >= 0,
        _ => false,
    }
}

/// A comparison of a condition keeps its meaning: the predicate built for
/// an operator compares the same two operands, in order, and accepts a row
/// exactly when they stand as the operator says (`=`, `<>`, `<`, `<=`, `>`,
/// `>=`); any other operator builds no comparison.
pub proof fn law_conditions_keep_comparison_meaning<Q>(op: SqlBinaryOperator, a: QualifiedOperand, b: QualifiedOperand, c: int)
    ensures
        comparison::<Q>(op, a, b) is Some <==> (op is Eq || op is NotEq || op is Lt || op is LtEq || op is Gt || op is GtEq),
        comparison::<Q>(op, a, b) matches Some(p) ==> comparison_operands(p) == Some((a, b)),
        op is Eq ==> (predicate_accepts_order(comparison::<Q>(op, a, b)->Some_0, c) <==> c == 0),
        op is NotEq ==> (predicate_accepts_order(comparison::<Q>(op, a, b)->Some_0, c) <==> c != 0),
        op is Lt ==> (predicate_accepts_order(comparison::<Q>(op, a, b)->Some_0, c) <==> c < 0),
        op is LtEq ==> (predicate_accepts_order(comparison::<Q>(op, a, b)->Some_0, c) <==> c <= 0),
        op is Gt ==> (predicate_accepts_order(comparison::<Q>(op, a, b)->Some_0, c) <==> c > 0),
        op is GtEq ==> (predicate_accepts_order(comparison::<Q>(op, a, b)->Some_0, c) <==> c >= 0),
{
}

} // verus!
