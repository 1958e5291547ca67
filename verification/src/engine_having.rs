//! `HAVING` for the storage engine: conditions on groups, whose operands are
//! the query's aggregates, projection aliases or columns, compared with
//! literals.
use vstd::prelude::*;

use crate::engine_ddl::feature_is;
use crate::engine_joins::QualifiedColumn;
use crate::engine_predicates::{lowercase, to_lowercase, PredicateExpr, Scope};
use crate::engine_select::{scalar_aggregate, alias_column, first_segment, first_segment_of, lookup_alias_column, Aggregate, CallArg, CallArgs, FunctionCall};
use crate::engine_types::EngineValue;
use crate::placeholders::TranslateError;
use crate::text::str_eq;

verus! {

/// What a `HAVING` operand stands for: a column, or an aggregate of the
/// query by its position.
#[derive(Debug)]
pub enum RefOrAgg {
    Column(QualifiedColumn),
    AggregateIndex(usize),
}

#[derive(Debug)]
pub enum HavingPredicate {
    And(Box<HavingPredicate>, Box<HavingPredicate>),
    Or(Box<HavingPredicate>, Box<HavingPredicate>),
    Not(Box<HavingPredicate>),
    Equals(RefOrAgg, EngineValue),
    NotEquals(RefOrAgg, EngineValue),
    LessThan(RefOrAgg, EngineValue),
    LessThanOrEquals(RefOrAgg, EngineValue),
    GreaterThan(RefOrAgg, EngineValue),
    GreaterThanOrEquals(RefOrAgg, EngineValue),
    IsNull(RefOrAgg),
    IsNotNull(RefOrAgg),
}

#[derive(Debug)]
pub enum Comparison {
    Eq,
    NotEq,
    Lt,
    LtEq,
    Gt,
    GtEq,
}

/// An operand of a `HAVING` comparison: a function call, a bare name, a
/// qualified name, or another expression.
#[derive(Debug)]
pub enum HavingOperand {
    Call(FunctionCall),
    Name(String),
    Compound(PredicateExpr),
    Other,
}

/// A parsed `HAVING` condition: `AND` (`and` set) or `OR`, a comparison of
/// an operand with a value, another binary operator, `NOT`, another unary
/// operator, `IS NULL`, `IS NOT NULL`, or another expression.
#[derive(Debug)]
pub enum HavingExpr {
    Logical { and: bool, left: Box<HavingExpr>, right: Box<HavingExpr> },
    Compare { left: HavingOperand, op: Comparison, right: PredicateExpr },
    OtherBinary,
    Not(Box<HavingExpr>),
    OtherUnary,
    IsNull(HavingOperand),
    IsNotNull(HavingOperand),
    Other,
}

/// Two column references name the same column.
pub open spec fn same_column(a: QualifiedColumn, b: QualifiedColumn) -> bool {
    a.table@ == b.table@ && a.column_index == b.column_index
}

fn column_eq(a: &QualifiedColumn, b: &QualifiedColumn) -> (r: bool)
    ensures
        r == same_column(*a, *b),
{
    str_eq(a.table.as_str(), b.table.as_str()) && a.column_index == b.column_index
}

/// The name of an aggregate's function.
pub open spec fn aggregate_fn_name(a: Aggregate) -> Seq<char> {
    match a {
        Aggregate::Count(_) => "count"@,
        Aggregate::Sum(_) => "sum"@,
        Aggregate::Min(_) => "min"@,
        Aggregate::Max(_) => "max"@,
        Aggregate::Avg(_) => "avg"@,
    }
}

/// Aggregate `a` is the function `name` of the argument `arg` (`None` for `*`).
pub open spec fn aggregate_matches(a: Aggregate, name: Seq<char>, arg: Option<QualifiedColumn>) -> bool {
    &&& aggregate_fn_name(a) == name
    &&& aggregate_arg_is(a, arg)
}

/// Aggregate `a` reads the column `qc`.
pub open spec fn aggregate_reads(a: Aggregate, qc: QualifiedColumn) -> bool {
    match a {
        Aggregate::Count(None) => false,
        Aggregate::Count(Some(c)) => same_column(c, qc),
        Aggregate::Sum(c) | Aggregate::Min(c) | Aggregate::Max(c) | Aggregate::Avg(c) => same_column(c, qc),
    }
}

/// `r` is the first position in `aggs` whose aggregate meets `p`, if any.
pub open spec fn first_index(aggs: Seq<Aggregate>, p: spec_fn(Aggregate) -> bool, r: Option<usize>) -> bool {
    match r {
        Some(i) => i < aggs.len() && p(aggs[i as int]) && forall|j: int| 0 <= j < i ==> !p(#[trigger] aggs[j]),
        None => forall|j: int| 0 <= j < aggs.len() ==> !p(#[trigger] aggs[j]),
    }
}

/// `r` is the first position of an aggregate of `aggs` that reads `qc`.
pub open spec fn first_reading(aggs: Seq<Aggregate>, qc: QualifiedColumn, r: Option<usize>) -> bool {
    first_index(aggs, |a: Aggregate| aggregate_reads(a, qc), r)
}

/// `r` is the first position of an aggregate of `aggs` that is the function
/// `name` of `arg`.
pub open spec fn first_matching(aggs: Seq<Aggregate>, name: Seq<char>, arg: Option<QualifiedColumn>, r: Option<usize>) -> bool {
    first_index(aggs, |a: Aggregate| aggregate_matches(a, name, arg), r)
}

/// The name of an aggregate's function.
pub fn aggregate_name(a: &Aggregate) -> (r: &'static str)
    ensures
        r@ == aggregate_fn_name(*a),
{
    proof {
        reveal_strlit("count");
        reveal_strlit("sum");
        reveal_strlit("min");
        reveal_strlit("max");
        reveal_strlit("avg");
    }
    match a {
        Aggregate::Count(_) => "count",
        Aggregate::Sum(_) => "sum",
        Aggregate::Min(_) => "min",
        Aggregate::Max(_) => "max",
        Aggregate::Avg(_) => "avg",
    }
}

/// The argument of aggregate `a` is `arg` (`None` for `*`).
pub open spec fn aggregate_arg_is(a: Aggregate, arg: Option<QualifiedColumn>) -> bool {
    match a {
        Aggregate::Count(None) => arg is None,
        Aggregate::Count(Some(c)) => arg matches Some(q) && same_column(c, q),
        Aggregate::Sum(c) | Aggregate::Min(c) | Aggregate::Max(c) | Aggregate::Avg(c) => arg matches Some(q) && same_column(c, q),
    }
}

/// Whether the argument of aggregate `a` is `arg` (`None` for `*`).
pub fn aggregate_arg_matches(a: &Aggregate, arg: &Option<QualifiedColumn>) -> (r: bool)
    ensures
        r == aggregate_arg_is(*a, *arg),
{
    match a {
        Aggregate::Count(None) => arg.is_none(),
        Aggregate::Count(Some(c)) => match arg {
            Some(q) => column_eq(c, q),
            None => false,
        },
        Aggregate::Sum(c) | Aggregate::Min(c) | Aggregate::Max(c) | Aggregate::Avg(c) => match arg {
            Some(q) => column_eq(c, q),
            None => false,
        },
    }
}

fn find_aggregate(aggs: &Vec<Aggregate>, name: &str, arg: &Option<QualifiedColumn>) -> (r: Option<usize>)
    ensures
        first_matching(aggs@, name@, *arg, r),
{
    let ghost p = |a: Aggregate| aggregate_matches(a, name@, *arg);
    let mut i: usize = 0;
    while i < aggs.len()
        invariant
            i <= aggs@.len(),
            p == (|a: Aggregate| aggregate_matches(a, name@, *arg)),
            forall|j: int| 0 <= j < i ==> !p(#[trigger] aggs@[j]),
        decreases aggs.len() - i,
    {
        let a = &aggs[i];
        if str_eq(aggregate_name(a), name) && aggregate_arg_matches(a, arg) {
            return Some(i);
        }
        i = i + 1;
    }
    None
}

fn find_reading_aggregate(aggs: &Vec<Aggregate>, qc: &QualifiedColumn) -> (r: Option<usize>)
    ensures
        first_reading(aggs@, *qc, r),
{
    let ghost p = |a: Aggregate| aggregate_reads(a, *qc);
    let mut i: usize = 0;
    while i < aggs.len()
        invariant
            i <= aggs@.len(),
            p == (|a: Aggregate| aggregate_reads(a, *qc)),
            forall|j: int| 0 <= j < i ==> !p(#[trigger] aggs@[j]),
        decreases aggs.len() - i,
    {
        let reads = match &aggs[i] {
            Aggregate::Count(None) => false,
            Aggregate::Count(Some(c)) => column_eq(c, qc),
            Aggregate::Sum(c) | Aggregate::Min(c) | Aggregate::Max(c) | Aggregate::Avg(c) => column_eq(c, qc),
        };
        if reads {
            return Some(i);
        }
        i = i + 1;
    }
    None
}

/// `r` is the aggregate of `aggs` that the function `name` of `arg` names:
/// the first that matches, or the error where none does.
pub open spec fn aggregate_lookup(aggs: Seq<Aggregate>, name: Seq<char>, arg: Option<QualifiedColumn>, r: Result<RefOrAgg, TranslateError>) -> bool {
    match r {
        Ok(RefOrAgg::AggregateIndex(i)) => first_matching(aggs, name, arg, Some(i)),
        Ok(RefOrAgg::Column(_)) => false,
        Err(x) => first_matching(aggs, name, arg, None) && feature_is(x, "unknown aggregate in HAVING"@),
    }
}

/// What a `HAVING` operand stands for, read against `scope`, the query's
/// aggregates `aggs` and its projection aliases `als`.
pub open spec fn having_ref_ok<C>(
    column: C,
    scope: Scope,
    aggs: Seq<Aggregate>,
    als: Seq<(String, QualifiedColumn)>,
    o: HavingOperand,
    r: Result<RefOrAgg, TranslateError>,
) -> bool
    where C: Fn(&PredicateExpr, &Scope) -> Result<QualifiedColumn, TranslateError>,
{
    match o {
        HavingOperand::Call(call) => {
            let first = first_segment(lowercase(call.name@));
            match call.args {
                CallArgs::Subquery => r matches Err(x) && feature_is(x, "aggregate with subquery arg in HAVING unsupported"@),
                CallArgs::List(args) => if args@.len() != 1 {
                    r matches Err(x) && feature_is(x, "aggregate in HAVING must take one argument"@)
                } else {
                    match args@[0] {
                        CallArg::Wildcard => aggregate_lookup(aggs, first, None, r),
                        CallArg::Expr(e) => {
                            ||| (exists|qc: QualifiedColumn| #[trigger] column.ensures((&e, &scope), Ok::<QualifiedColumn, TranslateError>(qc))
                                && aggregate_lookup(aggs, first, Some(qc), r))
                            ||| (r matches Err(x) && column.ensures((&e, &scope), Err::<QualifiedColumn, TranslateError>(x)))
                        },
                        _ => r matches Err(x) && feature_is(x, "unsupported aggregate arg in HAVING"@),
                    }
                },
            }
        },
        HavingOperand::Name(n) => match alias_column(als, n@) {
            Some(qc) => exists|i: Option<usize>| #[trigger] first_reading(aggs, qc, i) && match i {
                Some(k) => r == Ok::<RefOrAgg, TranslateError>(RefOrAgg::AggregateIndex(k)),
                None => r == Ok::<RefOrAgg, TranslateError>(RefOrAgg::Column(qc)),
            },
            None => match r {
                Ok(RefOrAgg::Column(qc)) => column.ensures((&PredicateExpr::Identifier(n), &scope), Ok::<QualifiedColumn, TranslateError>(qc)),
                Ok(_) => false,
                Err(x) => column.ensures((&PredicateExpr::Identifier(n), &scope), Err::<QualifiedColumn, TranslateError>(x)),
            },
        },
        HavingOperand::Compound(e) => match r {
            Ok(RefOrAgg::Column(qc)) => column.ensures((&e, &scope), Ok::<QualifiedColumn, TranslateError>(qc)),
            Ok(_) => false,
            Err(x) => column.ensures((&e, &scope), Err::<QualifiedColumn, TranslateError>(x)),
        },
        HavingOperand::Other => r matches Err(x) && feature_is(x, "unsupported HAVING operand"@),
    }
}

/// What a `HAVING` operand stands for: an aggregate of the query, a
/// projection alias's column, or a column.
pub fn resolve_ref<C>(
    o: &HavingOperand,
    scope: &Scope,
    aggs: &Vec<Aggregate>,
    als: &Vec<(String, QualifiedColumn)>,
    column: &C,
) -> (r: Result<RefOrAgg, TranslateError>)
    where C: Fn(&PredicateExpr, &Scope) -> Result<QualifiedColumn, TranslateError>,
    requires
        forall|x: &PredicateExpr, y: &Scope| column.requires((x, y)),
    ensures
        having_ref_ok(*column, *scope, aggs@, als@, *o, r),
{
    match o {
        HavingOperand::Call(call) => {
            let lower = to_lowercase(call.name.as_str());
            let first = first_segment_of(lower.as_str());
            let args = match &call.args {
                CallArgs::Subquery => {
                    return Err(TranslateError::UnsupportedFeature(
                        String::from_str("aggregate with subquery arg in HAVING unsupported"),
                    ));
                },
                CallArgs::List(args) => args,
            };
            if args.len() != 1 {
                return Err(TranslateError::UnsupportedFeature(String::from_str("aggregate in HAVING must take one argument")));
            }
            let arg = match &args[0] {
                CallArg::Expr(e) => match column(e, scope) {
                    Ok(qc) => Some(qc),
                    Err(x) => return Err(x),
                },
                CallArg::Wildcard => None,
                _ => return Err(TranslateError::UnsupportedFeature(String::from_str("unsupported aggregate arg in HAVING"))),
            };
            match find_aggregate(aggs, first, &arg) {
                Some(i) => Ok(RefOrAgg::AggregateIndex(i)),
                None => Err(TranslateError::UnsupportedFeature(String::from_str("unknown aggregate in HAVING"))),
            }
        },
        HavingOperand::Name(n) => match lookup_alias_column(als, n.as_str()) {
            Some(qc) => {
                let found = find_reading_aggregate(aggs, &qc);
                proof { assert(first_reading(aggs@, qc, found)); }
                match found {
                    Some(i) => Ok(RefOrAgg::AggregateIndex(i)),
                    None => Ok(RefOrAgg::Column(qc)),
                }
            },
            None => {
                let e = PredicateExpr::Identifier(n.clone());
                match column(&e, scope) {
                    Ok(qc) => Ok(RefOrAgg::Column(qc)),
                    Err(x) => Err(x),
                }
            },
        },
        HavingOperand::Compound(e) => match column(e, scope) {
            Ok(qc) => Ok(RefOrAgg::Column(qc)),
            Err(x) => Err(x),
        },
        HavingOperand::Other => Err(TranslateError::UnsupportedFeature(String::from_str("unsupported HAVING operand"))),
    }
}

/// The operand reads to something.
pub open spec fn having_ref_succeeds<C>(column: C, scope: Scope, aggs: Seq<Aggregate>, als: Seq<(String, QualifiedColumn)>, o: HavingOperand) -> bool
    where C: Fn(&PredicateExpr, &Scope) -> Result<QualifiedColumn, TranslateError>,
{
    exists|rf: RefOrAgg| #[trigger] having_ref_ok(column, scope, aggs, als, o, Ok(rf))
}

/// The comparison `op` of `rf` with `v`.
pub open spec fn comparison_of(op: Comparison, rf: RefOrAgg, v: EngineValue) -> HavingPredicate {
    match op {
        Comparison::Eq => HavingPredicate::Equals(rf, v),
        Comparison::NotEq => HavingPredicate::NotEquals(rf, v),
        Comparison::Lt => HavingPredicate::LessThan(rf, v),
        Comparison::LtEq => HavingPredicate::LessThanOrEquals(rf, v),
        Comparison::Gt => HavingPredicate::GreaterThan(rf, v),
        Comparison::GtEq => HavingPredicate::GreaterThanOrEquals(rf, v),
    }
}

/// The comparison `op` of an operand with a value.
pub fn having_predicate_from_comparison(op: &Comparison, lref: RefOrAgg, rval: EngineValue) -> (r: HavingPredicate)
    ensures
        r == comparison_of(*op, lref, rval),
{
    match op {
        Comparison::Eq => HavingPredicate::Equals(lref, rval),
        Comparison::NotEq => HavingPredicate::NotEquals(lref, rval),
        Comparison::Lt => HavingPredicate::LessThan(lref, rval),
        Comparison::LtEq => HavingPredicate::LessThanOrEquals(lref, rval),
        Comparison::Gt => HavingPredicate::GreaterThan(lref, rval),
        Comparison::GtEq => HavingPredicate::GreaterThanOrEquals(lref, rval),
    }
}

/// The right side of a comparison is a literal (or a cast of one).
pub open spec fn is_literal(e: PredicateExpr) -> bool {
    e is Value || e is Cast
}

/// The condition can be translated: each operand reads to something and
/// each right side is a literal the reader gives a value for.
pub open spec fn having_succeeds<C, V>(
    column: C,
    value: V,
    scope: Scope,
    aggs: Seq<Aggregate>,
    als: Seq<(String, QualifiedColumn)>,
    h: HavingExpr,
) -> bool
    where
        C: Fn(&PredicateExpr, &Scope) -> Result<QualifiedColumn, TranslateError>,
        V: Fn(&PredicateExpr) -> Result<EngineValue, TranslateError>,
    decreases h,
{
    match h {
        HavingExpr::Logical { and, left, right } => having_succeeds(column, value, scope, aggs, als, *left)
            && having_succeeds(column, value, scope, aggs, als, *right),
        HavingExpr::Compare { left, op, right } => having_ref_succeeds(column, scope, aggs, als, left) && is_literal(right)
            && exists|v: EngineValue| #[trigger] value.ensures((&right,), Ok::<EngineValue, TranslateError>(v)),
        HavingExpr::Not(inner) => having_succeeds(column, value, scope, aggs, als, *inner),
        HavingExpr::IsNull(o) => having_ref_succeeds(column, scope, aggs, als, o),
        HavingExpr::IsNotNull(o) => having_ref_succeeds(column, scope, aggs, als, o),
        _ => false,
    }
}

/// What a `HAVING` condition gives, read against `scope`, the query's
/// aggregates `aggs` and its projection aliases `als`; `value` reads the
/// literals. Operands are read left to right, and the first failure is the
/// error.
pub open spec fn having_ok<C, V>(
    column: C,
    value: V,
    scope: Scope,
    aggs: Seq<Aggregate>,
    als: Seq<(String, QualifiedColumn)>,
    h: HavingExpr,
    r: Result<HavingPredicate, TranslateError>,
) -> bool
    where
        C: Fn(&PredicateExpr, &Scope) -> Result<QualifiedColumn, TranslateError>,
        V: Fn(&PredicateExpr) -> Result<EngineValue, TranslateError>,
    decreases h,
{
    match h {
        HavingExpr::Logical { and, left, right } => match r {
            Ok(HavingPredicate::And(a, b)) => and && having_ok(column, value, scope, aggs, als, *left, Ok(*a))
                && having_ok(column, value, scope, aggs, als, *right, Ok(*b)),
            Ok(HavingPredicate::Or(a, b)) => !and && having_ok(column, value, scope, aggs, als, *left, Ok(*a))
                && having_ok(column, value, scope, aggs, als, *right, Ok(*b)),
            Ok(_) => false,
            Err(x) => having_ok(column, value, scope, aggs, als, *left, Err(x))
                || (having_succeeds(column, value, scope, aggs, als, *left) && having_ok(column, value, scope, aggs, als, *right, Err(x))),
        },
        HavingExpr::Compare { left, op, right } => match r {
            Ok(p) => is_literal(right) && exists|rf: RefOrAgg, v: EngineValue| {
                &&& #[trigger] having_ref_ok(column, scope, aggs, als, left, Ok(rf))
                &&& #[trigger] value.ensures((&right,), Ok::<EngineValue, TranslateError>(v))
                &&& p == comparison_of(op, rf, v)
            },
            Err(x) => having_ref_ok(column, scope, aggs, als, left, Err(x))
                || (having_ref_succeeds(column, scope, aggs, als, left) && if is_literal(right) {
                    value.ensures((&right,), Err::<EngineValue, TranslateError>(x))
                } else {
                    feature_is(x, "HAVING RHS must be literal value in v1"@)
                }),
        },
        HavingExpr::OtherBinary => r matches Err(x) && feature_is(x, "unsupported binary operator in HAVING"@),
        HavingExpr::Not(inner) => match r {
            Ok(HavingPredicate::Not(a)) => having_ok(column, value, scope, aggs, als, *inner, Ok(*a)),
            Ok(_) => false,
            Err(x) => having_ok(column, value, scope, aggs, als, *inner, Err(x)),
        },
        HavingExpr::OtherUnary => r matches Err(x) && feature_is(x, "unsupported unary operator in HAVING"@),
        HavingExpr::IsNull(o) => match r {
            Ok(HavingPredicate::IsNull(rf)) => having_ref_ok(column, scope, aggs, als, o, Ok(rf)),
            Ok(_) => false,
            Err(x) => having_ref_ok(column, scope, aggs, als, o, Err(x)),
        },
        HavingExpr::IsNotNull(o) => match r {
            Ok(HavingPredicate::IsNotNull(rf)) => having_ref_ok(column, scope, aggs, als, o, Ok(rf)),
            Ok(_) => false,
            Err(x) => having_ref_ok(column, scope, aggs, als, o, Err(x)),
        },
        HavingExpr::Other => r matches Err(x) && feature_is(x, "unsupported HAVING expression"@),
    }
}

/// Translates a `HAVING` condition of a query whose aggregates are `aggs`
/// and whose projection aliases are `als`.
pub fn expr_to_having_predicate<C, V>(
    h: &HavingExpr,
    scope: &Scope,
    aggs: &Vec<Aggregate>,
    als: &Vec<(String, QualifiedColumn)>,
    column: &C,
    value: &V,
) -> (r: Result<HavingPredicate, TranslateError>)
    where
        C: Fn(&PredicateExpr, &Scope) -> Result<QualifiedColumn, TranslateError>,
        V: Fn(&PredicateExpr) -> Result<EngineValue, TranslateError>,
    requires
        forall|x: &PredicateExpr, y: &Scope| column.requires((x, y)),
        forall|x: &PredicateExpr| value.requires((x,)),
    ensures
        having_ok(*column, *value, *scope, aggs@, als@, *h, r),
        r is Ok ==> having_succeeds(*column, *value, *scope, aggs@, als@, *h),
    decreases h,
{
    match h {
        HavingExpr::Logical { and, left, right } => {
            let a = match expr_to_having_predicate(&**left, scope, aggs, als, column, value) {
                Ok(a) => a,
                Err(x) => return Err(x),
            };
            let ghost a0 = a;
            let b = match expr_to_having_predicate(&**right, scope, aggs, als, column, value) {
                Ok(b) => b,
                Err(x) => {
                    return Err(x);
                },
            };
            let ghost b0 = b;
            let p = if *and { HavingPredicate::And(Box::new(a), Box::new(b)) } else { HavingPredicate::Or(Box::new(a), Box::new(b)) };
            Ok(p)
        },
        HavingExpr::Compare { left, op, right } => {
            let rf = match resolve_ref(left, scope, aggs, als, column) {
                Ok(rf) => rf,
                Err(x) => return Err(x),
            };
            let ghost rf0 = rf;
            proof { assert(having_ref_ok(*column, *scope, aggs@, als@, *left, Ok(rf0))); }
            let v = match right {
                PredicateExpr::Value(_) | PredicateExpr::Cast(_) => match value(right) {
                    Ok(v) => v,
                    Err(x) => return Err(x),
                },
                _ => return Err(TranslateError::UnsupportedFeature(String::from_str("HAVING RHS must be literal value in v1"))),
            };
            let ghost v0 = v;
            let p = having_predicate_from_comparison(op, rf, v);
            proof {
                assert(value.ensures((right,), Ok::<EngineValue, TranslateError>(v0)));
                assert(p == comparison_of(*op, rf0, v0));
            }
            Ok(p)
        },
        HavingExpr::OtherBinary => Err(TranslateError::UnsupportedFeature(String::from_str("unsupported binary operator in HAVING"))),
        HavingExpr::Not(inner) => {
            let a = match expr_to_having_predicate(&**inner, scope, aggs, als, column, value) {
                Ok(a) => a,
                Err(x) => return Err(x),
            };
            let ghost a0 = a;
            Ok(HavingPredicate::Not(Box::new(a)))
        },
        HavingExpr::OtherUnary => Err(TranslateError::UnsupportedFeature(String::from_str("unsupported unary operator in HAVING"))),
        HavingExpr::IsNull(o) => {
            let rf = match resolve_ref(o, scope, aggs, als, column) {
                Ok(rf) => rf,
                Err(x) => return Err(x),
            };
            let ghost rf0 = rf;
            proof { assert(having_ref_ok(*column, *scope, aggs@, als@, *o, Ok(rf0))); }
            Ok(HavingPredicate::IsNull(rf))
        },
        HavingExpr::IsNotNull(o) => {
            let rf = match resolve_ref(o, scope, aggs, als, column) {
                Ok(rf) => rf,
                Err(x) => return Err(x),
            };
            let ghost rf0 = rf;
            proof { assert(having_ref_ok(*column, *scope, aggs@, als@, *o, Ok(rf0))); }
            Ok(HavingPredicate::IsNotNull(rf))
        },
        HavingExpr::Other => Err(TranslateError::UnsupportedFeature(String::from_str("unsupported HAVING expression"))),
    }
}

/// The operand and value a comparison predicate tests, if it is one.
pub open spec fn comparison_parts(p: HavingPredicate) -> Option<(RefOrAgg, EngineValue)> {
    match p {
        HavingPredicate::Equals(r, v) => Some((r, v)),
        HavingPredicate::NotEquals(r, v) => Some((r, v)),
        HavingPredicate::LessThan(r, v) => Some((r, v)),
        HavingPredicate::LessThanOrEquals(r, v) => Some((r, v)),
        HavingPredicate::GreaterThan(r, v) => Some((r, v)),
        HavingPredicate::GreaterThanOrEquals(r, v) => Some((r, v)),
        _ => None,
    }
}

/// Whether a comparison predicate accepts a group whose operand orders
/// against the predicate's value as `c` (negative below, zero level,
/// positive above), as the engine evaluates it.
pub open spec fn predicate_accepts(p: HavingPredicate, c: int) -> bool {
    match p {
        HavingPredicate::Equals(_, _) => c == 0,
        HavingPredicate::NotEquals(_, _) => c != 0,
        HavingPredicate::LessThan(_, _) => c < 0,
        HavingPredicate::LessThanOrEquals(_, _) => c <= 0,
        HavingPredicate::GreaterThan(_, _) => c > 0,
        HavingPredicate::GreaterThanOrEquals(_, _) => c >= 0,
        _ => false,
    }
}

/// A `HAVING` comparison keeps its meaning: the predicate built for `op`
/// tests the same operand against the same value, and accepts a group
/// exactly when the operand stands to the value as `op` says (`=`, `<>`,
/// `<`, `<=`, `>`, `>=`); so `>=` keeps the groups level with the value.
pub proof fn law_having_comparison_keeps_meaning(op: Comparison, rf: RefOrAgg, v: EngineValue, c: int)
    ensures
        comparison_parts(comparison_of(op, rf, v)) == Some((rf, v)),
        predicate_accepts(comparison_of(op, rf, v), c) <==> match op {
            Comparison::Eq => c == 0,
            Comparison::NotEq => c != 0,
            Comparison::Lt => c < 0,
            Comparison::LtEq => c <= 0,
            Comparison::Gt => c > 0,
            Comparison::GtEq => c >= 0,
        },
{
}

/// An aggregate that the projection builds for `sum`, `min`, `max` or `avg`
/// of a column is found again in `HAVING` under that function's name and
/// that column, and under no other name.
pub proof fn law_projection_aggregates_are_found_by_name(name: Seq<char>, qc: QualifiedColumn, other: Seq<char>)
    ensures
        scalar_aggregate(name, qc) matches Some(a) ==> aggregate_matches(a, name, Some(qc)),
        other != name ==> (scalar_aggregate(name, qc) matches Some(a) ==> !aggregate_matches(a, other, Some(qc))),
        aggregate_matches(Aggregate::Count(None), "count"@, None),
        aggregate_matches(Aggregate::Count(Some(qc)), "count"@, Some(qc)),
        !aggregate_matches(Aggregate::Count(None), "count"@, Some(qc)),
{
}

} // verus!
