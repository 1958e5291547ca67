//! Value expressions, `RETURNING` lists and `DELETE` for the storage engine.
use vstd::prelude::*;

use crate::engine_ddl::{feature_is, EngineTableSchema};
use crate::engine_joins::{
    alias_views, known_schema, lookup_known, parse_from_clause, relation_names, find_schema,
    EngineTableWithJoins, QualifiedColumn,
};
use crate::engine_predicates::{
    expr_to_qualified_predicate, predicate_ok, predicate_succeeds, ArithmeticOperator, PredicateExpr, QualifiedPredicate, Scope,
};
use crate::engine_types::EngineValue;
use crate::placeholders::TranslateError;
use crate::text::{join, join_spec, str_eq, string_views};

verus! {

/// A value computed for a row: a literal, a column, or arithmetic on two.
#[derive(Debug)]
pub enum UpdateValueExpr {
    Value(EngineValue),
    Column(QualifiedColumn),
    Add(Box<UpdateValueExpr>, Box<UpdateValueExpr>),
    Subtract(Box<UpdateValueExpr>, Box<UpdateValueExpr>),
    Multiply(Box<UpdateValueExpr>, Box<UpdateValueExpr>),
    Divide(Box<UpdateValueExpr>, Box<UpdateValueExpr>),
}

pub open spec fn arithmetic(op: ArithmeticOperator, a: UpdateValueExpr, b: UpdateValueExpr) -> UpdateValueExpr {
    match op {
        ArithmeticOperator::Plus => UpdateValueExpr::Add(Box::new(a), Box::new(b)),
        ArithmeticOperator::Minus => UpdateValueExpr::Subtract(Box::new(a), Box::new(b)),
        ArithmeticOperator::Multiply => UpdateValueExpr::Multiply(Box::new(a), Box::new(b)),
        ArithmeticOperator::Divide => UpdateValueExpr::Divide(Box::new(a), Box::new(b)),
    }
}

/// The two sides of an arithmetic value.
pub open spec fn arithmetic_sides(v: UpdateValueExpr) -> Option<(UpdateValueExpr, UpdateValueExpr)> {
    match v {
        UpdateValueExpr::Add(a, b) | UpdateValueExpr::Subtract(a, b) | UpdateValueExpr::Multiply(a, b)
        | UpdateValueExpr::Divide(a, b) => Some((*a, *b)),
        _ => None,
    }
}

/// Reading `e` as a value can succeed.
pub open spec fn value_expr_succeeds<C, V>(column: C, scope: Scope, value: V, e: PredicateExpr) -> bool
    where
        C: Fn(&PredicateExpr, &Scope) -> Result<QualifiedColumn, TranslateError>,
        V: Fn(&PredicateExpr) -> Result<EngineValue, TranslateError>,
    decreases e,
{
    match e {
        PredicateExpr::Value(_) | PredicateExpr::Cast(_) =>
            exists|v: EngineValue| #[trigger] value.ensures((&e,), Ok::<EngineValue, TranslateError>(v)),
        PredicateExpr::Identifier(_) | PredicateExpr::CompoundIdentifier(_) =>
            exists|qc: QualifiedColumn| #[trigger] column.ensures((&e, &scope), Ok::<QualifiedColumn, TranslateError>(qc)),
        PredicateExpr::Arithmetic { left, op, right } =>
            value_expr_succeeds(column, scope, value, *left) && value_expr_succeeds(column, scope, value, *right),
        _ => false,
    }
}

/// What reading `e` as a value gives: a literal through the literal reader,
/// a column through the column reader, or arithmetic on two values read left
/// first. Any other binary operator reads both sides and then fails.
pub open spec fn value_expr_ok<C, V>(column: C, scope: Scope, value: V, e: PredicateExpr, r: Result<UpdateValueExpr, TranslateError>) -> bool
    where
        C: Fn(&PredicateExpr, &Scope) -> Result<QualifiedColumn, TranslateError>,
        V: Fn(&PredicateExpr) -> Result<EngineValue, TranslateError>,
    decreases e,
{
    match e {
        PredicateExpr::Value(_) | PredicateExpr::Cast(_) => match r {
            Ok(UpdateValueExpr::Value(v)) => value.ensures((&e,), Ok::<EngineValue, TranslateError>(v)),
            Ok(_) => false,
            Err(x) => value.ensures((&e,), Err::<EngineValue, TranslateError>(x)),
        },
        PredicateExpr::Identifier(_) | PredicateExpr::CompoundIdentifier(_) => match r {
            Ok(UpdateValueExpr::Column(qc)) => column.ensures((&e, &scope), Ok::<QualifiedColumn, TranslateError>(qc)),
            Ok(_) => false,
            Err(x) => column.ensures((&e, &scope), Err::<QualifiedColumn, TranslateError>(x)),
        },
        PredicateExpr::Arithmetic { left, op, right } => match r {
            Ok(v) => arithmetic_sides(v) matches Some((a, b))
                && v == arithmetic(op, a, b)
                && value_expr_ok(column, scope, value, *left, Ok(a))
                && value_expr_ok(column, scope, value, *right, Ok(b)),
            Err(x) => value_expr_ok(column, scope, value, *left, Err(x))
                || (value_expr_succeeds(column, scope, value, *left) && value_expr_ok(column, scope, value, *right, Err(x))),
        },
        PredicateExpr::BinaryOp { left, op, right } => match r {
            Ok(_) => false,
            Err(x) => value_expr_ok(column, scope, value, *left, Err(x))
                || (value_expr_succeeds(column, scope, value, *left) && value_expr_ok(column, scope, value, *right, Err(x)))
                || (value_expr_succeeds(column, scope, value, *left) && value_expr_succeeds(column, scope, value, *right)
                    && feature_is(x, "unsupported operator in UPDATE assignment expression"@)),
        },
        _ => r matches Err(x) && feature_is(x, "unsupported UPDATE assignment expression"@),
    }
}

/// Reads an expression as a value for a row.
pub fn sql_expr_to_update_value_expr<C, V>(e: &PredicateExpr, column: &C, scope: &Scope, value: &V) -> (r: Result<UpdateValueExpr, TranslateError>)
    where
        C: Fn(&PredicateExpr, &Scope) -> Result<QualifiedColumn, TranslateError>,
        V: Fn(&PredicateExpr) -> Result<EngineValue, TranslateError>,
    requires
        forall|x: &PredicateExpr, y: &Scope| column.requires((x, y)),
        forall|x: &PredicateExpr| value.requires((x,)),
    ensures
        value_expr_ok(*column, *scope, *value, *e, r),
        r is Ok ==> value_expr_succeeds(*column, *scope, *value, *e),
    decreases e,
{
    match e {
        PredicateExpr::Value(_) | PredicateExpr::Cast(_) => match value(e) {
            Ok(v) => Ok(UpdateValueExpr::Value(v)),
            Err(x) => Err(x),
        },
        PredicateExpr::Identifier(_) | PredicateExpr::CompoundIdentifier(_) => match column(e, scope) {
            Ok(qc) => Ok(UpdateValueExpr::Column(qc)),
            Err(x) => Err(x),
        },
        PredicateExpr::Arithmetic { left, op, right } => {
            let a = sql_expr_to_update_value_expr(&**left, column, scope, value)?;
            let b = sql_expr_to_update_value_expr(&**right, column, scope, value)?;
            let boxed_left = Box::new(a);
            let boxed_right = Box::new(b);
            match op {
                ArithmeticOperator::Plus => Ok(UpdateValueExpr::Add(boxed_left, boxed_right)),
                ArithmeticOperator::Minus => Ok(UpdateValueExpr::Subtract(boxed_left, boxed_right)),
                ArithmeticOperator::Multiply => Ok(UpdateValueExpr::Multiply(boxed_left, boxed_right)),
                ArithmeticOperator::Divide => Ok(UpdateValueExpr::Divide(boxed_left, boxed_right)),
            }
        },
        PredicateExpr::BinaryOp { left, op, right } => {
            let _a = sql_expr_to_update_value_expr(&**left, column, scope, value)?;
            let _b = sql_expr_to_update_value_expr(&**right, column, scope, value)?;
            Err(TranslateError::UnsupportedFeature(
                String::from_str("unsupported operator in UPDATE assignment expression"),
            ))
        },
        _ => Err(TranslateError::UnsupportedFeature(String::from_str("unsupported UPDATE assignment expression"))),
    }
}

// ---------------------------------------------------------------------------
// RETURNING

/// Every column a value reads belongs to table `target`.
pub open spec fn uses_only(v: UpdateValueExpr, target: Seq<char>) -> bool
    decreases v,
{
    match v {
        UpdateValueExpr::Value(_) => true,
        UpdateValueExpr::Column(qc) => qc.table@ == target,
        UpdateValueExpr::Add(a, b) | UpdateValueExpr::Subtract(a, b) | UpdateValueExpr::Multiply(a, b)
        | UpdateValueExpr::Divide(a, b) => uses_only(*a, target) && uses_only(*b, target),
    }
}

pub open spec fn target_only_message() -> Seq<char> {
    "RETURNING can reference only target table columns"@
}

/// Checks that a returned value reads only columns of the target table.
pub fn ensure_returning_expr_uses_target(expr: &UpdateValueExpr, target_table: &str) -> (r: Result<(), TranslateError>)
    ensures
        match r {
            Ok(_) => uses_only(*expr, target_table@),
            Err(x) => !uses_only(*expr, target_table@) && feature_is(x, target_only_message()),
        },
    decreases expr,
{
    match expr {
        UpdateValueExpr::Value(_) => Ok(()),
        UpdateValueExpr::Column(column) => {
            if !str_eq(column.table.as_str(), target_table) {
                return Err(TranslateError::UnsupportedFeature(
                    String::from_str("RETURNING can reference only target table columns"),
                ));
            }
            Ok(())
        },
        UpdateValueExpr::Add(left, right) | UpdateValueExpr::Subtract(left, right)
        | UpdateValueExpr::Multiply(left, right) | UpdateValueExpr::Divide(left, right) => {
            ensure_returning_expr_uses_target(&**left, target_table)?;
            ensure_returning_expr_uses_target(&**right, target_table)
        },
    }
}

/// An item of a `RETURNING` list. A qualified wildcard names its table by
/// the parts of its name, or is of another kind.
#[derive(Debug)]
pub enum ReturningItem {
    Wildcard,
    QualifiedWildcard(Vec<String>),
    QualifiedWildcardOther,
    UnnamedExpr(PredicateExpr),
    ExprWithAlias(PredicateExpr),
}

/// The table an alias stands for: the latest entry of that alias.
pub open spec fn alias_target(aliases: Seq<(Seq<char>, Seq<char>)>, name: Seq<char>) -> Option<Seq<char>>
    decreases aliases.len(),
{
    if aliases.len() == 0 {
        None
    } else if aliases.last().0 == name {
        Some(aliases.last().1)
    } else {
        alias_target(aliases.drop_last(), name)
    }
}

/// Looks up an alias, the latest entry of that name.
pub fn lookup_alias(aliases: &Vec<(String, String)>, name: &str) -> (r: Option<String>)
    ensures
        match r {
            Some(t) => alias_target(alias_views(aliases@), name@) == Some(t@),
            None => alias_target(alias_views(aliases@), name@) is None,
        },
{
    let ghost views = alias_views(aliases@);
    let mut i: usize = aliases.len();
    assert(views.take(i as int) == views);
    while i > 0
        invariant
            i <= aliases@.len(),
            views == alias_views(aliases@),
            alias_target(views, name@) == alias_target(views.take(i as int), name@),
        decreases i,
    {
        assert(views.take(i as int).drop_last() == views.take(i as int - 1));
        let (alias, table) = &aliases[i - 1];
        if str_eq(alias.as_str(), name) {
            return Some(table.clone());
        }
        i = i - 1;
    }
    None
}

/// `v` is column `i` of table `target`.
pub open spec fn column_at(v: UpdateValueExpr, target: Seq<char>, i: int) -> bool {
    v matches UpdateValueExpr::Column(qc) && qc.table@ == target && qc.column_index == i
}

/// `v` is every column of table `target`, in order.
pub open spec fn all_columns(v: Seq<UpdateValueExpr>, target: Seq<char>, count: nat) -> bool {
    &&& v.len() == count
    &&& forall|i: int| 0 <= i < count ==> column_at(#[trigger] v[i], target, i)
}

/// What a returned expression gives once read as a value: a read error of a
/// column or table outside the target, or a value reading another table, is
/// reported as referencing only target columns.
pub open spec fn returning_expr_ok<C, V>(column: C, scope: Scope, value: V, e: PredicateExpr, target: Seq<char>, r: Result<Seq<UpdateValueExpr>, TranslateError>) -> bool
    where
        C: Fn(&PredicateExpr, &Scope) -> Result<QualifiedColumn, TranslateError>,
        V: Fn(&PredicateExpr) -> Result<EngineValue, TranslateError>,
{
    match r {
        Ok(v) => v.len() == 1 && value_expr_ok(column, scope, value, e, Ok(v[0])) && uses_only(v[0], target),
        Err(x) => (exists|y: TranslateError| #[trigger] value_expr_ok(column, scope, value, e, Err(y))
                && if (y is UnknownTable || y is UnknownColumn) { feature_is(x, target_only_message()) } else { x == y })
            || (exists|u: UpdateValueExpr| #[trigger] value_expr_ok(column, scope, value, e, Ok(u))
                && !uses_only(u, target) && feature_is(x, target_only_message())),
    }
}

/// What a `RETURNING` item gives for target table `target` with `count` columns.
pub open spec fn returning_item_ok<C, V>(column: C, scope: Scope, value: V, item: ReturningItem, target: Seq<char>, count: nat, r: Result<Seq<UpdateValueExpr>, TranslateError>) -> bool
    where
        C: Fn(&PredicateExpr, &Scope) -> Result<QualifiedColumn, TranslateError>,
        V: Fn(&PredicateExpr) -> Result<EngineValue, TranslateError>,
{
    match item {
        ReturningItem::Wildcard => r matches Ok(v) && all_columns(v, target, count),
        ReturningItem::QualifiedWildcard(parts) => {
            let raw = join_spec(string_views(parts@), "."@);
            let table = match alias_target(alias_views(scope.aliases@), raw) { Some(t) => t, None => raw };
            if table != target {
                r matches Err(x) && feature_is(x, target_only_message())
            } else {
                r matches Ok(v) && all_columns(v, target, count)
            }
        },
        ReturningItem::QualifiedWildcardOther =>
            r matches Err(x) && feature_is(x, "RETURNING qualified wildcard expression is not supported"@),
        ReturningItem::UnnamedExpr(e) => returning_expr_ok(column, scope, value, e, target, r),
        ReturningItem::ExprWithAlias(e) => returning_expr_ok(column, scope, value, e, target, r),
    }
}

fn target_columns(target_table: &str, column_count: usize) -> (r: Vec<UpdateValueExpr>)
    ensures
        all_columns(r@, target_table@, column_count as nat),
{
    let mut out: Vec<UpdateValueExpr> = Vec::new();
    let mut index: usize = 0;
    while index < column_count
        invariant
            index <= column_count,
            all_columns(out@, target_table@, index as nat),
        decreases column_count - index,
    {
        out.push(UpdateValueExpr::Column(QualifiedColumn { table: String::from_str(target_table), column_index: index }));
        index = index + 1;
    }
    out
}

fn returning_expr<C, V>(e: &PredicateExpr, target_table: &str, column: &C, scope: &Scope, value: &V) -> (r: Result<Vec<UpdateValueExpr>, TranslateError>)
    where
        C: Fn(&PredicateExpr, &Scope) -> Result<QualifiedColumn, TranslateError>,
        V: Fn(&PredicateExpr) -> Result<EngineValue, TranslateError>,
    requires
        forall|x: &PredicateExpr, y: &Scope| column.requires((x, y)),
        forall|x: &PredicateExpr| value.requires((x,)),
    ensures
        match r {
            Ok(v) => returning_expr_ok(*column, *scope, *value, *e, target_table@, Ok(v@)),
            Err(x) => returning_expr_ok(*column, *scope, *value, *e, target_table@, Err(x)),
        },
{
    let returning_expr = match sql_expr_to_update_value_expr(e, column, scope, value) {
        Ok(x) => x,
        Err(err) => {
            let mapped = match err {
                TranslateError::UnknownTable(_) | TranslateError::UnknownColumn(_) => TranslateError::UnsupportedFeature(
                    String::from_str("RETURNING can reference only target table columns"),
                ),
                other => other,
            };
            proof {
                assert(value_expr_ok(*column, *scope, *value, *e, Err(err)));
            }
            return Err(mapped);
        },
    };
    let ghost u = returning_expr;
    match ensure_returning_expr_uses_target(&returning_expr, target_table) {
        Ok(_) => {},
        Err(x) => {
            proof { assert(value_expr_ok(*column, *scope, *value, *e, Ok(u))); }
            return Err(x);
        },
    }
    let v = vec![returning_expr];
    proof { assert(v@[0] == u); }
    Ok(v)
}

/// Reads one item of a `RETURNING` list for the target table, which has
/// `column_count` columns.
pub fn translate_returning_item<C, V>(
    item: &ReturningItem,
    target_table: &str,
    scope: &Scope,
    column_count: usize,
    column: &C,
    value: &V,
) -> (r: Result<Vec<UpdateValueExpr>, TranslateError>)
    where
        C: Fn(&PredicateExpr, &Scope) -> Result<QualifiedColumn, TranslateError>,
        V: Fn(&PredicateExpr) -> Result<EngineValue, TranslateError>,
    requires
        forall|x: &PredicateExpr, y: &Scope| column.requires((x, y)),
        forall|x: &PredicateExpr| value.requires((x,)),
    ensures
        match r {
            Ok(v) => returning_item_ok(*column, *scope, *value, *item, target_table@, column_count as nat, Ok(v@)),
            Err(x) => returning_item_ok(*column, *scope, *value, *item, target_table@, column_count as nat, Err(x)),
        },
{
    match item {
        ReturningItem::Wildcard => Ok(target_columns(target_table, column_count)),
        ReturningItem::QualifiedWildcard(parts) => {
            let raw = join(parts, ".");
            let table_name = match lookup_alias(&scope.aliases, raw.as_str()) {
                Some(t) => t,
                None => raw,
            };
            if !str_eq(table_name.as_str(), target_table) {
                return Err(TranslateError::UnsupportedFeature(
                    String::from_str("RETURNING can reference only target table columns"),
                ));
            }
            Ok(target_columns(target_table, column_count))
        },
        ReturningItem::QualifiedWildcardOther => Err(TranslateError::UnsupportedFeature(
            String::from_str("RETURNING qualified wildcard expression is not supported"),
        )),
        ReturningItem::UnnamedExpr(e) => returning_expr(e, target_table, column, scope, value),
        ReturningItem::ExprWithAlias(e) => returning_expr(e, target_table, column, scope, value),
    }
}

/// Reading `item` can succeed.
pub open spec fn returning_item_succeeds<C, V>(column: C, scope: Scope, value: V, item: ReturningItem, target: Seq<char>, count: nat) -> bool
    where
        C: Fn(&PredicateExpr, &Scope) -> Result<QualifiedColumn, TranslateError>,
        V: Fn(&PredicateExpr) -> Result<EngineValue, TranslateError>,
{
    exists|v: Seq<UpdateValueExpr>| #[trigger] returning_item_ok(column, scope, value, item, target, count, Ok(v))
}

/// `parts` are what the items of a `RETURNING` list give, in order, and
/// `out` is them joined.
pub open spec fn projection_parts_ok<C, V>(column: C, scope: Scope, value: V, items: Seq<ReturningItem>, target: Seq<char>, count: nat, parts: Seq<Seq<UpdateValueExpr>>, out: Seq<UpdateValueExpr>) -> bool
    where
        C: Fn(&PredicateExpr, &Scope) -> Result<QualifiedColumn, TranslateError>,
        V: Fn(&PredicateExpr) -> Result<EngineValue, TranslateError>,
{
    &&& parts.len() == items.len()
    &&& forall|i: int| 0 <= i < items.len() ==> returning_item_ok(column, scope, value, items[i], target, count, Ok(#[trigger] parts[i]))
    &&& out == parts.flatten()
}

/// `out` is the items of a `RETURNING` list read in order and joined.
pub open spec fn projection_ok<C, V>(column: C, scope: Scope, value: V, items: Seq<ReturningItem>, target: Seq<char>, count: nat, out: Seq<UpdateValueExpr>) -> bool
    where
        C: Fn(&PredicateExpr, &Scope) -> Result<QualifiedColumn, TranslateError>,
        V: Fn(&PredicateExpr) -> Result<EngineValue, TranslateError>,
{
    exists|parts: Seq<Seq<UpdateValueExpr>>| #[trigger] projection_parts_ok(column, scope, value, items, target, count, parts, out)
}

/// Item `i` of a `RETURNING` list fails with `x` after every item before it
/// could be read.
pub open spec fn projection_err_at<C, V>(column: C, scope: Scope, value: V, items: Seq<ReturningItem>, target: Seq<char>, count: nat, x: TranslateError, i: int) -> bool
    where
        C: Fn(&PredicateExpr, &Scope) -> Result<QualifiedColumn, TranslateError>,
        V: Fn(&PredicateExpr) -> Result<EngineValue, TranslateError>,
{
    &&& 0 <= i < items.len()
    &&& forall|k: int| 0 <= k < i ==> #[trigger] returning_item_succeeds(column, scope, value, items[k], target, count)
    &&& returning_item_ok(column, scope, value, items[i], target, count, Err(x))
}

/// `x` is the error of the first item of a `RETURNING` list that fails.
pub open spec fn projection_err<C, V>(column: C, scope: Scope, value: V, items: Seq<ReturningItem>, target: Seq<char>, count: nat, x: TranslateError) -> bool
    where
        C: Fn(&PredicateExpr, &Scope) -> Result<QualifiedColumn, TranslateError>,
        V: Fn(&PredicateExpr) -> Result<EngineValue, TranslateError>,
{
    exists|i: int| #[trigger] projection_err_at(column, scope, value, items, target, count, x, i)
}

/// Reads a `RETURNING` list for the target table, whose schema is the known
/// table of that name.
pub fn translate_returning_projection<C, V>(
    returning: &Vec<ReturningItem>,
    target_table: &str,
    scope: &Scope,
    schemas: &Vec<EngineTableSchema>,
    column: &C,
    value: &V,
) -> (r: Result<Vec<UpdateValueExpr>, TranslateError>)
    where
        C: Fn(&PredicateExpr, &Scope) -> Result<QualifiedColumn, TranslateError>,
        V: Fn(&PredicateExpr) -> Result<EngineValue, TranslateError>,
    requires
        forall|x: &PredicateExpr, y: &Scope| column.requires((x, y)),
        forall|x: &PredicateExpr| value.requires((x,)),
    ensures
        match known_schema(schemas@, scope.known@, target_table@) {
            None => r matches Err(TranslateError::UnknownTable(t)) && t@ == target_table@,
            Some(p) => {
                let count = schemas@[p].columns@.len();
                match r {
                    Ok(out) => projection_ok(*column, *scope, *value, returning@, target_table@, count, out@),
                    Err(x) => projection_err(*column, *scope, *value, returning@, target_table@, count, x),
                }
            },
        },
{
    let p = match lookup_known(schemas, &scope.known, target_table) {
        Some(p) => p,
        None => return Err(TranslateError::UnknownTable(String::from_str(target_table))),
    };
    proof { crate::engine_joins::lemma_known_schema_bound(schemas@, scope.known@, target_table@); }
    let column_count = schemas[p].columns.len();
    let ghost count = column_count as nat;
    let mut projection: Vec<UpdateValueExpr> = Vec::new();
    let ghost mut parts: Seq<Seq<UpdateValueExpr>> = Seq::empty();
    let mut i: usize = 0;
    while i < returning.len()
        invariant
            i <= returning@.len(),
            forall|x: &PredicateExpr, y: &Scope| column.requires((x, y)),
            forall|x: &PredicateExpr| value.requires((x,)),
            count == column_count as nat,
            known_schema(schemas@, scope.known@, target_table@) == Some(p as int),
            p < schemas@.len(),
            column_count == schemas@[p as int].columns@.len(),
            parts.len() == i,
            forall|k: int| 0 <= k < i ==> returning_item_ok(*column, *scope, *value, returning@[k], target_table@, count, Ok(#[trigger] parts[k])),
            projection@ == parts.flatten(),
        decreases returning.len() - i,
    {
        let mut items = match translate_returning_item(&returning[i], target_table, scope, column_count, column, value) {
            Ok(v) => v,
            Err(x) => {
                proof {
                    assert forall|k: int| 0 <= k < i implies #[trigger] returning_item_succeeds(*column, *scope, *value, returning@[k], target_table@, count) by {
                        assert(returning_item_ok(*column, *scope, *value, returning@[k], target_table@, count, Ok(parts[k])));
                    }
                    assert(returning_item_ok(*column, *scope, *value, returning@[i as int], target_table@, count, Err(x)));
                    assert(projection_err_at(*column, *scope, *value, returning@, target_table@, count, x, i as int));
                }
                return Err(x);
            },
        };
        proof {
            parts.lemma_flatten_push(items@);
        }
        let ghost part = items@;
        projection.append(&mut items);
        proof {
            parts = parts.push(part);
        }
        i = i + 1;
    }
    proof {
        assert(projection_parts_ok(*column, *scope, *value, returning@, target_table@, count, parts, projection@));
    }
    Ok(projection)
}

// ---------------------------------------------------------------------------
// DELETE

/// A parsed `DELETE`: flags for the clauses the engine refuses (a table
/// list before FROM, USING, ORDER BY, LIMIT), the FROM items, the condition
/// and the `RETURNING` list.
#[derive(Debug)]
pub struct EngineDelete {
    pub has_tables: bool,
    pub has_using: bool,
    pub has_order_by: bool,
    pub has_limit: bool,
    pub from: Vec<EngineTableWithJoins>,
    pub selection: Option<PredicateExpr>,
    pub returning: Option<Vec<ReturningItem>>,
}

/// What the engine runs for a `DELETE`; `Q` is the query of a subquery.
#[derive(Debug)]
pub struct DeleteQuery<Q> {
    pub table: String,
    pub predicate: Option<QualifiedPredicate<Q>>,
    pub returning: Option<Vec<UpdateValueExpr>>,
}

/// The error a `DELETE` gives before its target table is read, if any.
pub open spec fn delete_shape_error(d: EngineDelete) -> Option<Seq<char>> {
    if d.has_tables {
        Some("multi-table DELETE is not supported"@)
    } else if d.has_using {
        Some("DELETE USING is not supported"@)
    } else if d.has_order_by {
        Some("DELETE ORDER BY is not supported"@)
    } else if d.has_limit {
        Some("DELETE LIMIT is not supported"@)
    } else if d.from@.len() != 1 {
        Some("DELETE requires exactly one target table"@)
    } else if d.from@[0].joins@.len() != 0 {
        Some("DELETE with JOIN is not supported"@)
    } else {
        None
    }
}

/// A `RETURNING` list is given and fails with `x`.
pub open spec fn returning_err<C, V>(column: C, scope: Scope, value: V, returning: Option<Vec<ReturningItem>>, table: Seq<char>, count: nat, x: TranslateError) -> bool
    where
        C: Fn(&PredicateExpr, &Scope) -> Result<QualifiedColumn, TranslateError>,
        V: Fn(&PredicateExpr) -> Result<EngineValue, TranslateError>,
{
    match returning {
        Some(items) => projection_err(column, scope, value, items@, table, count, x),
        None => false,
    }
}

/// What a `DELETE` gives once its target table `table`, with `count`
/// columns, has been read into `scope`.
pub open spec fn delete_rest_ok<C, V, S, Q>(
    column: C,
    scope: Scope,
    value: V,
    subquery: S,
    d: EngineDelete,
    table: Seq<char>,
    count: nat,
    r: Result<DeleteQuery<Q>, TranslateError>,
) -> bool
    where
        C: Fn(&PredicateExpr, &Scope) -> Result<QualifiedColumn, TranslateError>,
        V: Fn(&PredicateExpr) -> Result<EngineValue, TranslateError>,
        S: Fn(&String) -> Result<Q, TranslateError>,
{
    match r {
        Ok(q) => {
            &&& q.table@ == table
            &&& match d.selection {
                None => q.predicate is None,
                Some(e) => q.predicate matches Some(pr) && predicate_ok(column, scope, value, subquery, e, Ok(pr)),
            }
            &&& match d.returning {
                None => q.returning is None,
                Some(items) => q.returning matches Some(out) && projection_ok(column, scope, value, items@, table, count, out@),
            }
        },
        Err(x) => match d.selection {
            Some(e) => predicate_ok(column, scope, value, subquery, e, Err(x))
                || (predicate_succeeds::<C, V, S, Q>(column, scope, value, subquery, e)
                    && returning_err(column, scope, value, d.returning, table, count, x)),
            None => returning_err(column, scope, value, d.returning, table, count, x),
        },
    }
}

/// What translating the `DELETE` `d` against the catalog `schemas` gives:
/// the error of its shape, of a target that is no plain table or of an
/// unknown target, or else the outcome of its condition and `RETURNING`
/// list, read against the target's alias.
pub open spec fn delete_translated<C, V, S, Q>(
    d: EngineDelete,
    schemas: Seq<EngineTableSchema>,
    column: C,
    value: V,
    subquery: S,
    r: Result<DeleteQuery<Q>, TranslateError>,
) -> bool
    where
        C: Fn(&PredicateExpr, &Scope) -> Result<QualifiedColumn, TranslateError>,
        V: Fn(&PredicateExpr) -> Result<EngineValue, TranslateError>,
        S: Fn(&String) -> Result<Q, TranslateError>,
{
    match delete_shape_error(d) {
        Some(m) => r matches Err(x) && feature_is(x, m),
        None => match relation_names(d.from@[0].relation) {
            None => r matches Err(x) && feature_is(x, "unsupported table factor"@),
            Some((t, a)) => match find_schema(schemas, t) {
                None => r matches Err(TranslateError::UnknownTable(x)) && x@ == t,
                Some(p) => exists|sc: Scope| {
                    &&& alias_views(sc.aliases@) == seq![(a, t)]
                    &&& sc.known@ == seq![p as usize]
                    &&& #[trigger] delete_rest_ok(column, sc, value, subquery, d, t, schemas[p].columns@.len(), r)
                },
            },
        },
    }
}

/// Translates a `DELETE` of one table, without joins, with an optional
/// condition and `RETURNING` list. The table is read against `schemas`, the
/// catalog, and the condition and returned values against its alias.
pub fn translate_delete<C, V, S, Q>(
    delete: &EngineDelete,
    schemas: &Vec<EngineTableSchema>,
    column: &C,
    value: &V,
    subquery: &S,
) -> (r: Result<DeleteQuery<Q>, TranslateError>)
    where
        C: Fn(&PredicateExpr, &Scope) -> Result<QualifiedColumn, TranslateError>,
        V: Fn(&PredicateExpr) -> Result<EngineValue, TranslateError>,
        S: Fn(&String) -> Result<Q, TranslateError>,
    requires
        forall|x: &PredicateExpr, y: &Scope| column.requires((x, y)),
        forall|x: &PredicateExpr| value.requires((x,)),
        forall|x: &String| subquery.requires((x,)),
    ensures
        delete_translated(*delete, schemas@, *column, *value, *subquery, r),
{
    if delete.has_tables {
        return Err(TranslateError::UnsupportedFeature(String::from_str("multi-table DELETE is not supported")));
    }
    if delete.has_using {
        return Err(TranslateError::UnsupportedFeature(String::from_str("DELETE USING is not supported")));
    }
    if delete.has_order_by {
        return Err(TranslateError::UnsupportedFeature(String::from_str("DELETE ORDER BY is not supported")));
    }
    if delete.has_limit {
        return Err(TranslateError::UnsupportedFeature(String::from_str("DELETE LIMIT is not supported")));
    }
    if delete.from.len() != 1 {
        return Err(TranslateError::UnsupportedFeature(String::from_str("DELETE requires exactly one target table")));
    }
    let target = &delete.from[0];
    if target.joins.len() != 0 {
        return Err(TranslateError::UnsupportedFeature(String::from_str("DELETE with JOIN is not supported")));
    }
    let mut scope = Scope { aliases: Vec::new(), known: Vec::new() };
    let mut referenced_tables: Vec<String> = Vec::new();
    let table = parse_from_clause(target, schemas, &mut scope.aliases, &mut referenced_tables, &mut scope.known)?;
    proof {
        crate::engine_joins::lemma_find_schema_bound(schemas@, table@);
    }
    let ghost p = find_schema(schemas@, table@)->Some_0;
    proof {
        let t = relation_names(target.relation)->Some_0.0;
        assert(table@ == t);
        assert(find_schema(schemas@, t) == Some(p));
        assert(scope.known@ == seq![p as usize]);
        assert(0 <= p < schemas@.len());
        assert(schemas@.len() == schemas.len());
        assert(scope.known@.last() as int == p);
        assert(known_schema(schemas@, scope.known@, table@) == Some(p));
        let a = relation_names(target.relation)->Some_0.1;
        assert(alias_views(Seq::<(String, String)>::empty()) =~= Seq::<(Seq<char>, Seq<char>)>::empty());
        assert(alias_views(scope.aliases@) =~= seq![(a, t)]);
    }
    let predicate = match &delete.selection {
        Some(selection) => match expr_to_qualified_predicate(selection, column, &scope, value, subquery) {
            Ok(pr) => Some(pr),
            Err(x) => {
                proof {
                    assert(delete_rest_ok(*column, scope, *value, *subquery, *delete, table@, schemas@[p].columns@.len(), Err::<DeleteQuery<Q>, TranslateError>(x)));
                }
                return Err(x);
            },
        },
        None => None,
    };
    let ghost pr = predicate;
    let returning = match &delete.returning {
        Some(items) => match translate_returning_projection(items, table.as_str(), &scope, schemas, column, value) {
            Ok(out) => Some(out),
            Err(x) => {
                proof {
                    assert(delete_rest_ok(*column, scope, *value, *subquery, *delete, table@, schemas@[p].columns@.len(), Err::<DeleteQuery<Q>, TranslateError>(x)));
                }
                return Err(x);
            },
        },
        None => None,
    };
    let q = DeleteQuery { table, predicate, returning };
    proof {
        assert(delete_rest_ok(*column, scope, *value, *subquery, *delete, q.table@, schemas@[p].columns@.len(), Ok::<DeleteQuery<Q>, TranslateError>(q)));
    }
    Ok(q)
}

} // verus!
