//! `SELECT` for the storage engine: the FROM item and its joins, the
//! projection with its aggregates, `GROUP BY`, `ORDER BY`, `LIMIT` and
//! `OFFSET`, the condition and `HAVING`, and the choice between a simple
//! read of one table and a full query.
use vstd::prelude::*;

use crate::engine_ddl::{feature_is, EngineTableSchema};
use crate::engine_dml::{alias_target, lookup_alias};
use crate::engine_joins::{alias_views, known_schema, lookup_known, EngineTableWithJoins, JoinClause, QualifiedColumn};
use crate::engine_predicates::{expr_to_qualified_predicate, lowercase, predicate_ok, to_lowercase, PredicateExpr, QualifiedPredicate, Scope};
use crate::engine_types::EngineValue;
use crate::engine_having::{expr_to_having_predicate, having_ok, HavingExpr, HavingPredicate};
use crate::engine_update::{item_aliases, item_clauses_ok, item_error, item_known, item_static_ok, item_table, read_item, selection_err, selection_succeeds};
use crate::sql_ast::SqlExpr;
use crate::placeholders::TranslateError;
use crate::numbers::{parse_usize, parse_usize_spec};
use crate::text::{concat, join, join_spec, str_eq, string_views};

verus! {

/// An aggregate of a query's projection.
#[derive(Debug)]
pub enum Aggregate {
    Count(Option<QualifiedColumn>),
    Sum(QualifiedColumn),
    Min(QualifiedColumn),
    Max(QualifiedColumn),
    Avg(QualifiedColumn),
}

#[derive(Debug)]
pub enum SortDirection {
    Asc,
    Desc,
}

/// A sort key of a query.
#[derive(Debug)]
pub struct OrderBy {
    pub expr: QualifiedColumn,
    pub direction: SortDirection,
}

/// An argument of a function call in a projection: `*`, `t.*`, an
/// expression, or another kind (a named argument).
#[derive(Debug)]
pub enum CallArg {
    Wildcard,
    QualifiedWildcard,
    Expr(PredicateExpr),
    Other,
}

/// The arguments of a function call: a list (empty where there are none),
/// or a subquery.
#[derive(Debug)]
pub enum CallArgs {
    List(Vec<CallArg>),
    Subquery,
}

/// A function call of a projection, by its name as written.
#[derive(Debug)]
pub struct FunctionCall {
    pub name: String,
    pub args: CallArgs,
}

/// An expression of a projection: a function call or another expression.
#[derive(Debug)]
pub enum ProjectionExpr {
    Call(FunctionCall),
    Expr(PredicateExpr),
}

/// An item of a projection; a qualified wildcard is given by the parts of
/// its name, `QualifiedWildcardOther` is one qualified otherwise.
#[derive(Debug)]
pub enum SelectItem {
    Wildcard,
    QualifiedWildcard(Vec<String>),
    QualifiedWildcardOther,
    Unnamed(ProjectionExpr),
    Aliased(ProjectionExpr, String),
}

/// A copy of a column reference.
fn copy_column(qc: &QualifiedColumn) -> (r: QualifiedColumn)
    ensures
        r == *qc,
{
    QualifiedColumn { table: qc.table.clone(), column_index: qc.column_index }
}

// ---------------------------------------------------------------------------
// Columns of whole tables

/// `cols` are the columns of table `t`, which has `n` columns, in order.
pub open spec fn columns_of(cols: Seq<QualifiedColumn>, t: Seq<char>, n: nat) -> bool {
    &&& cols.len() == n
    &&& forall|i: int| 0 <= i < n ==> (#[trigger] cols[i]).table@ == t && cols[i].column_index == i
}

/// `cols` are the columns of the known tables, table after table, each
/// under its own name.
pub open spec fn wildcard_ok(schemas: Seq<EngineTableSchema>, known: Seq<usize>, cols: Seq<QualifiedColumn>) -> bool
    decreases known.len(),
{
    if known.len() == 0 {
        cols.len() == 0
    } else {
        let k = known.last() as int;
        let n: nat = if k < schemas.len() { schemas[k].columns@.len() } else { 0 };
        &&& cols.len() >= n
        &&& wildcard_ok(schemas, known.drop_last(), cols.take(cols.len() - n))
        &&& (k < schemas.len() ==> columns_of(cols.skip(cols.len() - n), schemas[k].name@, n))
    }
}

/// Appends the columns of table `t`, which has `n` columns.
fn push_table_columns(out: &mut Vec<QualifiedColumn>, t: &String, n: usize)
    ensures
        final(out)@.len() == old(out)@.len() + n,
        final(out)@.take(old(out)@.len() as int) == old(out)@,
        columns_of(final(out)@.skip(old(out)@.len() as int), t@, n as nat),
{
    let ghost start = out@.len();
    let mut i: usize = 0;
    while i < n
        invariant
            i <= n,
            out@.len() == start + i,
            out@.take(start as int) == old(out)@,
            start == old(out)@.len(),
            forall|j: int| 0 <= j < i ==> (#[trigger] out@[start + j]).table@ == t@ && out@[start + j].column_index == j,
        decreases n - i,
    {
        let ghost before = out@;
        out.push(QualifiedColumn { table: t.clone(), column_index: i });
        proof {
            assert(out@.take(start as int) =~= before.take(start as int));
        }
        i = i + 1;
    }
    proof {
        let s = out@.skip(start as int);
        assert forall|j: int| 0 <= j < n implies (#[trigger] s[j]).table@ == t@ && s[j].column_index == j by {
            assert(s[j] == out@[start + j]);
        }
    }
}

/// The columns of every known table, table after table.
fn wildcard_columns(schemas: &Vec<EngineTableSchema>, known: &Vec<usize>) -> (r: Vec<QualifiedColumn>)
    ensures
        wildcard_ok(schemas@, known@, r@),
{
    let mut out: Vec<QualifiedColumn> = Vec::new();
    let mut i: usize = 0;
    proof { assert(known@.take(0) =~= Seq::<usize>::empty()); }
    while i < known.len()
        invariant
            i <= known@.len(),
            wildcard_ok(schemas@, known@.take(i as int), out@),
        decreases known.len() - i,
    {
        let k = known[i];
        let ghost before = out@;
        if k < schemas.len() {
            push_table_columns(&mut out, &schemas[k].name, schemas[k].columns.len());
        }
        proof {
            let kn = known@.take(i as int + 1);
            assert(kn.drop_last() =~= known@.take(i as int));
            assert(kn.last() == k);
            if k < schemas@.len() {
                assert(out@.take(out@.len() - schemas@[k as int].columns@.len()) == before);
            } else {
                assert(out@.take(out@.len() as int) =~= out@);
            }
        }
        i = i + 1;
    }
    proof { assert(known@.take(known@.len() as int) =~= known@); }
    out
}

// ---------------------------------------------------------------------------
// Aggregates

/// The text before the first `.` of `s`, or all of it.
pub open spec fn first_segment(s: Seq<char>) -> Seq<char>
    decreases s.len(),
{
    if s.len() == 0 {
        s
    } else if s[0] == '.' {
        Seq::empty()
    } else {
        seq![s[0]] + first_segment(s.drop_first())
    }
}

proof fn lemma_first_segment(s: Seq<char>, i: int)
    requires
        0 <= i <= s.len(),
        forall|j: int| 0 <= j < i ==> s[j] != '.',
        i == s.len() || s[i] == '.',
    ensures
        first_segment(s) == s.take(i),
    decreases i,
{
    if i > 0 {
        lemma_first_segment(s.drop_first(), i - 1);
        assert(s.take(i) =~= seq![s[0]] + s.drop_first().take(i - 1));
    } else if s.len() == 0 {
        assert(s.take(0) =~= s);
    } else {
        assert(s.take(0) =~= Seq::<char>::empty());
    }
}

/// The text before the first `.` of `s`.
pub(crate) fn first_segment_of(s: &str) -> (r: &str)
    ensures
        r@ == first_segment(s@),
{
    let n = s.unicode_len();
    let mut i: usize = 0;
    while i < n && s.get_char(i) != '.'
        invariant
            n == s@.len(),
            i <= n,
            forall|j: int| 0 <= j < i ==> s@[j] != '.',
        decreases n - i,
    {
        i = i + 1;
    }
    proof { lemma_first_segment(s@, i as int); }
    s.substring_char(0, i)
}

/// The alias entry that an aliased item adds.
pub open spec fn alias_entry(alias: Option<String>, qc: QualifiedColumn) -> Seq<(String, QualifiedColumn)> {
    match alias {
        Some(a) => seq![(a, qc)],
        None => Seq::empty(),
    }
}

/// The aggregate that `sum`, `min`, `max` or `avg` names.
pub open spec fn scalar_aggregate(name: Seq<char>, qc: QualifiedColumn) -> Option<Aggregate> {
    if name == "sum"@ {
        Some(Aggregate::Sum(qc))
    } else if name == "min"@ {
        Some(Aggregate::Min(qc))
    } else if name == "max"@ {
        Some(Aggregate::Max(qc))
    } else if name == "avg"@ {
        Some(Aggregate::Avg(qc))
    } else {
        None
    }
}

/// What a function call of the projection gives: its aggregate and the
/// alias entry it adds, read against `scope`.
pub open spec fn aggregate_ok<C>(
    column: C,
    scope: Scope,
    call: FunctionCall,
    alias: Option<String>,
    r: Result<(Aggregate, Seq<(String, QualifiedColumn)>), TranslateError>,
) -> bool
    where C: Fn(&PredicateExpr, &Scope) -> Result<QualifiedColumn, TranslateError>,
{
    let first = first_segment(lowercase(call.name@));
    match call.args {
        CallArgs::Subquery => r matches Err(x) && feature_is(x, "function with subquery args unsupported"@),
        CallArgs::List(args) => if args@.len() != 1 {
            r matches Err(x) && feature_is(x, "aggregate takes one argument"@)
        } else if first == "count"@ {
            match args@[0] {
                CallArg::Wildcard => r matches Ok((a, als)) && a matches Aggregate::Count(None) && als.len() == 0,
                CallArg::Expr(e) => match r {
                    Ok((a, als)) => a matches Aggregate::Count(Some(qc)) && column.ensures((&e, &scope), Ok::<QualifiedColumn, TranslateError>(qc))
                        && als == alias_entry(alias, qc),
                    Err(x) => column.ensures((&e, &scope), Err::<QualifiedColumn, TranslateError>(x)),
                },
                CallArg::QualifiedWildcard => r matches Err(x) && feature_is(x, "qualified wildcard in aggregate not supported"@),
                CallArg::Other => r matches Err(x) && feature_is(x, "unsupported COUNT args"@),
            }
        } else if first == "sum"@ || first == "min"@ || first == "max"@ || first == "avg"@ {
            match args@[0] {
                CallArg::Expr(e) => match r {
                    Ok((a, als)) => exists|qc: QualifiedColumn| #[trigger] column.ensures((&e, &scope), Ok::<QualifiedColumn, TranslateError>(qc))
                        && scalar_aggregate(first, qc) == Some(a) && als == alias_entry(alias, qc),
                    Err(x) => column.ensures((&e, &scope), Err::<QualifiedColumn, TranslateError>(x)),
                },
                _ => r matches Err(x) && feature_is(x, "unsupported aggregate arg"@),
            }
        } else {
            r matches Err(x) && feature_is(x, "unsupported function: "@ + first)
        },
    }
}

/// Reads a function call of the projection as an aggregate.
fn parse_aggregate_function<C>(call: &FunctionCall, alias: Option<&String>, column: &C, scope: &Scope) -> (r: Result<(Aggregate, Vec<(String, QualifiedColumn)>), TranslateError>)
    where C: Fn(&PredicateExpr, &Scope) -> Result<QualifiedColumn, TranslateError>,
    requires
        forall|x: &PredicateExpr, y: &Scope| column.requires((x, y)),
    ensures
        match r {
            Ok((a, als)) => aggregate_ok(*column, *scope, *call, match alias { Some(s) => Some(*s), None => None }, Ok((a, als@))),
            Err(x) => aggregate_ok(*column, *scope, *call, match alias { Some(s) => Some(*s), None => None }, Err(x)),
        },
{
    let ghost al = match alias { Some(s) => Some(*s), None => None };
    let lower = to_lowercase(call.name.as_str());
    let first = first_segment_of(lower.as_str());
    let args = match &call.args {
        CallArgs::Subquery => {
            return Err(TranslateError::UnsupportedFeature(String::from_str("function with subquery args unsupported")));
        },
        CallArgs::List(args) => args,
    };
    if args.len() != 1 {
        return Err(TranslateError::UnsupportedFeature(String::from_str("aggregate takes one argument")));
    }
    let mut als: Vec<(String, QualifiedColumn)> = Vec::new();
    if str_eq(first, "count") {
        proof { reveal_strlit("count"); }
        match &args[0] {
            CallArg::Wildcard => Ok((Aggregate::Count(None), als)),
            CallArg::Expr(e) => {
                let qc = column(e, scope)?;
                if let Some(a) = alias {
                    als.push((a.clone(), copy_column(&qc)));
                }
                proof { assert(als@ =~= alias_entry(al, qc)); }
                Ok((Aggregate::Count(Some(qc)), als))
            },
            CallArg::QualifiedWildcard => Err(TranslateError::UnsupportedFeature(
                String::from_str("qualified wildcard in aggregate not supported"),
            )),
            CallArg::Other => Err(TranslateError::UnsupportedFeature(String::from_str("unsupported COUNT args"))),
        }
    } else if str_eq(first, "sum") || str_eq(first, "min") || str_eq(first, "max") || str_eq(first, "avg") {
        proof {
            reveal_strlit("count");
            reveal_strlit("sum");
            reveal_strlit("min");
            reveal_strlit("max");
            reveal_strlit("avg");
        }
        match &args[0] {
            CallArg::Expr(e) => {
                let qc = column(e, scope)?;
                if let Some(a) = alias {
                    als.push((a.clone(), copy_column(&qc)));
                }
                proof { assert(als@ =~= alias_entry(al, qc)); }
                let ghost qc0 = qc;
                let agg = if str_eq(first, "sum") {
                    Aggregate::Sum(qc)
                } else if str_eq(first, "min") {
                    Aggregate::Min(qc)
                } else if str_eq(first, "max") {
                    Aggregate::Max(qc)
                } else {
                    Aggregate::Avg(qc)
                };
                proof { assert(scalar_aggregate(first@, qc0) == Some(agg)); }
                Ok((agg, als))
            },
            _ => Err(TranslateError::UnsupportedFeature(String::from_str("unsupported aggregate arg"))),
        }
    } else {
        proof {
            reveal_strlit("count");
            reveal_strlit("sum");
            reveal_strlit("min");
            reveal_strlit("max");
            reveal_strlit("avg");
        }
        Err(TranslateError::UnsupportedFeature(concat("unsupported function: ", first)))
    }
}

// ---------------------------------------------------------------------------
// Projection

/// The table a qualified wildcard names: the table of the alias, or the
/// name as written.
pub open spec fn wildcard_table(scope: Scope, parts: Seq<String>) -> Seq<char> {
    let raw = join_spec(string_views(parts), "."@);
    match alias_target(alias_views(scope.aliases@), raw) {
        Some(t) => t,
        None => raw,
    }
}

/// What an item of the projection gives: columns, aggregates and alias
/// entries, read against `scope`; a qualified wildcard's table is looked up
/// among the known tables.
pub open spec fn select_item_ok<C>(
    column: C,
    scope: Scope,
    schemas: Seq<EngineTableSchema>,
    item: SelectItem,
    r: Result<(Seq<QualifiedColumn>, Seq<Aggregate>, Seq<(String, QualifiedColumn)>), TranslateError>,
) -> bool
    where C: Fn(&PredicateExpr, &Scope) -> Result<QualifiedColumn, TranslateError>,
{
    match item {
        SelectItem::Wildcard => r matches Ok((cols, aggs, als)) && wildcard_ok(schemas, scope.known@, cols)
            && aggs.len() == 0 && als.len() == 0,
        SelectItem::QualifiedWildcard(parts) => {
            let t = wildcard_table(scope, parts@);
            match known_schema(schemas, scope.known@, t) {
                None => r matches Err(TranslateError::UnknownTable(x)) && x@ == t,
                Some(p) => r matches Ok((cols, aggs, als)) && columns_of(cols, t, schemas[p].columns@.len())
                    && aggs.len() == 0 && als.len() == 0,
            }
        },
        SelectItem::QualifiedWildcardOther => r matches Err(x) && feature_is(x, "unsupported qualified wildcard projection item"@),
        SelectItem::Unnamed(ProjectionExpr::Expr(e)) => match r {
            Ok((cols, aggs, als)) => cols.len() == 1 && column.ensures((&e, &scope), Ok::<QualifiedColumn, TranslateError>(cols[0]))
                && aggs.len() == 0 && als.len() == 0,
            Err(x) => column.ensures((&e, &scope), Err::<QualifiedColumn, TranslateError>(x)),
        },
        SelectItem::Aliased(ProjectionExpr::Expr(e), a) => match r {
            Ok((cols, aggs, als)) => cols.len() == 1 && column.ensures((&e, &scope), Ok::<QualifiedColumn, TranslateError>(cols[0]))
                && aggs.len() == 0 && als == seq![(a, cols[0])],
            Err(x) => column.ensures((&e, &scope), Err::<QualifiedColumn, TranslateError>(x)),
        },
        SelectItem::Unnamed(ProjectionExpr::Call(c)) => match r {
            Ok((cols, aggs, als)) => cols.len() == 0 && aggs.len() == 1 && aggregate_ok(column, scope, c, None, Ok((aggs[0], als))),
            Err(x) => aggregate_ok(column, scope, c, None, Err(x)),
        },
        SelectItem::Aliased(ProjectionExpr::Call(c), a) => match r {
            Ok((cols, aggs, als)) => cols.len() == 0 && aggs.len() == 1 && aggregate_ok(column, scope, c, Some(a), Ok((aggs[0], als))),
            Err(x) => aggregate_ok(column, scope, c, Some(a), Err(x)),
        },
    }
}

/// Reads an item of the projection, appending what it gives.
fn parse_projection_item<C>(
    item: &SelectItem,
    scope: &Scope,
    schemas: &Vec<EngineTableSchema>,
    column: &C,
    cols: &mut Vec<QualifiedColumn>,
    aggs: &mut Vec<Aggregate>,
    als: &mut Vec<(String, QualifiedColumn)>,
) -> (r: Result<(), TranslateError>)
    where C: Fn(&PredicateExpr, &Scope) -> Result<QualifiedColumn, TranslateError>,
    requires
        forall|x: &PredicateExpr, y: &Scope| column.requires((x, y)),
    ensures
        match r {
            Ok(()) => exists|c: Seq<QualifiedColumn>, g: Seq<Aggregate>, a: Seq<(String, QualifiedColumn)>| {
                &&& #[trigger] select_item_ok(*column, *scope, schemas@, *item, Ok((c, g, a)))
                &&& final(cols)@ == old(cols)@ + c
                &&& final(aggs)@ == old(aggs)@ + g
                &&& final(als)@ == old(als)@ + a
            },
            Err(x) => select_item_ok(*column, *scope, schemas@, *item, Err(x)),
        },
{
    match item {
        SelectItem::Wildcard => {
            let mut w = wildcard_columns(schemas, &scope.known);
            let ghost c = w@;
            cols.append(&mut w);
            proof {
                assert(aggs@ =~= old(aggs)@ + Seq::<Aggregate>::empty());
                assert(als@ =~= old(als)@ + Seq::<(String, QualifiedColumn)>::empty());
                assert(select_item_ok(*column, *scope, schemas@, *item, Ok((c, Seq::<Aggregate>::empty(), Seq::<(String, QualifiedColumn)>::empty()))));
            }
            Ok(())
        },
        SelectItem::QualifiedWildcard(parts) => {
            let raw = join(parts, ".");
            let table_name = match lookup_alias(&scope.aliases, raw.as_str()) {
                Some(t) => t,
                None => raw,
            };
            let p = match lookup_known(schemas, &scope.known, table_name.as_str()) {
                Some(p) => p,
                None => return Err(TranslateError::UnknownTable(table_name)),
            };
            proof { crate::engine_joins::lemma_known_schema_bound(schemas@, scope.known@, table_name@); }
            let ghost before = cols@;
            push_table_columns(cols, &table_name, schemas[p].columns.len());
            proof {
                let c = cols@.skip(before.len() as int);
                assert(cols@ =~= before + c);
                assert(aggs@ =~= old(aggs)@ + Seq::<Aggregate>::empty());
                assert(als@ =~= old(als)@ + Seq::<(String, QualifiedColumn)>::empty());
                assert(select_item_ok(*column, *scope, schemas@, *item, Ok((c, Seq::<Aggregate>::empty(), Seq::<(String, QualifiedColumn)>::empty()))));
            }
            Ok(())
        },
        SelectItem::QualifiedWildcardOther => Err(TranslateError::UnsupportedFeature(
            String::from_str("unsupported qualified wildcard projection item"),
        )),
        SelectItem::Unnamed(ProjectionExpr::Expr(e)) => {
            let qc = column(e, scope)?;
            let ghost q0 = qc;
            cols.push(qc);
            proof {
                assert(cols@ =~= old(cols)@ + seq![q0]);
                assert(aggs@ =~= old(aggs)@ + Seq::<Aggregate>::empty());
                assert(als@ =~= old(als)@ + Seq::<(String, QualifiedColumn)>::empty());
                assert(select_item_ok(*column, *scope, schemas@, *item, Ok((seq![q0], Seq::<Aggregate>::empty(), Seq::<(String, QualifiedColumn)>::empty()))));
            }
            Ok(())
        },
        SelectItem::Aliased(ProjectionExpr::Expr(e), a) => {
            let qc = column(e, scope)?;
            let ghost q0 = qc;
            als.push((a.clone(), copy_column(&qc)));
            cols.push(qc);
            proof {
                assert(cols@ =~= old(cols)@ + seq![q0]);
                assert(aggs@ =~= old(aggs)@ + Seq::<Aggregate>::empty());
                assert(als@ =~= old(als)@ + seq![(*a, q0)]);
                assert(select_item_ok(*column, *scope, schemas@, *item, Ok((seq![q0], Seq::<Aggregate>::empty(), seq![(*a, q0)]))));
            }
            Ok(())
        },
        SelectItem::Unnamed(ProjectionExpr::Call(c)) => {
            let (agg, mut more) = parse_aggregate_function(c, None, column, scope)?;
            let ghost g0 = agg;
            let ghost m0 = more@;
            aggs.push(agg);
            als.append(&mut more);
            proof {
                assert(cols@ =~= old(cols)@ + Seq::<QualifiedColumn>::empty());
                assert(aggs@ =~= old(aggs)@ + seq![g0]);
                assert(select_item_ok(*column, *scope, schemas@, *item, Ok((Seq::<QualifiedColumn>::empty(), seq![g0], m0))));
            }
            Ok(())
        },
        SelectItem::Aliased(ProjectionExpr::Call(c), a) => {
            let (agg, mut more) = parse_aggregate_function(c, Some(a), column, scope)?;
            let ghost g0 = agg;
            let ghost m0 = more@;
            aggs.push(agg);
            als.append(&mut more);
            proof {
                assert(cols@ =~= old(cols)@ + Seq::<QualifiedColumn>::empty());
                assert(aggs@ =~= old(aggs)@ + seq![g0]);
                assert(select_item_ok(*column, *scope, schemas@, *item, Ok((Seq::<QualifiedColumn>::empty(), seq![g0], m0))));
            }
            Ok(())
        },
    }
}

/// Item `i` of the projection can be read.
pub open spec fn select_item_succeeds<C>(column: C, scope: Scope, schemas: Seq<EngineTableSchema>, item: SelectItem) -> bool
    where C: Fn(&PredicateExpr, &Scope) -> Result<QualifiedColumn, TranslateError>,
{
    exists|c: Seq<QualifiedColumn>, g: Seq<Aggregate>, a: Seq<(String, QualifiedColumn)>| #[trigger] select_item_ok(column, scope, schemas, item, Ok((c, g, a)))
}

/// `cols`, `aggs` and `als` are what the items of a projection give, read
/// in order and joined: `pc`, `pg` and `pa` are each item's part.
pub open spec fn projection_parts<C>(
    column: C,
    scope: Scope,
    schemas: Seq<EngineTableSchema>,
    items: Seq<SelectItem>,
    pc: Seq<Seq<QualifiedColumn>>,
    pg: Seq<Seq<Aggregate>>,
    pa: Seq<Seq<(String, QualifiedColumn)>>,
) -> bool
    where C: Fn(&PredicateExpr, &Scope) -> Result<QualifiedColumn, TranslateError>,
{
    &&& pc.len() == items.len()
    &&& pg.len() == items.len()
    &&& pa.len() == items.len()
    &&& forall|i: int| 0 <= i < items.len() ==> #[trigger] select_item_ok(column, scope, schemas, items[i], Ok((pc[i], pg[i], pa[i])))
}

/// The projection reads to the columns `cols`, the aggregates `aggs` and
/// the alias entries `als`.
pub open spec fn projection_result<C>(
    column: C,
    scope: Scope,
    schemas: Seq<EngineTableSchema>,
    items: Seq<SelectItem>,
    cols: Seq<QualifiedColumn>,
    aggs: Seq<Aggregate>,
    als: Seq<(String, QualifiedColumn)>,
) -> bool
    where C: Fn(&PredicateExpr, &Scope) -> Result<QualifiedColumn, TranslateError>,
{
    exists|pc: Seq<Seq<QualifiedColumn>>, pg: Seq<Seq<Aggregate>>, pa: Seq<Seq<(String, QualifiedColumn)>>| {
        &&& #[trigger] projection_parts(column, scope, schemas, items, pc, pg, pa)
        &&& cols == pc.flatten()
        &&& aggs == pg.flatten()
        &&& als == pa.flatten()
    }
}

/// `x` is the error of the first item of the projection that fails.
pub open spec fn projection_failure<C>(column: C, scope: Scope, schemas: Seq<EngineTableSchema>, items: Seq<SelectItem>, x: TranslateError) -> bool
    where C: Fn(&PredicateExpr, &Scope) -> Result<QualifiedColumn, TranslateError>,
{
    exists|i: int| {
        &&& 0 <= i < items.len()
        &&& forall|k: int| 0 <= k < i ==> #[trigger] select_item_succeeds(column, scope, schemas, items[k])
        &&& #[trigger] select_item_ok(column, scope, schemas, items[i], Err(x))
    }
}

/// Reads the projection of a query: its columns, its aggregates and the
/// columns its aliases name.
pub fn parse_projection<C>(
    items: &Vec<SelectItem>,
    scope: &Scope,
    schemas: &Vec<EngineTableSchema>,
    column: &C,
) -> (r: Result<(Vec<QualifiedColumn>, Vec<Aggregate>, Vec<(String, QualifiedColumn)>), TranslateError>)
    where C: Fn(&PredicateExpr, &Scope) -> Result<QualifiedColumn, TranslateError>,
    requires
        forall|x: &PredicateExpr, y: &Scope| column.requires((x, y)),
    ensures
        match r {
            Ok((cols, aggs, als)) => projection_result(*column, *scope, schemas@, items@, cols@, aggs@, als@),
            Err(x) => projection_failure(*column, *scope, schemas@, items@, x),
        },
{
    let mut cols: Vec<QualifiedColumn> = Vec::new();
    let mut aggs: Vec<Aggregate> = Vec::new();
    let mut als: Vec<(String, QualifiedColumn)> = Vec::new();
    let ghost mut pc: Seq<Seq<QualifiedColumn>> = Seq::empty();
    let ghost mut pg: Seq<Seq<Aggregate>> = Seq::empty();
    let ghost mut pa: Seq<Seq<(String, QualifiedColumn)>> = Seq::empty();
    let mut i: usize = 0;
    while i < items.len()
        invariant
            i <= items@.len(),
            forall|x: &PredicateExpr, y: &Scope| column.requires((x, y)),
            projection_parts(*column, *scope, schemas@, items@.take(i as int), pc, pg, pa),
            cols@ == pc.flatten(),
            aggs@ == pg.flatten(),
            als@ == pa.flatten(),
        decreases items.len() - i,
    {
        let ghost c0 = cols@;
        let ghost g0 = aggs@;
        let ghost a0 = als@;
        match parse_projection_item(&items[i], scope, schemas, column, &mut cols, &mut aggs, &mut als) {
            Ok(()) => {},
            Err(x) => {
                proof {
                    assert forall|k: int| 0 <= k < i implies #[trigger] select_item_succeeds(*column, *scope, schemas@, items@[k]) by {
                        assert(items@.take(i as int)[k] == items@[k]);
                        assert(select_item_ok(*column, *scope, schemas@, items@.take(i as int)[k], Ok((pc[k], pg[k], pa[k]))));
                    }
                    assert(select_item_ok(*column, *scope, schemas@, items@[i as int], Err(x)));
                }
                return Err(x);
            },
        }
        proof {
            let (c, g, a) = choose|c: Seq<QualifiedColumn>, g: Seq<Aggregate>, a: Seq<(String, QualifiedColumn)>| {
                &&& #[trigger] select_item_ok(*column, *scope, schemas@, items@[i as int], Ok((c, g, a)))
                &&& cols@ == c0 + c
                &&& aggs@ == g0 + g
                &&& als@ == a0 + a
            };
            pc.lemma_flatten_push(c);
            pg.lemma_flatten_push(g);
            pa.lemma_flatten_push(a);
            let ghost old_pc = pc;
            let ghost old_pg = pg;
            let ghost old_pa = pa;
            pc = pc.push(c);
            pg = pg.push(g);
            pa = pa.push(a);
            let t = items@.take(i as int + 1);
            assert forall|k: int| 0 <= k < t.len() implies #[trigger] select_item_ok(*column, *scope, schemas@, t[k], Ok((pc[k], pg[k], pa[k]))) by {
                if k < i {
                    assert(items@.take(i as int)[k] == t[k]);
                    assert(pc[k] == old_pc[k]);
                    assert(pg[k] == old_pg[k]);
                    assert(pa[k] == old_pa[k]);
                }
            }
        }
        i = i + 1;
    }
    proof {
        assert(items@.take(items@.len() as int) =~= items@);
    }
    Ok((cols, aggs, als))
}

// ---------------------------------------------------------------------------
// GROUP BY, ORDER BY, LIMIT

/// A parsed `GROUP BY`: expressions (none where the clause is missing), or `ALL`.
#[derive(Debug)]
pub enum GroupBy {
    Expressions(Vec<PredicateExpr>),
    All,
}

/// A sort key as written: the expression and `ASC` (`Some(true)`), `DESC`
/// (`Some(false)`) or neither.
#[derive(Debug)]
pub struct OrderByExpr {
    pub expr: PredicateExpr,
    pub asc: Option<bool>,
}

/// A parsed `ORDER BY`: its keys, or `ALL`.
#[derive(Debug)]
pub enum OrderByKind {
    Expressions(Vec<OrderByExpr>),
    All,
}

/// A `LIMIT` or `OFFSET` value: a number by its text, another literal, or
/// another expression.
#[derive(Debug)]
pub enum LimitExpr {
    Number(String),
    Value,
    Other,
}

/// A parsed `LIMIT` clause: `LIMIT n OFFSET m` (either part optional), or
/// `LIMIT m, n`.
#[derive(Debug)]
pub enum LimitClause {
    LimitOffset { limit: Option<LimitExpr>, offset: Option<LimitExpr> },
    OffsetCommaLimit { offset: LimitExpr, limit: LimitExpr },
}

/// The column reader gives a column for `e`.
pub open spec fn column_succeeds<C>(column: C, scope: Scope, e: PredicateExpr) -> bool
    where C: Fn(&PredicateExpr, &Scope) -> Result<QualifiedColumn, TranslateError>,
{
    exists|qc: QualifiedColumn| #[trigger] column.ensures((&e, &scope), Ok::<QualifiedColumn, TranslateError>(qc))
}

/// Expression `i` of `es` is the first that the column reader fails on, with `x`.
pub open spec fn column_err_at<C>(column: C, scope: Scope, es: Seq<PredicateExpr>, x: TranslateError, i: int) -> bool
    where C: Fn(&PredicateExpr, &Scope) -> Result<QualifiedColumn, TranslateError>,
{
    &&& 0 <= i < es.len()
    &&& forall|k: int| 0 <= k < i ==> #[trigger] column_succeeds(column, scope, es[k])
    &&& column.ensures((&es[i], &scope), Err::<QualifiedColumn, TranslateError>(x))
}

/// What a `GROUP BY` gives: each expression read as a column, in order, or
/// the error of the first that fails.
pub open spec fn group_by_ok<C>(column: C, scope: Scope, g: GroupBy, r: Result<Seq<QualifiedColumn>, TranslateError>) -> bool
    where C: Fn(&PredicateExpr, &Scope) -> Result<QualifiedColumn, TranslateError>,
{
    match g {
        GroupBy::All => r matches Err(x) && feature_is(x, "GROUP BY ALL not supported"@),
        GroupBy::Expressions(es) => match r {
            Ok(v) => v.len() == es@.len() && forall|i: int| 0 <= i < v.len() ==>
                column.ensures((&es@[i], &scope), Ok::<QualifiedColumn, TranslateError>(#[trigger] v[i])),
            Err(x) => exists|i: int| #[trigger] column_err_at(column, scope, es@, x, i),
        },
    }
}

/// Reads a `GROUP BY`.
pub fn parse_group_by<C>(group_by: &GroupBy, scope: &Scope, column: &C) -> (r: Result<Vec<QualifiedColumn>, TranslateError>)
    where C: Fn(&PredicateExpr, &Scope) -> Result<QualifiedColumn, TranslateError>,
    requires
        forall|x: &PredicateExpr, y: &Scope| column.requires((x, y)),
    ensures
        match r {
            Ok(v) => group_by_ok(*column, *scope, *group_by, Ok(v@)),
            Err(x) => group_by_ok(*column, *scope, *group_by, Err(x)),
        },
{
    let es = match group_by {
        GroupBy::All => return Err(TranslateError::UnsupportedFeature(String::from_str("GROUP BY ALL not supported"))),
        GroupBy::Expressions(es) => es,
    };
    proof { assert(*group_by == GroupBy::Expressions(*es)); }
    let mut out: Vec<QualifiedColumn> = Vec::new();
    let mut i: usize = 0;
    while i < es.len()
        invariant
            i <= es@.len(),
            forall|x: &PredicateExpr, y: &Scope| column.requires((x, y)),
            out@.len() == i,
            forall|k: int| 0 <= k < i ==> column.ensures((&es@[k], scope), Ok::<QualifiedColumn, TranslateError>(#[trigger] out@[k])),
            *group_by == GroupBy::Expressions(*es),
        decreases es.len() - i,
    {
        match column(&es[i], scope) {
            Ok(qc) => out.push(qc),
            Err(x) => {
                proof {
                    assert forall|k: int| 0 <= k < i implies #[trigger] column_succeeds(*column, *scope, es@[k]) by {
                        assert(column.ensures((&es@[k], scope), Ok::<QualifiedColumn, TranslateError>(out@[k])));
                    }
                    assert(column.ensures((&es@[i as int], scope), Err::<QualifiedColumn, TranslateError>(x)));
                    assert(column_err_at(*column, *scope, es@, x, i as int));
                    assert(group_by_ok(*column, *scope, *group_by, Err(x)));
                }
                return Err(x);
            },
        }
        i = i + 1;
    }
    Ok(out)
}

/// The column that the projection alias `name` stands for: the last entry
/// under that name.
pub open spec fn alias_column(als: Seq<(String, QualifiedColumn)>, name: Seq<char>) -> Option<QualifiedColumn>
    decreases als.len(),
{
    if als.len() == 0 {
        None
    } else if als.last().0@ == name {
        Some(als.last().1)
    } else {
        alias_column(als.drop_last(), name)
    }
}

/// Looks up a projection alias.
pub(crate) fn lookup_alias_column(als: &Vec<(String, QualifiedColumn)>, name: &str) -> (r: Option<QualifiedColumn>)
    ensures
        r == alias_column(als@, name@),
{
    let mut i: usize = als.len();
    proof { assert(als@.take(i as int) =~= als@); }
    while i > 0
        invariant
            i <= als@.len(),
            alias_column(als@, name@) == alias_column(als@.take(i as int), name@),
        decreases i,
    {
        proof {
            let t = als@.take(i as int);
            assert(t.drop_last() =~= als@.take(i - 1));
        }
        if str_eq(als[i - 1].0.as_str(), name) {
            return Some(copy_column(&als[i - 1].1));
        }
        i = i - 1;
    }
    None
}

pub open spec fn direction_of(asc: Option<bool>) -> SortDirection {
    match asc {
        Some(false) => SortDirection::Desc,
        _ => SortDirection::Asc,
    }
}

/// What a sort key gives: a bare name that a projection alias holds stands
/// for that alias's column; other names are read by the column reader.
pub open spec fn order_item_ok<C>(column: C, scope: Scope, als: Seq<(String, QualifiedColumn)>, o: OrderByExpr, r: Result<OrderBy, TranslateError>) -> bool
    where C: Fn(&PredicateExpr, &Scope) -> Result<QualifiedColumn, TranslateError>,
{
    let read = match r {
        Ok(ob) => column.ensures((&o.expr, &scope), Ok::<QualifiedColumn, TranslateError>(ob.expr)) && ob.direction == direction_of(o.asc),
        Err(x) => column.ensures((&o.expr, &scope), Err::<QualifiedColumn, TranslateError>(x)),
    };
    match o.expr {
        PredicateExpr::Identifier(n) => match alias_column(als, n@) {
            Some(qc) => r matches Ok(ob) && ob.expr == qc && ob.direction == direction_of(o.asc),
            None => read,
        },
        PredicateExpr::CompoundIdentifier(_) => read,
        _ => r matches Err(x) && feature_is(x, "unsupported ORDER BY expression"@),
    }
}

pub open spec fn order_item_succeeds<C>(column: C, scope: Scope, als: Seq<(String, QualifiedColumn)>, o: OrderByExpr) -> bool
    where C: Fn(&PredicateExpr, &Scope) -> Result<QualifiedColumn, TranslateError>,
{
    exists|ob: OrderBy| #[trigger] order_item_ok(column, scope, als, o, Ok(ob))
}

/// Key `i` of `es` is the first that fails, with `x`.
pub open spec fn order_err_at<C>(column: C, scope: Scope, als: Seq<(String, QualifiedColumn)>, es: Seq<OrderByExpr>, x: TranslateError, i: int) -> bool
    where C: Fn(&PredicateExpr, &Scope) -> Result<QualifiedColumn, TranslateError>,
{
    &&& 0 <= i < es.len()
    &&& forall|k: int| 0 <= k < i ==> #[trigger] order_item_succeeds(column, scope, als, es[k])
    &&& order_item_ok(column, scope, als, es[i], Err(x))
}

/// What the keys of an `ORDER BY` give.
pub open spec fn order_keys_ok<C>(column: C, scope: Scope, als: Seq<(String, QualifiedColumn)>, kind: OrderByKind, r: Result<Seq<OrderBy>, TranslateError>) -> bool
    where C: Fn(&PredicateExpr, &Scope) -> Result<QualifiedColumn, TranslateError>,
{
    match kind {
        OrderByKind::All => r matches Err(x) && feature_is(x, "ORDER BY ALL not supported"@),
        OrderByKind::Expressions(es) => match r {
            Ok(v) => v.len() == es@.len() && forall|i: int| 0 <= i < v.len() ==> order_item_ok(column, scope, als, es@[i], Ok(#[trigger] v[i])),
            Err(x) => order_failure(column, scope, als, es@, x),
        },
    }
}

/// `x` is the error of the first key of `es` that fails.
pub open spec fn order_failure<C>(column: C, scope: Scope, als: Seq<(String, QualifiedColumn)>, es: Seq<OrderByExpr>, x: TranslateError) -> bool
    where C: Fn(&PredicateExpr, &Scope) -> Result<QualifiedColumn, TranslateError>,
{
    exists|i: int| #[trigger] order_err_at(column, scope, als, es, x, i)
}

proof fn lemma_order_err<C>(column: C, scope: Scope, als: Seq<(String, QualifiedColumn)>, es: Vec<OrderByExpr>, x: TranslateError, i: int)
    where C: Fn(&PredicateExpr, &Scope) -> Result<QualifiedColumn, TranslateError>,
    requires
        order_err_at(column, scope, als, es@, x, i),
    ensures
        order_keys_ok(column, scope, als, OrderByKind::Expressions(es), Err(x)),
{
    assert(order_failure(column, scope, als, es@, x));
}

/// What an `ORDER BY` gives: each key, in order, or the error of the first
/// key that fails.
pub open spec fn order_by_ok<C>(column: C, scope: Scope, als: Seq<(String, QualifiedColumn)>, order: Option<OrderByKind>, r: Result<Seq<OrderBy>, TranslateError>) -> bool
    where C: Fn(&PredicateExpr, &Scope) -> Result<QualifiedColumn, TranslateError>,
{
    match order {
        None => r matches Ok(v) && v.len() == 0,
        Some(kind) => order_keys_ok(column, scope, als, kind, r),
    }
}

fn parse_order_item<C>(o: &OrderByExpr, scope: &Scope, als: &Vec<(String, QualifiedColumn)>, column: &C) -> (r: Result<OrderBy, TranslateError>)
    where C: Fn(&PredicateExpr, &Scope) -> Result<QualifiedColumn, TranslateError>,
    requires
        forall|x: &PredicateExpr, y: &Scope| column.requires((x, y)),
    ensures
        order_item_ok(*column, *scope, als@, *o, r),
{
    let direction = match o.asc {
        Some(false) => SortDirection::Desc,
        _ => SortDirection::Asc,
    };
    let qc = match &o.expr {
        PredicateExpr::Identifier(n) => match lookup_alias_column(als, n.as_str()) {
            Some(qc) => qc,
            None => column(&o.expr, scope)?,
        },
        PredicateExpr::CompoundIdentifier(_) => column(&o.expr, scope)?,
        _ => return Err(TranslateError::UnsupportedFeature(String::from_str("unsupported ORDER BY expression"))),
    };
    Ok(OrderBy { expr: qc, direction })
}

/// Reads an `ORDER BY`, a bare name standing for a projection alias where
/// `als` holds one.
pub fn parse_order_by<C>(order: &Option<OrderByKind>, scope: &Scope, als: &Vec<(String, QualifiedColumn)>, column: &C) -> (r: Result<Vec<OrderBy>, TranslateError>)
    where C: Fn(&PredicateExpr, &Scope) -> Result<QualifiedColumn, TranslateError>,
    requires
        forall|x: &PredicateExpr, y: &Scope| column.requires((x, y)),
    ensures
        match r {
            Ok(v) => order_by_ok(*column, *scope, als@, *order, Ok(v@)),
            Err(x) => order_by_ok(*column, *scope, als@, *order, Err(x)),
        },
{
    let mut out: Vec<OrderBy> = Vec::new();
    let es = match order {
        None => return Ok(out),
        Some(OrderByKind::All) => return Err(TranslateError::UnsupportedFeature(String::from_str("ORDER BY ALL not supported"))),
        Some(OrderByKind::Expressions(es)) => es,
    };
    proof { assert(*order == Some(OrderByKind::Expressions(*es))); }
    let mut i: usize = 0;
    while i < es.len()
        invariant
            i <= es@.len(),
            forall|x: &PredicateExpr, y: &Scope| column.requires((x, y)),
            out@.len() == i,
            forall|k: int| 0 <= k < i ==> order_item_ok(*column, *scope, als@, es@[k], Ok(#[trigger] out@[k])),
            *order == Some(OrderByKind::Expressions(*es)),
        decreases es.len() - i,
    {
        match parse_order_item(&es[i], scope, als, column) {
            Ok(ob) => out.push(ob),
            Err(x) => {
                proof {
                    assert forall|k: int| 0 <= k < i implies #[trigger] order_item_succeeds(*column, *scope, als@, es@[k]) by {
                        assert(order_item_ok(*column, *scope, als@, es@[k], Ok(out@[k])));
                    }
                    assert(order_item_ok(*column, *scope, als@, es@[i as int], Err(x)));
                    assert(order_err_at(*column, *scope, als@, es@, x, i as int));
                    lemma_order_err(*column, *scope, als@, *es, x, i as int);
                }
                return Err(x);
            },
        }
        i = i + 1;
    }
    Ok(out)
}

/// What a `LIMIT` or `OFFSET` value gives, `label` naming which.
pub open spec fn limit_value(e: LimitExpr, label: Seq<char>) -> Result<usize, Seq<char>> {
    match e {
        LimitExpr::Number(s) => match parse_usize_spec(s@) {
            Some(n) => Ok(n),
            None => Err("invalid "@ + label + " value"@),
        },
        _ => Err("unsupported "@ + label + " expression"@),
    }
}

/// What a `LIMIT` clause gives: the limit and the offset, or the message of
/// the first value that fails.
pub open spec fn limit_spec(lc: Option<LimitClause>) -> Result<(Option<usize>, Option<usize>), Seq<char>> {
    match lc {
        None => Ok((None, None)),
        Some(LimitClause::LimitOffset { limit, offset }) => {
            let l = match limit {
                None => Ok(None),
                Some(e) => match limit_value(e, "LIMIT"@) { Ok(n) => Ok(Some(n)), Err(m) => Err(m) },
            };
            match l {
                Err(m) => Err(m),
                Ok(l) => match offset {
                    None => Ok((l, None)),
                    Some(e) => match limit_value(e, "OFFSET"@) { Ok(n) => Ok((l, Some(n))), Err(m) => Err(m) },
                },
            }
        },
        Some(LimitClause::OffsetCommaLimit { offset, limit }) => match limit_value(offset, "OFFSET"@) {
            Err(m) => Err(m),
            Ok(o) => match limit_value(limit, "LIMIT"@) { Ok(n) => Ok((Some(n), Some(o))), Err(m) => Err(m) },
        },
    }
}

fn parse_limit_or_offset_expr(e: &LimitExpr, label: &str) -> (r: Result<usize, TranslateError>)
    ensures
        match limit_value(*e, label@) {
            Ok(n) => r == Ok::<usize, TranslateError>(n),
            Err(m) => r matches Err(x) && feature_is(x, m),
        },
{
    match e {
        LimitExpr::Number(s) => match parse_usize(s.as_str()) {
            Some(n) => Ok(n),
            None => Err(TranslateError::UnsupportedFeature(concat(concat("invalid ", label).as_str(), " value"))),
        },
        _ => Err(TranslateError::UnsupportedFeature(concat(concat("unsupported ", label).as_str(), " expression"))),
    }
}

/// Reads a `LIMIT` clause into the limit and the offset.
pub fn parse_limit_clause(lc: &Option<LimitClause>) -> (r: Result<(Option<usize>, Option<usize>), TranslateError>)
    ensures
        match limit_spec(*lc) {
            Ok(v) => r == Ok::<(Option<usize>, Option<usize>), TranslateError>(v),
            Err(m) => r matches Err(x) && feature_is(x, m),
        },
{
    proof {
        reveal_strlit("LIMIT");
        reveal_strlit("OFFSET");
    }
    let mut limit_val: Option<usize> = None;
    let mut offset_val: Option<usize> = None;
    match lc {
        None => {},
        Some(LimitClause::LimitOffset { limit, offset }) => {
            if let Some(e) = limit {
                limit_val = Some(parse_limit_or_offset_expr(e, "LIMIT")?);
            }
            if let Some(e) = offset {
                offset_val = Some(parse_limit_or_offset_expr(e, "OFFSET")?);
            }
        },
        Some(LimitClause::OffsetCommaLimit { offset, limit }) => {
            offset_val = Some(parse_limit_or_offset_expr(offset, "OFFSET")?);
            limit_val = Some(parse_limit_or_offset_expr(limit, "LIMIT")?);
        },
    }
    Ok((limit_val, offset_val))
}

// ---------------------------------------------------------------------------
// The query

/// A parsed `SELECT`: its FROM items, projection, `GROUP BY`, `ORDER BY`,
/// `LIMIT`, condition, `HAVING` and whether it is `DISTINCT`.
#[derive(Debug)]
pub struct EngineSelect {
    pub from: Vec<EngineTableWithJoins>,
    pub projection: Vec<SelectItem>,
    pub group_by: GroupBy,
    pub order_by: Option<OrderByKind>,
    pub limit: Option<LimitClause>,
    pub selection: Option<PredicateExpr>,
    pub having: Option<HavingExpr>,
    pub distinct: bool,
}

/// The clauses of a full query.
#[derive(Debug)]
pub struct SelectOptions {
    pub joins: Vec<JoinClause>,
    pub aggregates: Vec<Aggregate>,
    pub group_by: Vec<QualifiedColumn>,
    pub order_by: Vec<OrderBy>,
    pub limit: Option<usize>,
    pub offset: Option<usize>,
    pub distinct: bool,
    pub having: Option<HavingPredicate>,
}

/// What the engine runs for a `SELECT`: a read of some columns of one
/// table, by their positions, or a full query.
#[derive(Debug)]
pub enum SelectQuery<Q> {
    Simple { table: String, projection: Vec<usize>, predicate: Option<QualifiedPredicate<Q>> },
    Full { table: String, projection: Vec<QualifiedColumn>, predicate: Option<QualifiedPredicate<Q>>, options: SelectOptions },
}

/// The parts of a `SELECT` after its FROM item, read against `scope`, with
/// `av` the alias entries of its projection.
pub open spec fn select_rest_parts<C, V, S, Q>(
    column: C,
    scope: Scope,
    value: V,
    subquery: S,
    sel: EngineSelect,
    schemas: Seq<EngineTableSchema>,
    proj: Seq<QualifiedColumn>,
    pred: Option<QualifiedPredicate<Q>>,
    o: SelectOptions,
    av: Vec<(String, QualifiedColumn)>,
) -> bool
    where
        C: Fn(&PredicateExpr, &Scope) -> Result<QualifiedColumn, TranslateError>,
        V: Fn(&PredicateExpr) -> Result<EngineValue, TranslateError>,
        S: Fn(&String) -> Result<Q, TranslateError>,
{
    &&& projection_result(column, scope, schemas, sel.projection@, proj, o.aggregates@, av@)
    &&& group_by_ok(column, scope, sel.group_by, Ok(o.group_by@))
    &&& order_by_ok(column, scope, av@, sel.order_by, Ok(o.order_by@))
    &&& limit_spec(sel.limit) == Ok::<(Option<usize>, Option<usize>), Seq<char>>((o.limit, o.offset))
    &&& o.distinct == sel.distinct
    &&& match sel.selection {
        None => pred is None,
        Some(e) => pred matches Some(pr) && predicate_ok(column, scope, value, subquery, e, Ok(pr)),
    }
    &&& match sel.having {
        None => o.having is None,
        Some(h) => o.having matches Some(hp) && having_ok(column, value, scope, o.aggregates@, av@, h, Ok(hp)),
    }
}

/// The parts of a `SELECT` after its FROM item are `proj`, `pred` and `o`.
pub open spec fn select_rest_ok<C, V, S, Q>(
    column: C,
    scope: Scope,
    value: V,
    subquery: S,
    sel: EngineSelect,
    schemas: Seq<EngineTableSchema>,
    proj: Seq<QualifiedColumn>,
    pred: Option<QualifiedPredicate<Q>>,
    o: SelectOptions,
) -> bool
    where
        C: Fn(&PredicateExpr, &Scope) -> Result<QualifiedColumn, TranslateError>,
        V: Fn(&PredicateExpr) -> Result<EngineValue, TranslateError>,
        S: Fn(&String) -> Result<Q, TranslateError>,
{
    exists|av: Vec<(String, QualifiedColumn)>| #[trigger] select_rest_parts(column, scope, value, subquery, sel, schemas, proj, pred, o, av)
}

/// Once its projection gave `cols`, `aggs` and `av` and its `GROUP BY`
/// gave `gb`, a `SELECT` fails with `x`: in its `ORDER BY`, else its
/// `LIMIT`, else its condition, else its `HAVING`.
pub open spec fn after_group_err<C, V, S, Q>(
    column: C,
    scope: Scope,
    value: V,
    subquery: S,
    sel: EngineSelect,
    aggs: Vec<Aggregate>,
    av: Vec<(String, QualifiedColumn)>,
    gb: Vec<QualifiedColumn>,
    x: TranslateError,
) -> bool
    where
        C: Fn(&PredicateExpr, &Scope) -> Result<QualifiedColumn, TranslateError>,
        V: Fn(&PredicateExpr) -> Result<EngineValue, TranslateError>,
        S: Fn(&String) -> Result<Q, TranslateError>,
{
    &&& group_by_ok(column, scope, sel.group_by, Ok(gb@))
    &&& {
        ||| order_by_ok(column, scope, av@, sel.order_by, Err(x))
        ||| (exists|ob: Seq<OrderBy>| #[trigger] order_by_ok(column, scope, av@, sel.order_by, Ok(ob))) && {
            ||| (limit_spec(sel.limit) matches Err(m) && feature_is(x, m))
            ||| limit_spec(sel.limit) is Ok && {
                ||| selection_err::<C, V, S, Q>(column, scope, value, subquery, sel.selection, x)
                ||| selection_succeeds::<C, V, S, Q>(column, scope, value, subquery, sel.selection)
                    && (sel.having matches Some(h) && having_ok(column, value, scope, aggs@, av@, h, Err(x)))
            }
        }
    }
}

/// Once its projection gave `cols`, `aggs` and `av`, a `SELECT` fails with
/// `x`: in its `GROUP BY`, or later.
pub open spec fn after_projection_err<C, V, S, Q>(
    column: C,
    scope: Scope,
    value: V,
    subquery: S,
    sel: EngineSelect,
    schemas: Seq<EngineTableSchema>,
    cols: Seq<QualifiedColumn>,
    aggs: Vec<Aggregate>,
    av: Vec<(String, QualifiedColumn)>,
    x: TranslateError,
) -> bool
    where
        C: Fn(&PredicateExpr, &Scope) -> Result<QualifiedColumn, TranslateError>,
        V: Fn(&PredicateExpr) -> Result<EngineValue, TranslateError>,
        S: Fn(&String) -> Result<Q, TranslateError>,
{
    &&& projection_result(column, scope, schemas, sel.projection@, cols, aggs@, av@)
    &&& {
        ||| group_by_ok(column, scope, sel.group_by, Err(x))
        ||| exists|gb: Vec<QualifiedColumn>| #[trigger] after_group_err::<C, V, S, Q>(column, scope, value, subquery, sel, aggs, av, gb, x)
    }
}

/// Once its FROM item is read into `scope`, a `SELECT` fails with `x`: in
/// its projection, or later.
pub open spec fn select_rest_err<C, V, S, Q>(
    column: C,
    scope: Scope,
    value: V,
    subquery: S,
    sel: EngineSelect,
    schemas: Seq<EngineTableSchema>,
    x: TranslateError,
) -> bool
    where
        C: Fn(&PredicateExpr, &Scope) -> Result<QualifiedColumn, TranslateError>,
        V: Fn(&PredicateExpr) -> Result<EngineValue, TranslateError>,
        S: Fn(&String) -> Result<Q, TranslateError>,
{
    ||| projection_failure(column, scope, schemas, sel.projection@, x)
    ||| exists|cols: Seq<QualifiedColumn>, aggs: Vec<Aggregate>, av: Vec<(String, QualifiedColumn)>|
        #[trigger] after_projection_err::<C, V, S, Q>(column, scope, value, subquery, sel, schemas, cols, aggs, av, x)
}

/// Reads the parts of a `SELECT` after its FROM item, against `scope`: the
/// projection's columns, the condition, and the clauses (their joins left
/// empty).
fn build_select_rest<C, V, S, Q>(
    sel: &EngineSelect,
    scope: &Scope,
    schemas: &Vec<EngineTableSchema>,
    column: &C,
    value: &V,
    subquery: &S,
) -> (r: Result<(Vec<QualifiedColumn>, Option<QualifiedPredicate<Q>>, SelectOptions), TranslateError>)
    where
        C: Fn(&PredicateExpr, &Scope) -> Result<QualifiedColumn, TranslateError>,
        V: Fn(&PredicateExpr) -> Result<EngineValue, TranslateError>,
        S: Fn(&String) -> Result<Q, TranslateError>,
    requires
        forall|x: &PredicateExpr, y: &Scope| column.requires((x, y)),
        forall|x: &PredicateExpr| value.requires((x,)),
        forall|x: &String| subquery.requires((x,)),
    ensures
        match r {
            Ok((proj, pred, o)) => o.joins@.len() == 0
                && select_rest_ok(*column, *scope, *value, *subquery, *sel, schemas@, proj@, pred, o),
            Err(x) => select_rest_err::<C, V, S, Q>(*column, *scope, *value, *subquery, *sel, schemas@, x),
        },
{
    let (cols, aggs, als) = match parse_projection(&sel.projection, scope, schemas, column) {
        Ok(t) => t,
        Err(x) => return Err(x),
    };
    let gb = match parse_group_by(&sel.group_by, scope, column) {
        Ok(v) => v,
        Err(x) => {
            proof { assert(after_projection_err::<C, V, S, Q>(*column, *scope, *value, *subquery, *sel, schemas@, cols@, aggs, als, x)); }
            return Err(x);
        },
    };
    let ob = match parse_order_by(&sel.order_by, scope, &als, column) {
        Ok(v) => v,
        Err(x) => {
            proof {
                assert(after_group_err::<C, V, S, Q>(*column, *scope, *value, *subquery, *sel, aggs, als, gb, x));
                assert(after_projection_err::<C, V, S, Q>(*column, *scope, *value, *subquery, *sel, schemas@, cols@, aggs, als, x));
            }
            return Err(x);
        },
    };
    let (limit, offset) = match parse_limit_clause(&sel.limit) {
        Ok(v) => v,
        Err(x) => {
            proof {
                assert(order_by_ok(*column, *scope, als@, sel.order_by, Ok(ob@)));
                assert(after_group_err::<C, V, S, Q>(*column, *scope, *value, *subquery, *sel, aggs, als, gb, x));
                assert(after_projection_err::<C, V, S, Q>(*column, *scope, *value, *subquery, *sel, schemas@, cols@, aggs, als, x));
            }
            return Err(x);
        },
    };
    let pred = match &sel.selection {
        None => None,
        Some(e) => match expr_to_qualified_predicate(e, column, scope, value, subquery) {
            Ok(p) => Some(p),
            Err(x) => {
                proof {
                    assert(order_by_ok(*column, *scope, als@, sel.order_by, Ok(ob@)));
                    assert(after_group_err::<C, V, S, Q>(*column, *scope, *value, *subquery, *sel, aggs, als, gb, x));
                    assert(after_projection_err::<C, V, S, Q>(*column, *scope, *value, *subquery, *sel, schemas@, cols@, aggs, als, x));
                }
                return Err(x);
            },
        },
    };
    let hv = match &sel.having {
        None => None,
        Some(h) => match expr_to_having_predicate(h, scope, &aggs, &als, column, value) {
            Ok(v) => Some(v),
            Err(x) => {
                proof {
                    assert(order_by_ok(*column, *scope, als@, sel.order_by, Ok(ob@)));
                    assert(selection_succeeds::<C, V, S, Q>(*column, *scope, *value, *subquery, sel.selection));
                    assert(after_group_err::<C, V, S, Q>(*column, *scope, *value, *subquery, *sel, aggs, als, gb, x));
                    assert(after_projection_err::<C, V, S, Q>(*column, *scope, *value, *subquery, *sel, schemas@, cols@, aggs, als, x));
                }
                return Err(x);
            },
        },
    };
    let options = SelectOptions {
        joins: Vec::new(),
        aggregates: aggs,
        group_by: gb,
        order_by: ob,
        limit,
        offset,
        distinct: sel.distinct,
        having: hv,
    };
    proof {
        assert(select_rest_parts(*column, *scope, *value, *subquery, *sel, schemas@, cols@, pred, options, als));
        assert(select_rest_ok(*column, *scope, *value, *subquery, *sel, schemas@, cols@, pred, options));
    }
    Ok((cols, pred, options))
}

/// The clauses leave the query a read of one table: no joins, aggregates,
/// grouping, sorting, limit, offset or `DISTINCT`.
pub open spec fn options_simple(o: SelectOptions) -> bool {
    &&& o.joins@.len() == 0
    &&& o.aggregates@.len() == 0
    &&& o.group_by@.len() == 0
    &&& o.order_by@.len() == 0
    &&& o.limit is None
    &&& o.offset is None
    &&& !o.distinct
}

/// What a query of `table` with projection `proj`, condition `pred` and
/// clauses `o` becomes: a read of one table, whose projection must then
/// stay within it, or a full query, whose projection is left empty where
/// it aggregates or groups.
pub open spec fn compose_ok<Q>(
    table: Seq<char>,
    proj: Seq<QualifiedColumn>,
    pred: Option<QualifiedPredicate<Q>>,
    o: SelectOptions,
    r: Result<SelectQuery<Q>, TranslateError>,
) -> bool {
    if options_simple(o) {
        if forall|i: int| 0 <= i < proj.len() ==> (#[trigger] proj[i]).table@ == table {
            r matches Ok(SelectQuery::Simple { table: t, projection: p, predicate: pr })
                && t@ == table && pr == pred && p@.len() == proj.len()
                && forall|i: int| 0 <= i < proj.len() ==> #[trigger] p@[i] == proj[i].column_index
        } else {
            r matches Err(x) && feature_is(x, "projection references non-base table but no JOIN present"@)
        }
    } else {
        r matches Ok(SelectQuery::Full { table: t, projection: p, predicate: pr, options: oo })
            && t@ == table && pr == pred && oo == o
            && p@ == (if o.aggregates@.len() > 0 || o.group_by@.len() > 0 { Seq::empty() } else { proj })
    }
}

/// Puts a query together from its parts.
pub fn compose_select_query<Q>(
    table: String,
    proj: Vec<QualifiedColumn>,
    pred: Option<QualifiedPredicate<Q>>,
    options: SelectOptions,
) -> (r: Result<SelectQuery<Q>, TranslateError>)
    ensures
        compose_ok(table@, proj@, pred, options, r),
{
    let simple = options.joins.len() == 0 && options.aggregates.len() == 0 && options.group_by.len() == 0
        && options.order_by.len() == 0 && options.limit.is_none() && options.offset.is_none() && !options.distinct;
    if simple {
        let mut idx: Vec<usize> = Vec::new();
        let mut i: usize = 0;
        while i < proj.len()
            invariant
                i <= proj@.len(),
                idx@.len() == i,
                options_simple(options),
                forall|k: int| 0 <= k < i ==> (#[trigger] proj@[k]).table@ == table@,
                forall|k: int| 0 <= k < i ==> #[trigger] idx@[k] == proj@[k].column_index,
            decreases proj.len() - i,
        {
            if !str_eq(proj[i].table.as_str(), table.as_str()) {
                proof {
                    assert(proj@[i as int].table@ != table@);
                    assert(!(forall|k: int| 0 <= k < proj@.len() ==> (#[trigger] proj@[k]).table@ == table@));
                }
                return Err(TranslateError::UnsupportedFeature(
                    String::from_str("projection references non-base table but no JOIN present"),
                ));
            }
            idx.push(proj[i].column_index);
            i = i + 1;
        }
        Ok(SelectQuery::Simple { table, projection: idx, predicate: pred })
    } else {
        let projection = if options.aggregates.len() > 0 || options.group_by.len() > 0 {
            Vec::new()
        } else {
            proj
        };
        Ok(SelectQuery::Full { table, projection, predicate: pred, options })
    }
}

/// The FROM item `f` was read into `sc`, its joins giving `clauses`.
pub open spec fn select_from_ok<R>(f: EngineTableWithJoins, schemas: Seq<EngineTableSchema>, resolve: R, sc: Scope, clauses: Seq<JoinClause>) -> bool
    where R: Fn(&SqlExpr, &Vec<(String, String)>, &Vec<usize>) -> Result<QualifiedColumn, TranslateError>,
{
    &&& alias_views(sc.aliases@) == item_aliases(f)
    &&& sc.known@ == item_known(schemas, f)
    &&& item_static_ok(schemas, f)
    &&& item_clauses_ok(f, clauses, schemas, Seq::empty(), Seq::empty(), resolve)
}

/// The parts of a `SELECT` whose FROM item is `f`, read into `sc`.
pub open spec fn select_parts_ok<R, C, V, S, Q>(
    resolve: R,
    column: C,
    value: V,
    subquery: S,
    sel: EngineSelect,
    schemas: Seq<EngineTableSchema>,
    sc: Scope,
    proj: Seq<QualifiedColumn>,
    pred: Option<QualifiedPredicate<Q>>,
    o: SelectOptions,
) -> bool
    where
        R: Fn(&SqlExpr, &Vec<(String, String)>, &Vec<usize>) -> Result<QualifiedColumn, TranslateError>,
        C: Fn(&PredicateExpr, &Scope) -> Result<QualifiedColumn, TranslateError>,
        V: Fn(&PredicateExpr) -> Result<EngineValue, TranslateError>,
        S: Fn(&String) -> Result<Q, TranslateError>,
{
    &&& select_from_ok(sel.from@[0], schemas, resolve, sc, o.joins@)
    &&& select_rest_ok(column, sc, value, subquery, sel, schemas, proj, pred, o)
}

/// What translating the `SELECT` `sel` against the catalog `schemas`
/// gives: the query put together from its parts, read in order (the FROM
/// item and its joins, the projection, `GROUP BY`, `ORDER BY`, `LIMIT`, the
/// condition and `HAVING`), or the error of the first part that fails.
pub open spec fn select_translated<R, C, V, S, Q>(
    sel: EngineSelect,
    schemas: Seq<EngineTableSchema>,
    resolve: R,
    column: C,
    value: V,
    subquery: S,
    r: Result<SelectQuery<Q>, TranslateError>,
) -> bool
    where
        R: Fn(&SqlExpr, &Vec<(String, String)>, &Vec<usize>) -> Result<QualifiedColumn, TranslateError>,
        C: Fn(&PredicateExpr, &Scope) -> Result<QualifiedColumn, TranslateError>,
        V: Fn(&PredicateExpr) -> Result<EngineValue, TranslateError>,
        S: Fn(&String) -> Result<Q, TranslateError>,
{
    if sel.from@.len() != 1 {
        r matches Err(x) && feature_is(x, "only single FROM with optional JOINs supported"@)
    } else {
        let f = sel.from@[0];
        match r {
            Ok(q) => exists|sc: Scope, proj: Seq<QualifiedColumn>, pred: Option<QualifiedPredicate<Q>>, o: SelectOptions|
                #[trigger] select_parts_ok(resolve, column, value, subquery, sel, schemas, sc, proj, pred, o)
                && compose_ok(item_table(f), proj, pred, o, Ok(q)),
            Err(x) => {
                ||| item_error(f, schemas, Seq::empty(), Seq::empty(), resolve, x)
                ||| exists|sc: Scope, clauses: Seq<JoinClause>| #[trigger] select_from_ok(f, schemas, resolve, sc, clauses)
                    && select_rest_err::<C, V, S, Q>(column, sc, value, subquery, sel, schemas, x)
                ||| exists|sc: Scope, proj: Seq<QualifiedColumn>, pred: Option<QualifiedPredicate<Q>>, o: SelectOptions|
                    #[trigger] select_parts_ok(resolve, column, value, subquery, sel, schemas, sc, proj, pred, o)
                    && compose_ok(item_table(f), proj, pred, o, Err(x))
            },
        }
    }
}

/// Translates a `SELECT` of one FROM item with its joins. Tables are read
/// against `schemas`, the catalog; `resolve` reads the columns of a join's
/// `ON`, `column` and `value` the columns and literals of the rest (the
/// `HAVING` condition's among them), and `subquery` a subquery's text.
pub fn translate_select<R, C, V, S, Q>(
    sel: &EngineSelect,
    schemas: &Vec<EngineTableSchema>,
    resolve: &R,
    column: &C,
    value: &V,
    subquery: &S,
) -> (r: Result<SelectQuery<Q>, TranslateError>)
    where
        R: Fn(&SqlExpr, &Vec<(String, String)>, &Vec<usize>) -> Result<QualifiedColumn, TranslateError>,
        C: Fn(&PredicateExpr, &Scope) -> Result<QualifiedColumn, TranslateError>,
        V: Fn(&PredicateExpr) -> Result<EngineValue, TranslateError>,
        S: Fn(&String) -> Result<Q, TranslateError>,
    requires
        forall|e: &SqlExpr, a: &Vec<(String, String)>, k: &Vec<usize>| resolve.requires((e, a, k)),
        forall|x: &PredicateExpr, y: &Scope| column.requires((x, y)),
        forall|x: &PredicateExpr| value.requires((x,)),
        forall|x: &String| subquery.requires((x,)),
    ensures
        select_translated(*sel, schemas@, *resolve, *column, *value, *subquery, r),
{
    if sel.from.len() != 1 {
        return Err(TranslateError::UnsupportedFeature(String::from_str("only single FROM with optional JOINs supported")));
    }
    let ghost f = sel.from@[0];
    let mut scope = Scope { aliases: Vec::new(), known: Vec::new() };
    let mut referenced_tables: Vec<String> = Vec::new();
    proof {
        assert(alias_views(scope.aliases@) =~= Seq::<(Seq<char>, Seq<char>)>::empty());
    }
    let (base, clauses) = match read_item(&sel.from[0], &mut scope, &mut referenced_tables, schemas, resolve) {
        Ok(v) => v,
        Err(x) => return Err(x),
    };
    proof {
        assert(alias_views(scope.aliases@) =~= item_aliases(f));
        assert(scope.known@ =~= item_known(schemas@, f));
        assert(select_from_ok(f, schemas@, *resolve, scope, clauses@));
    }
    let (proj, pred, mut options) = match build_select_rest(sel, &scope, schemas, column, value, subquery) {
        Ok(v) => v,
        Err(x) => {
            proof {
                assert(select_from_ok(f, schemas@, *resolve, scope, clauses@));
            }
            return Err(x);
        },
    };
    let ghost o0 = options;
    let ghost av = choose|av: Vec<(String, QualifiedColumn)>| #[trigger] select_rest_parts(*column, scope, *value, *subquery, *sel, schemas@, proj@, pred, o0, av);
    options.joins = clauses;
    proof {
        assert(select_rest_parts(*column, scope, *value, *subquery, *sel, schemas@, proj@, pred, options, av));
        assert(select_parts_ok(*resolve, *column, *value, *subquery, *sel, schemas@, scope, proj@, pred, options));
    }
    let ghost p0 = proj@;
    let ghost pr0 = pred;
    let ghost on = options;
    let r = compose_select_query(base, proj, pred, options);
    proof {
        assert(select_parts_ok(*resolve, *column, *value, *subquery, *sel, schemas@, scope, p0, pr0, on));
    }
    r
}

} // verus!
