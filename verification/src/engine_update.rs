//! The `SET` list of an `UPDATE` for the storage engine: which column each
//! assignment writes and the value it writes, with text literals turned into
//! UUIDs and JSON for columns of those types.
use vstd::prelude::*;

use crate::engine_ddl::{column_position, feature_is, first_position, schema_names, EngineTableSchema};
use crate::engine_dml::{
    alias_target, lookup_alias, projection_err, projection_ok, sql_expr_to_update_value_expr,
    translate_returning_projection, value_expr_ok, ReturningItem, UpdateValueExpr,
};
use crate::engine_joins::{
    added_aliases, added_known, alias_views, describe_table, find_schema, join_clause_ok, join_failure, join_static_ok,
    known_schema, left_of, parse_from_clause, parse_joins, relation_names, EngineTableWithJoins, JoinClause,
    QualifiedColumn,
};
use crate::engine_predicates::{
    expr_to_qualified_predicate, predicate_ok, predicate_succeeds, PredicateExpr, QualifiedPredicate, Scope,
};
use crate::sql_ast::SqlExpr;
use crate::engine_types::{EngineType, EngineValue};
use crate::placeholders::TranslateError;
use crate::text::{concat, str_eq, string_views};
use crate::translator::{parse_uuid_text, uuid_error_text, uuid_parse};

verus! {

// ---------------------------------------------------------------------------
// The serde_json crate

/// Whether `serde_json::from_str::<serde_json::Value>` accepts `s`.
pub uninterp spec fn json_text_valid(s: Seq<char>) -> bool;

/// Checks a text with `serde_json::from_str::<serde_json::Value>`.
#[verifier::external_body]
fn is_json_text(s: &str) -> (r: bool)
    ensures
        r == json_text_valid(s@),
{
    serde_json::from_str::<serde_json::Value>(s).is_ok()
}

// ---------------------------------------------------------------------------
// Values for typed columns

/// What a literal becomes in a column of type `ty`: text in a UUID column is
/// parsed as a UUID, text in a JSON column must be JSON; other values stay.
pub open spec fn converted(v: EngineValue, ty: EngineType, r: Result<EngineValue, TranslateError>) -> bool {
    match (v, ty) {
        (EngineValue::Text(s), EngineType::Uuid) => match uuid_parse(s@) {
            Some(b) => r matches Ok(EngineValue::Uuid(u)) && u@ == b,
            None => r matches Err(x) && feature_is(x, "invalid UUID literal: "@ + uuid_error_text(s@)),
        },
        (EngineValue::Text(s), EngineType::Json) => if json_text_valid(s@) {
            r matches Ok(EngineValue::Json(j)) && j@ == s@
        } else {
            r matches Err(x) && feature_is(x, "invalid JSON literal: "@ + s@)
        },
        _ => r == Ok::<EngineValue, TranslateError>(v),
    }
}

/// Turns a literal into the value a column of type `column_type` holds.
pub fn convert_value_to_column_type(value: EngineValue, column_type: &EngineType) -> (r: Result<EngineValue, TranslateError>)
    ensures
        converted(value, *column_type, r),
{
    match (value, column_type) {
        (EngineValue::Text(s), EngineType::Uuid) => match parse_uuid_text(s.as_str()) {
            Ok(b) => Ok(EngineValue::Uuid(b)),
            Err(m) => Err(TranslateError::UnsupportedFeature(concat("invalid UUID literal: ", m.as_str()))),
        },
        (EngineValue::Text(s), EngineType::Json) => {
            if !is_json_text(s.as_str()) {
                return Err(TranslateError::UnsupportedFeature(concat("invalid JSON literal: ", s.as_str())));
            }
            Ok(EngineValue::Json(s))
        },
        (EngineValue::Null, _) => Ok(EngineValue::Null),
        (v, _) => Ok(v),
    }
}

// ---------------------------------------------------------------------------
// Assignment targets

/// The target of an assignment: a name given by its parts (`None` for a
/// part that is not an identifier), or a tuple.
#[derive(Debug)]
pub enum EngineAssignmentTarget {
    ColumnName(Vec<Option<String>>),
    Tuple,
}

#[derive(Debug)]
pub struct EngineAssignment {
    pub target: EngineAssignmentTarget,
    pub value: PredicateExpr,
}

/// An assignment for the engine: the position of the column and its value.
#[derive(Debug)]
pub struct UpdateAssignment {
    pub column_index: usize,
    pub value: UpdateValueExpr,
}

pub open spec fn all_identifiers(parts: Seq<Option<String>>) -> bool {
    forall|i: int| 0 <= i < parts.len() ==> (#[trigger] parts[i]) is Some
}

/// The column an assignment target names in the update of table `target`,
/// or the error message.
pub open spec fn target_column(target: EngineAssignmentTarget, aliases: Seq<(Seq<char>, Seq<char>)>, table: Seq<char>) -> Result<Seq<char>, Seq<char>> {
    match target {
        EngineAssignmentTarget::Tuple => Err("tuple assignment in UPDATE is not supported"@),
        EngineAssignmentTarget::ColumnName(parts) => if !all_identifiers(parts@) {
            Err("unsupported object name part"@)
        } else if parts@.len() == 1 {
            Ok(parts@[0]->Some_0@)
        } else if parts@.len() == 2 {
            let t = parts@[0]->Some_0@;
            let resolved = match alias_target(aliases, t) { Some(x) => x, None => t };
            if resolved != table {
                Err("assignment target must reference the update table"@)
            } else {
                Ok(parts@[1]->Some_0@)
            }
        } else {
            Err("assignment target must be column or table.column"@)
        },
    }
}

/// Reads the column an assignment target names.
pub fn assignment_target_column_name(target: &EngineAssignmentTarget, aliases: &Vec<(String, String)>, target_table: &str) -> (r: Result<String, TranslateError>)
    ensures
        match r {
            Ok(c) => target_column(*target, alias_views(aliases@), target_table@) == Ok::<Seq<char>, Seq<char>>(c@),
            Err(x) => target_column(*target, alias_views(aliases@), target_table@) matches Err(m) && feature_is(x, m),
        },
{
    match target {
        EngineAssignmentTarget::Tuple => Err(TranslateError::UnsupportedFeature(
            String::from_str("tuple assignment in UPDATE is not supported"),
        )),
        EngineAssignmentTarget::ColumnName(parts) => {
            let mut i: usize = 0;
            while i < parts.len()
                invariant
                    i <= parts@.len(),
                    *target == EngineAssignmentTarget::ColumnName(*parts),
                    forall|k: int| 0 <= k < i ==> (#[trigger] parts@[k]) is Some,
                decreases parts.len() - i,
            {
                if parts[i].is_none() {
                    proof { assert(!all_identifiers(parts@)); }
                    return Err(TranslateError::UnsupportedFeature(String::from_str("unsupported object name part")));
                }
                i = i + 1;
            }
            if parts.len() == 1 {
                match &parts[0] {
                    Some(column) => Ok(column.clone()),
                    None => Err(TranslateError::UnsupportedFeature(String::from_str("unsupported object name part"))),
                }
            } else if parts.len() == 2 {
                match (&parts[0], &parts[1]) {
                    (Some(table), Some(column)) => {
                        let resolved = match lookup_alias(aliases, table.as_str()) {
                            Some(t) => t,
                            None => table.clone(),
                        };
                        if !str_eq(resolved.as_str(), target_table) {
                            return Err(TranslateError::UnsupportedFeature(
                                String::from_str("assignment target must reference the update table"),
                            ));
                        }
                        Ok(column.clone())
                    },
                    _ => Err(TranslateError::UnsupportedFeature(String::from_str("unsupported object name part"))),
                }
            } else {
                Err(TranslateError::UnsupportedFeature(String::from_str("assignment target must be column or table.column")))
            }
        },
    }
}

// ---------------------------------------------------------------------------
// Assignments

/// What an assignment gives in the update of `schema`: the column it names
/// must be one of the table's, and its value is read as a value for a row,
/// a literal being turned into the column's type.
pub open spec fn assignment_ok<C, V>(
    column: C,
    scope: Scope,
    value: V,
    a: EngineAssignment,
    schema: EngineTableSchema,
    r: Result<UpdateAssignment, TranslateError>,
) -> bool
    where
        C: Fn(&PredicateExpr, &Scope) -> Result<QualifiedColumn, TranslateError>,
        V: Fn(&PredicateExpr) -> Result<EngineValue, TranslateError>,
{
    match target_column(a.target, alias_views(scope.aliases@), schema.name@) {
        Err(m) => r matches Err(x) && feature_is(x, m),
        Ok(c) => match first_position(schema_names(schema.columns@), c) {
            None => r matches Err(TranslateError::UnknownColumn(x)) && x@ == c,
            Some(idx) => {
                let ty = schema.columns@[idx].data_type;
                match r {
                    Ok(asg) => asg.column_index == idx && exists|u: UpdateValueExpr| {
                        &&& #[trigger] value_expr_ok(column, scope, value, a.value, Ok(u))
                        &&& match u {
                            UpdateValueExpr::Value(lit) => asg.value matches UpdateValueExpr::Value(cv)
                                && converted(lit, ty, Ok(cv)),
                            _ => asg.value == u,
                        }
                    },
                    Err(x) => value_expr_ok(column, scope, value, a.value, Err(x))
                        || exists|lit: EngineValue| #[trigger] value_expr_ok(column, scope, value, a.value, Ok(UpdateValueExpr::Value(lit)))
                            && converted(lit, ty, Err(x)),
                }
            },
        },
    }
}

fn translate_assignment<C, V>(a: &EngineAssignment, scope: &Scope, schema: &EngineTableSchema, column: &C, value: &V)
    -> (r: Result<UpdateAssignment, TranslateError>)
    where
        C: Fn(&PredicateExpr, &Scope) -> Result<QualifiedColumn, TranslateError>,
        V: Fn(&PredicateExpr) -> Result<EngineValue, TranslateError>,
    requires
        forall|x: &PredicateExpr, y: &Scope| column.requires((x, y)),
        forall|x: &PredicateExpr| value.requires((x,)),
    ensures
        assignment_ok(*column, *scope, *value, *a, *schema, r),
{
    let column_name = assignment_target_column_name(&a.target, &scope.aliases, schema.name.as_str())?;
    let column_index = match column_position(&schema.columns, column_name.as_str()) {
        Some(p) => p,
        None => return Err(TranslateError::UnknownColumn(column_name)),
    };
    proof { crate::engine_ddl::lemma_first_position_bound(schema_names(schema.columns@), column_name@); }
    let v = sql_expr_to_update_value_expr(&a.value, column, scope, value)?;
    let ghost u = v;
    let v = match v {
        UpdateValueExpr::Value(literal) => match convert_value_to_column_type(literal, &schema.columns[column_index].data_type) {
            Ok(cv) => UpdateValueExpr::Value(cv),
            Err(x) => {
                proof { assert(value_expr_ok(*column, *scope, *value, a.value, Ok(u))); }
                return Err(x);
            },
        },
        other => other,
    };
    proof { assert(value_expr_ok(*column, *scope, *value, a.value, Ok(u))); }
    Ok(UpdateAssignment { column_index, value: v })
}

/// The assignments all read, each as `assignment_ok` says, in order.
pub open spec fn assignments_ok<C, V>(column: C, scope: Scope, value: V, items: Seq<EngineAssignment>, schema: EngineTableSchema, out: Seq<UpdateAssignment>) -> bool
    where
        C: Fn(&PredicateExpr, &Scope) -> Result<QualifiedColumn, TranslateError>,
        V: Fn(&PredicateExpr) -> Result<EngineValue, TranslateError>,
{
    &&& out.len() == items.len()
    &&& forall|i: int| 0 <= i < items.len() ==> assignment_ok(column, scope, value, items[i], schema, Ok(#[trigger] out[i]))
}

/// Reading assignment `a` can succeed.
pub open spec fn assignment_succeeds<C, V>(column: C, scope: Scope, value: V, a: EngineAssignment, schema: EngineTableSchema) -> bool
    where
        C: Fn(&PredicateExpr, &Scope) -> Result<QualifiedColumn, TranslateError>,
        V: Fn(&PredicateExpr) -> Result<EngineValue, TranslateError>,
{
    exists|asg: UpdateAssignment| #[trigger] assignment_ok(column, scope, value, a, schema, Ok(asg))
}

/// Assignment `i` fails with `x` after every assignment before it could be read.
pub open spec fn assignments_err_at<C, V>(column: C, scope: Scope, value: V, items: Seq<EngineAssignment>, schema: EngineTableSchema, x: TranslateError, i: int) -> bool
    where
        C: Fn(&PredicateExpr, &Scope) -> Result<QualifiedColumn, TranslateError>,
        V: Fn(&PredicateExpr) -> Result<EngineValue, TranslateError>,
{
    &&& 0 <= i < items.len()
    &&& forall|k: int| 0 <= k < i ==> #[trigger] assignment_succeeds(column, scope, value, items[k], schema)
    &&& assignment_ok(column, scope, value, items[i], schema, Err(x))
}

/// Reads the `SET` list of an update of the table `schema` describes, in
/// order, stopping at the first assignment that fails.
pub fn translate_update_assignments<C, V>(
    assignments: &Vec<EngineAssignment>,
    scope: &Scope,
    schema: &EngineTableSchema,
    column: &C,
    value: &V,
) -> (r: Result<Vec<UpdateAssignment>, TranslateError>)
    where
        C: Fn(&PredicateExpr, &Scope) -> Result<QualifiedColumn, TranslateError>,
        V: Fn(&PredicateExpr) -> Result<EngineValue, TranslateError>,
    requires
        forall|x: &PredicateExpr, y: &Scope| column.requires((x, y)),
        forall|x: &PredicateExpr| value.requires((x,)),
    ensures
        match r {
            Ok(out) => assignments_ok(*column, *scope, *value, assignments@, *schema, out@),
            Err(x) => exists|i: int| #[trigger] assignments_err_at(*column, *scope, *value, assignments@, *schema, x, i),
        },
{
    let mut out: Vec<UpdateAssignment> = Vec::new();
    let mut i: usize = 0;
    while i < assignments.len()
        invariant
            i <= assignments@.len(),
            forall|x: &PredicateExpr, y: &Scope| column.requires((x, y)),
            forall|x: &PredicateExpr| value.requires((x,)),
            out@.len() == i,
            forall|k: int| 0 <= k < i ==> assignment_ok(*column, *scope, *value, assignments@[k], *schema, Ok(#[trigger] out@[k])),
        decreases assignments.len() - i,
    {
        let asg = match translate_assignment(&assignments[i], scope, schema, column, value) {
            Ok(asg) => asg,
            Err(x) => {
                proof {
                    assert forall|k: int| 0 <= k < i implies #[trigger] assignment_succeeds(*column, *scope, *value, assignments@[k], *schema) by {
                        assert(assignment_ok(*column, *scope, *value, assignments@[k], *schema, Ok(out@[k])));
                    }
                    assert(assignments_err_at(*column, *scope, *value, assignments@, *schema, x, i as int));
                }
                return Err(x);
            },
        };
        out.push(asg);
        i = i + 1;
    }
    Ok(out)
}

// ---------------------------------------------------------------------------
// UPDATE

/// A parsed `UPDATE`: whether it has a `LIMIT`, the target with its joins,
/// the items of its `FROM` (none where it has no `FROM`), the `SET` list, the
/// condition and the `RETURNING` list.
#[derive(Debug)]
pub struct EngineUpdate {
    pub has_limit: bool,
    pub table: EngineTableWithJoins,
    pub from: Vec<EngineTableWithJoins>,
    pub assignments: Vec<EngineAssignment>,
    pub selection: Option<PredicateExpr>,
    pub returning: Option<Vec<ReturningItem>>,
}

/// What the engine runs for an `UPDATE`; `Q` is the query of a subquery.
#[derive(Debug)]
pub struct UpdateQuery<Q> {
    pub table: String,
    pub assignments: Vec<UpdateAssignment>,
    pub predicate: Option<QualifiedPredicate<Q>>,
    pub joins: Vec<JoinClause>,
    pub from_tables: Vec<String>,
    pub returning: Option<Vec<UpdateValueExpr>>,
}

/// The tables of the `FROM` items, in order.
pub open spec fn from_table_names(from: Seq<EngineTableWithJoins>) -> Seq<Seq<char>> {
    from.map_values(|f: EngineTableWithJoins| item_table(f))
}

// ---------------------------------------------------------------------------
// The tables of an UPDATE: the target and each FROM item, with their joins

/// The table a FROM item names.
pub open spec fn item_table(f: EngineTableWithJoins) -> Seq<char> {
    match relation_names(f.relation) {
        Some((t, a)) => t,
        None => Seq::empty(),
    }
}

/// The alias entry a FROM item records: `(alias, table)`.
pub open spec fn item_entry(f: EngineTableWithJoins) -> (Seq<char>, Seq<char>) {
    match relation_names(f.relation) {
        Some((t, a)) => (a, t),
        None => (Seq::empty(), Seq::empty()),
    }
}

/// The position in the catalog of the table a FROM item names.
pub open spec fn item_position(schemas: Seq<EngineTableSchema>, f: EngineTableWithJoins) -> usize {
    match find_schema(schemas, item_table(f)) {
        Some(p) => p as usize,
        None => 0,
    }
}

/// The alias entries a FROM item adds: its own, then its joins'.
pub open spec fn item_aliases(f: EngineTableWithJoins) -> Seq<(Seq<char>, Seq<char>)> {
    seq![item_entry(f)] + added_aliases(f.joins@)
}

/// The known tables a FROM item adds: its own, then its joins'.
pub open spec fn item_known(schemas: Seq<EngineTableSchema>, f: EngineTableWithJoins) -> Seq<usize> {
    seq![item_position(schemas, f)] + added_known(schemas, f.joins@)
}

/// The alias entries that FROM items add, in order.
pub open spec fn items_aliases(items: Seq<EngineTableWithJoins>) -> Seq<(Seq<char>, Seq<char>)>
    decreases items.len(),
{
    if items.len() == 0 { Seq::empty() } else { items_aliases(items.drop_last()) + item_aliases(items.last()) }
}

/// The known tables that FROM items add, in order.
pub open spec fn items_known(schemas: Seq<EngineTableSchema>, items: Seq<EngineTableWithJoins>) -> Seq<usize>
    decreases items.len(),
{
    if items.len() == 0 { Seq::empty() } else { items_known(schemas, items.drop_last()) + item_known(schemas, items.last()) }
}

/// A FROM item names a table of the catalog, and each of its joins does
/// too, by a supported operator.
pub open spec fn item_static_ok(schemas: Seq<EngineTableSchema>, f: EngineTableWithJoins) -> bool {
    &&& relation_names(f.relation) is Some
    &&& find_schema(schemas, item_table(f)) is Some
    &&& forall|i: int| 0 <= i < f.joins@.len() ==> #[trigger] join_static_ok(f.joins@[i], schemas)
}

/// `clauses` are what the joins of FROM item `f` give, read after the aliases
/// `aliases0` and known tables `known0` of the items before it.
pub open spec fn item_clauses_ok<R>(
    f: EngineTableWithJoins,
    clauses: Seq<JoinClause>,
    schemas: Seq<EngineTableSchema>,
    aliases0: Seq<(Seq<char>, Seq<char>)>,
    known0: Seq<usize>,
    resolve: R,
) -> bool
    where R: Fn(&SqlExpr, &Vec<(String, String)>, &Vec<usize>) -> Result<QualifiedColumn, TranslateError>,
{
    &&& clauses.len() == f.joins@.len()
    &&& forall|i: int| 0 <= i < f.joins@.len() ==> join_clause_ok(
        f.joins@[i], #[trigger] clauses[i], left_of(f.joins@, item_table(f), i), schemas,
        aliases0.push(item_entry(f)) + added_aliases(f.joins@.take(i + 1)),
        known0.push(item_position(schemas, f)) + added_known(schemas, f.joins@.take(i + 1)), resolve)
}

/// `x` is the error of FROM item `f`, read after `aliases0` and `known0`:
/// its relation, its table, or one of its joins.
pub open spec fn item_error<R>(
    f: EngineTableWithJoins,
    schemas: Seq<EngineTableSchema>,
    aliases0: Seq<(Seq<char>, Seq<char>)>,
    known0: Seq<usize>,
    resolve: R,
    x: TranslateError,
) -> bool
    where R: Fn(&SqlExpr, &Vec<(String, String)>, &Vec<usize>) -> Result<QualifiedColumn, TranslateError>,
{
    match relation_names(f.relation) {
        None => feature_is(x, "unsupported table factor"@),
        Some((t, a)) => match find_schema(schemas, t) {
            None => x matches TranslateError::UnknownTable(n) && n@ == t,
            Some(p) => exists|i: int| #[trigger] join_failure(f.joins@, t, schemas, aliases0.push((a, t)),
                known0.push(p as usize), resolve, x, i),
        },
    }
}

/// Reads a FROM item: its table, recorded under its alias among the known
/// tables, then its joins.
pub(crate) fn read_item<R>(
    f: &EngineTableWithJoins,
    scope: &mut Scope,
    referenced_tables: &mut Vec<String>,
    schemas: &Vec<EngineTableSchema>,
    resolve: &R,
) -> (r: Result<(String, Vec<JoinClause>), TranslateError>)
    where R: Fn(&SqlExpr, &Vec<(String, String)>, &Vec<usize>) -> Result<QualifiedColumn, TranslateError>,
    requires
        forall|e: &SqlExpr, a: &Vec<(String, String)>, k: &Vec<usize>| resolve.requires((e, a, k)),
    ensures
        match r {
            Ok((base, clauses)) => {
                &&& item_static_ok(schemas@, *f)
                &&& base@ == item_table(*f)
                &&& item_clauses_ok(*f, clauses@, schemas@, alias_views(old(scope).aliases@), old(scope).known@, *resolve)
                &&& alias_views(final(scope).aliases@) == alias_views(old(scope).aliases@) + item_aliases(*f)
                &&& final(scope).known@ == old(scope).known@ + item_known(schemas@, *f)
            },
            Err(x) => item_error(*f, schemas@, alias_views(old(scope).aliases@), old(scope).known@, *resolve, x),
        },
{
    let ghost a0 = alias_views(scope.aliases@);
    let ghost k0 = scope.known@;
    let base = parse_from_clause(f, schemas, &mut scope.aliases, referenced_tables, &mut scope.known)?;
    proof { crate::engine_joins::lemma_find_schema_bound(schemas@, base@); }
    let clauses = match parse_joins(&f.joins, &mut scope.aliases, referenced_tables, &mut scope.known, schemas, base.as_str(), resolve) {
        Ok(c) => c,
        Err(x) => {
            proof {
                let w = choose|i: int| #[trigger] join_failure(f.joins@, base@, schemas@, a0.push(item_entry(*f)), k0.push(item_position(schemas@, *f)), *resolve, x, i);
                assert(join_failure(f.joins@, base@, schemas@, a0.push(item_entry(*f)), k0.push(item_position(schemas@, *f)), *resolve, x, w));
            }
            return Err(x);
        },
    };
    proof {
        assert forall|i: int| 0 <= i < f.joins@.len() implies #[trigger] join_static_ok(f.joins@[i], schemas@) by {
            assert(join_clause_ok(f.joins@[i], clauses@[i], left_of(f.joins@, base@, i), schemas@,
                a0.push(item_entry(*f)) + added_aliases(f.joins@.take(i + 1)),
                k0.push(item_position(schemas@, *f)) + added_known(schemas@, f.joins@.take(i + 1)), *resolve));
        }
        assert(a0.push(item_entry(*f)) + added_aliases(f.joins@) =~= a0 + item_aliases(*f));
        assert(k0.push(item_position(schemas@, *f)) + added_known(schemas@, f.joins@) =~= k0 + item_known(schemas@, *f));
    }
    Ok((base, clauses))
}

/// Every FROM item of an UPDATE: the target, then the items of its `FROM`.
pub open spec fn all_items(u: EngineUpdate) -> Seq<EngineTableWithJoins> {
    seq![u.table] + u.from@
}

/// `parts` are what the joins of each item give, item by item.
pub open spec fn update_joins_ok<R>(items: Seq<EngineTableWithJoins>, parts: Seq<Seq<JoinClause>>, schemas: Seq<EngineTableSchema>, resolve: R) -> bool
    where R: Fn(&SqlExpr, &Vec<(String, String)>, &Vec<usize>) -> Result<QualifiedColumn, TranslateError>,
{
    &&& parts.len() == items.len()
    &&& forall|k: int| 0 <= k < items.len() ==> item_clauses_ok(items[k], #[trigger] parts[k], schemas,
        items_aliases(items.take(k)), items_known(schemas, items.take(k)), resolve)
}

/// The items fail with `x` at item `k`: every item before it names known
/// tables, and item `k` fails as `item_error` says.
pub open spec fn update_item_failure<R>(items: Seq<EngineTableWithJoins>, schemas: Seq<EngineTableSchema>, resolve: R, x: TranslateError, k: int) -> bool
    where R: Fn(&SqlExpr, &Vec<(String, String)>, &Vec<usize>) -> Result<QualifiedColumn, TranslateError>,
{
    &&& 0 <= k < items.len()
    &&& forall|j: int| 0 <= j < k ==> #[trigger] item_static_ok(schemas, items[j])
    &&& item_error(items[k], schemas, items_aliases(items.take(k)), items_known(schemas, items.take(k)), resolve, x)
}

/// `scope` holds what the tables of an UPDATE record.
pub open spec fn update_scope(u: EngineUpdate, schemas: Seq<EngineTableSchema>, scope: Scope) -> bool {
    &&& alias_views(scope.aliases@) == items_aliases(all_items(u))
    &&& scope.known@ == items_known(schemas, all_items(u))
}

/// What an `UPDATE` gives once its tables have been read into `scope`: the
/// `SET` list against `schema`, the target's schema in the catalog, and the
/// `RETURNING` list against the target's latest known schema.
pub open spec fn update_rest_ok<C, V, S, Q>(
    column: C,
    scope: Scope,
    value: V,
    subquery: S,
    u: EngineUpdate,
    schemas: Seq<EngineTableSchema>,
    schema: EngineTableSchema,
    q: UpdateQuery<Q>,
) -> bool
    where
        C: Fn(&PredicateExpr, &Scope) -> Result<QualifiedColumn, TranslateError>,
        V: Fn(&PredicateExpr) -> Result<EngineValue, TranslateError>,
        S: Fn(&String) -> Result<Q, TranslateError>,
{
    &&& assignments_ok(column, scope, value, u.assignments@, schema, q.assignments@)
    &&& match u.selection {
        None => q.predicate is None,
        Some(e) => q.predicate matches Some(pr) && predicate_ok(column, scope, value, subquery, e, Ok(pr)),
    }
    &&& match u.returning {
        None => q.returning is None,
        Some(items) => q.returning matches Some(out)
            && known_schema(schemas, scope.known@, q.table@) matches Some(k)
            && projection_ok(column, scope, value, items@, q.table@, schemas[k].columns@.len(), out@),
    }
}

/// The `RETURNING` list of an update of `table` fails with `x`.
pub open spec fn update_returning_err<C, V>(column: C, scope: Scope, value: V, u: EngineUpdate, schemas: Seq<EngineTableSchema>, table: Seq<char>, x: TranslateError) -> bool
    where
        C: Fn(&PredicateExpr, &Scope) -> Result<QualifiedColumn, TranslateError>,
        V: Fn(&PredicateExpr) -> Result<EngineValue, TranslateError>,
{
    match u.returning {
        None => false,
        Some(items) => match known_schema(schemas, scope.known@, table) {
            None => x matches TranslateError::UnknownTable(n) && n@ == table,
            Some(k) => projection_err(column, scope, value, items@, table, schemas[k].columns@.len(), x),
        },
    }
}

/// The condition is absent or can be translated.
pub open spec fn selection_succeeds<C, V, S, Q>(column: C, scope: Scope, value: V, subquery: S, selection: Option<PredicateExpr>) -> bool
    where
        C: Fn(&PredicateExpr, &Scope) -> Result<QualifiedColumn, TranslateError>,
        V: Fn(&PredicateExpr) -> Result<EngineValue, TranslateError>,
        S: Fn(&String) -> Result<Q, TranslateError>,
{
    match selection {
        None => true,
        Some(e) => predicate_succeeds::<C, V, S, Q>(column, scope, value, subquery, e),
    }
}

/// The condition is given and fails with `x`.
pub open spec fn selection_err<C, V, S, Q>(column: C, scope: Scope, value: V, subquery: S, selection: Option<PredicateExpr>, x: TranslateError) -> bool
    where
        C: Fn(&PredicateExpr, &Scope) -> Result<QualifiedColumn, TranslateError>,
        V: Fn(&PredicateExpr) -> Result<EngineValue, TranslateError>,
        S: Fn(&String) -> Result<Q, TranslateError>,
{
    match selection {
        None => false,
        Some(e) => predicate_ok::<C, V, S, Q>(column, scope, value, subquery, e, Err(x)),
    }
}

/// The `SET` list of an update of `schema` can be read.
pub open spec fn assignments_succeed<C, V>(column: C, scope: Scope, value: V, u: EngineUpdate, schema: EngineTableSchema) -> bool
    where
        C: Fn(&PredicateExpr, &Scope) -> Result<QualifiedColumn, TranslateError>,
        V: Fn(&PredicateExpr) -> Result<EngineValue, TranslateError>,
{
    exists|out: Seq<UpdateAssignment>| #[trigger] assignments_ok(column, scope, value, u.assignments@, schema, out)
}

/// Once its tables are read into `scope`, an update of `table` fails with
/// `x`: in its `SET` list, else its condition, else its `RETURNING` list.
pub open spec fn update_rest_err<C, V, S, Q>(
    column: C,
    scope: Scope,
    value: V,
    subquery: S,
    u: EngineUpdate,
    schemas: Seq<EngineTableSchema>,
    schema: EngineTableSchema,
    table: Seq<char>,
    x: TranslateError,
) -> bool
    where
        C: Fn(&PredicateExpr, &Scope) -> Result<QualifiedColumn, TranslateError>,
        V: Fn(&PredicateExpr) -> Result<EngineValue, TranslateError>,
        S: Fn(&String) -> Result<Q, TranslateError>,
{
    ||| exists|i: int| #[trigger] assignments_err_at(column, scope, value, u.assignments@, schema, x, i)
    ||| assignments_succeed(column, scope, value, u, schema)
        && selection_err::<C, V, S, Q>(column, scope, value, subquery, u.selection, x)
    ||| assignments_succeed(column, scope, value, u, schema)
        && selection_succeeds::<C, V, S, Q>(column, scope, value, subquery, u.selection)
        && update_returning_err(column, scope, value, u, schemas, table, x)
}

/// What an UPDATE of a known target gives, its tables read.
pub open spec fn update_outcome<R, C, V, S, Q>(
    u: EngineUpdate,
    schemas: Seq<EngineTableSchema>,
    p: int,
    resolve: R,
    column: C,
    value: V,
    subquery: S,
    r: Result<UpdateQuery<Q>, TranslateError>,
) -> bool
    where
        R: Fn(&SqlExpr, &Vec<(String, String)>, &Vec<usize>) -> Result<QualifiedColumn, TranslateError>,
        C: Fn(&PredicateExpr, &Scope) -> Result<QualifiedColumn, TranslateError>,
        V: Fn(&PredicateExpr) -> Result<EngineValue, TranslateError>,
        S: Fn(&String) -> Result<Q, TranslateError>,
{
    let items = all_items(u);
    let t = item_table(u.table);
    match r {
        Ok(q) => {
            &&& forall|k: int| 0 <= k < items.len() ==> #[trigger] item_static_ok(schemas, items[k])
            &&& q.table@ == t
            &&& string_views(q.from_tables@) == from_table_names(u.from@)
            &&& exists|parts: Seq<Seq<JoinClause>>| #[trigger] update_joins_ok(items, parts, schemas, resolve) && q.joins@ == parts.flatten()
            &&& exists|sc: Scope| #[trigger] update_scope(u, schemas, sc) && update_rest_ok(column, sc, value, subquery, u, schemas, schemas[p], q)
        },
        Err(x) => {
            ||| exists|k: int| #[trigger] update_item_failure(items, schemas, resolve, x, k)
            ||| (forall|k: int| 0 <= k < items.len() ==> #[trigger] item_static_ok(schemas, items[k]))
                && exists|sc: Scope| #[trigger] update_scope(u, schemas, sc)
                    && update_rest_err::<C, V, S, Q>(column, sc, value, subquery, u, schemas, schemas[p], t, x)
        },
    }
}

/// What translating the `UPDATE` `u` against the catalog `schemas` gives:
/// the error of a `LIMIT`, of a target that is no plain table or of an
/// unknown target, or else the outcome of its tables, `SET` list, condition
/// and `RETURNING` list.
pub open spec fn update_translated<R, C, V, S, Q>(
    u: EngineUpdate,
    schemas: Seq<EngineTableSchema>,
    resolve: R,
    column: C,
    value: V,
    subquery: S,
    r: Result<UpdateQuery<Q>, TranslateError>,
) -> bool
    where
        R: Fn(&SqlExpr, &Vec<(String, String)>, &Vec<usize>) -> Result<QualifiedColumn, TranslateError>,
        C: Fn(&PredicateExpr, &Scope) -> Result<QualifiedColumn, TranslateError>,
        V: Fn(&PredicateExpr) -> Result<EngineValue, TranslateError>,
        S: Fn(&String) -> Result<Q, TranslateError>,
{
    if u.has_limit {
        r matches Err(x) && feature_is(x, "UPDATE LIMIT is not supported"@)
    } else {
        match relation_names(u.table.relation) {
            None => r matches Err(x) && feature_is(x, "unsupported table factor"@),
            Some((t, a)) => match find_schema(schemas, t) {
                None => r matches Err(TranslateError::UnknownTable(x)) && x@ == t,
                Some(p) => update_outcome(u, schemas, p, resolve, column, value, subquery, r),
            },
        }
    }
}

proof fn lemma_items_step(schemas: Seq<EngineTableSchema>, items: Seq<EngineTableWithJoins>, i: int)
    requires
        0 <= i < items.len(),
    ensures
        items_aliases(items.take(i + 1)) == items_aliases(items.take(i)) + item_aliases(items[i]),
        items_known(schemas, items.take(i + 1)) == items_known(schemas, items.take(i)) + item_known(schemas, items[i]),
{
    assert(items.take(i + 1).drop_last() == items.take(i));
}

/// Translates an `UPDATE`: the target table and its joins, the tables of its
/// `FROM` with their joins, the `SET` list against the target's schema, the
/// condition and the `RETURNING` list, all read against the aliases and known
/// tables that the target, its joins and the `FROM` items record. Tables are
/// read against `schemas`, the catalog; `resolve` reads the columns of a
/// join's `ON`, `column` and `value` the columns and literals of the rest,
/// and `subquery` a subquery's text.
pub fn translate_update<R, C, V, S, Q>(
    update: &EngineUpdate,
    schemas: &Vec<EngineTableSchema>,
    resolve: &R,
    column: &C,
    value: &V,
    subquery: &S,
) -> (r: Result<UpdateQuery<Q>, TranslateError>)
    where
        R: Fn(&SqlExpr, &Vec<(String, String)>, &Vec<usize>) -> Result<QualifiedColumn, TranslateError>,
        C: Fn(&PredicateExpr, &Scope) -> Result<QualifiedColumn, TranslateError>,
        V: Fn(&PredicateExpr) -> Result<EngineValue, TranslateError>,
        S: Fn(&String) -> Result<Q, TranslateError>,
    requires
        forall|e: &SqlExpr, a: &Vec<(String, String)>, k: &Vec<usize>| resolve.requires((e, a, k)),
        forall|x: &PredicateExpr, y: &Scope| column.requires((x, y)),
        forall|x: &PredicateExpr| value.requires((x,)),
        forall|x: &String| subquery.requires((x,)),
    ensures
        update_translated(*update, schemas@, *resolve, *column, *value, *subquery, r),
{
    if update.has_limit {
        return Err(TranslateError::UnsupportedFeature(String::from_str("UPDATE LIMIT is not supported")));
    }
    let ghost items = all_items(*update);
    let ghost schemas_v = schemas@;
    let mut scope = Scope { aliases: Vec::new(), known: Vec::new() };
    let mut referenced_tables: Vec<String> = Vec::new();
    proof {
        assert(items.take(0) =~= Seq::<EngineTableWithJoins>::empty());
        assert(alias_views(scope.aliases@) =~= items_aliases(items.take(0)));
        assert(scope.known@ =~= items_known(schemas@, items.take(0)));
        lemma_items_step(schemas@, items, 0);
        assert(items[0] == update.table);
    }
    let (table, mut joins) = match read_item(&update.table, &mut scope, &mut referenced_tables, schemas, resolve) {
        Ok(v) => v,
        Err(x) => {
            proof { assert(update_item_failure(items, schemas@, *resolve, x, 0)); }
            return Err(x);
        },
    };
    let ghost mut parts: Seq<Seq<JoinClause>> = seq![joins@];
    proof {
        assert(parts.flatten() =~= joins@) by {
            Seq::<Seq<JoinClause>>::empty().lemma_flatten_push(joins@);
            assert(seq![joins@] =~= Seq::<Seq<JoinClause>>::empty().push(joins@));
        }
    }
    let mut from_tables: Vec<String> = Vec::new();
    let mut i: usize = 0;
    while i < update.from.len()
        invariant
            i <= update.from@.len(),
            items == all_items(*update),
            schemas_v == schemas@,
            !update.has_limit,
            relation_names(update.table.relation) matches Some((t, a)) && table@ == t && find_schema(schemas@, t) is Some,
            table@ == item_table(update.table),
            forall|e: &SqlExpr, a: &Vec<(String, String)>, k: &Vec<usize>| resolve.requires((e, a, k)),
            string_views(from_tables@) == from_table_names(update.from@.take(i as int)),
            alias_views(scope.aliases@) == items_aliases(items.take(i as int + 1)),
            scope.known@ == items_known(schemas@, items.take(i as int + 1)),
            forall|k: int| 0 <= k < i + 1 ==> #[trigger] item_static_ok(schemas@, items[k]),
            parts.len() == i + 1,
            forall|k: int| 0 <= k < i + 1 ==> item_clauses_ok(items[k], #[trigger] parts[k], schemas@,
                items_aliases(items.take(k)), items_known(schemas@, items.take(k)), *resolve),
            joins@ == parts.flatten(),
        decreases update.from.len() - i,
    {
        proof {
            lemma_items_step(schemas@, items, i as int + 1);
            assert(items[i as int + 1] == update.from@[i as int]);
        }
        let item = &update.from[i];
        let (base, mut more) = match read_item(item, &mut scope, &mut referenced_tables, schemas, resolve) {
            Ok(v) => v,
            Err(x) => {
                proof { assert(update_item_failure(items, schemas@, *resolve, x, i as int + 1)); }
                return Err(x);
            },
        };
        let ghost before = from_tables@;
        from_tables.push(base);
        proof {
            assert(update.from@.take(i as int + 1) == update.from@.take(i as int).push(update.from@[i as int]));
            assert(from_table_names(update.from@.take(i as int + 1)) =~= from_table_names(update.from@.take(i as int)).push(item_table(*item)));
            assert(string_views(from_tables@) =~= string_views(before).push(item_table(*item)));
            parts.lemma_flatten_push(more@);
        }
        let ghost added = more@;
        joins.append(&mut more);
        proof {
            parts = parts.push(added);
        }
        i = i + 1;
    }
    proof {
        assert(update.from@.take(i as int) == update.from@);
        assert(items.take(i as int + 1) == items);
    }
    let p = match describe_table(schemas, table.as_str()) {
        Some(p) => p,
        None => return Err(TranslateError::UnknownTable(table)),
    };
    proof { crate::engine_joins::lemma_find_schema_bound(schemas@, table@); }
    let ghost sc = scope;
    proof { assert(update_scope(*update, schemas@, sc)); }
    let schema = &schemas[p];
    let assignments = match translate_update_assignments(&update.assignments, &scope, schema, column, value) {
        Ok(a) => a,
        Err(x) => {
            proof {
                let w = choose|w: int| #[trigger] assignments_err_at(*column, sc, *value, update.assignments@, *schema, x, w);
                assert(assignments_err_at(*column, sc, *value, update.assignments@, *schema, x, w));
                assert(update_rest_err::<C, V, S, Q>(*column, sc, *value, *subquery, *update, schemas@, schemas@[p as int], table@, x));
            }
            return Err(x);
        },
    };
    proof { assert(assignments_ok(*column, sc, *value, update.assignments@, *schema, assignments@)); }
    let predicate = match &update.selection {
        Some(selection) => match expr_to_qualified_predicate(selection, column, &scope, value, subquery) {
            Ok(pr) => Some(pr),
            Err(x) => {
                proof {
                    assert(update_rest_err::<C, V, S, Q>(*column, sc, *value, *subquery, *update, schemas@, schemas@[p as int], table@, x));
                }
                return Err(x);
            },
        },
        None => None,
    };
    proof { assert(selection_succeeds::<C, V, S, Q>(*column, sc, *value, *subquery, update.selection)); }
    let returning = match &update.returning {
        Some(items_r) => match translate_returning_projection(items_r, table.as_str(), &scope, schemas, column, value) {
            Ok(out) => Some(out),
            Err(x) => {
                proof {
                    assert(update_returning_err(*column, sc, *value, *update, schemas@, table@, x));
                    assert(update_rest_err::<C, V, S, Q>(*column, sc, *value, *subquery, *update, schemas@, schemas@[p as int], table@, x));
                }
                return Err(x);
            },
        },
        None => None,
    };
    let q = UpdateQuery { table, assignments, predicate, joins, from_tables, returning };
    proof {
        assert(update_rest_ok(*column, sc, *value, *subquery, *update, schemas@, schemas@[p as int], q));
        assert(update_joins_ok(items, parts, schemas@, *resolve));
    }
    Ok(q)
}

} // verus!
