//! `INSERT` for the storage engine: one row of values, each turned into the
//! type of its column, and an optional `RETURNING` list.
use vstd::prelude::*;

use crate::engine_ddl::{column_position, feature_is, first_position, schema_names, EngineTableSchema};
use crate::engine_dml::{projection_err, projection_ok, translate_returning_projection, ReturningItem, UpdateValueExpr};
use crate::engine_joins::{alias_views, describe_table, find_schema, known_schema, QualifiedColumn};
use crate::engine_predicates::{PredicateExpr, Scope};
use crate::engine_types::EngineValue;
use crate::engine_update::{convert_value_to_column_type, converted};
use crate::placeholders::TranslateError;
use crate::text::{concat, join, join_spec, string_views};

verus! {

/// The target of an `INSERT`: a table by the parts of its name, or another kind.
#[derive(Debug)]
pub enum InsertTable {
    Name(Vec<String>),
    Other,
}

/// The source of an `INSERT`: none, a `VALUES` list of rows, or another query.
#[derive(Debug)]
pub enum InsertSource {
    Missing,
    Values(Vec<Vec<PredicateExpr>>),
    Other,
}

/// A parsed `INSERT`: whether it has a `SET` list, the debug text of its
/// `ON` clause where it has one, the table, the named columns, the source
/// and the `RETURNING` list.
#[derive(Debug)]
pub struct EngineInsert {
    pub has_assignments: bool,
    pub on: Option<String>,
    pub table: InsertTable,
    pub columns: Vec<String>,
    pub source: InsertSource,
    pub returning: Option<Vec<ReturningItem>>,
}

/// What the engine runs for an `INSERT`: the table, the full row, and the
/// returned values.
#[derive(Debug)]
pub struct InsertQuery {
    pub table: String,
    pub row: Vec<EngineValue>,
    pub returning: Option<Vec<UpdateValueExpr>>,
}

/// The columns an `INSERT` writes: those it names, or every column of the table.
pub open spec fn insert_columns(ins: EngineInsert, schema: EngineTableSchema) -> Seq<Seq<char>> {
    if ins.columns@.len() == 0 { schema_names(schema.columns@) } else { string_views(ins.columns@) }
}

/// The row expressions of an `INSERT`, or the error message of its source.
pub open spec fn insert_source_row(ins: EngineInsert, count: nat) -> Result<Seq<PredicateExpr>, Seq<char>> {
    match ins.source {
        InsertSource::Missing => Err("INSERT without source unsupported"@),
        InsertSource::Other => Err("only INSERT ... VALUES (...) is supported"@),
        InsertSource::Values(rows) => if rows@.len() != 1 {
            Err("only single-row INSERT VALUES supported"@)
        } else if rows@[0]@.len() != count {
            Err("INSERT column count does not match VALUES count"@)
        } else {
            Ok(rows@[0]@)
        },
    }
}

/// Writing value `i` of the row can succeed: its column exists, the literal
/// reader gives a value, and the value fits the column's type.
pub open spec fn row_value_succeeds<V>(value: V, schema: EngineTableSchema, column: Seq<char>, e: PredicateExpr) -> bool
    where V: Fn(&PredicateExpr) -> Result<EngineValue, TranslateError>,
{
    first_position(schema_names(schema.columns@), column) matches Some(idx)
        && exists|raw: EngineValue, v: EngineValue| #![trigger value.ensures((&e,), Ok::<EngineValue, TranslateError>(raw)), converted(raw, schema.columns@[idx].data_type, Ok(v))]
            value.ensures((&e,), Ok::<EngineValue, TranslateError>(raw))
            && converted(raw, schema.columns@[idx].data_type, Ok(v))
}

/// Writing value `i` fails with `x`: an unknown column, the literal reader's
/// error, or a value that does not fit the column's type.
pub open spec fn row_value_err<V>(value: V, schema: EngineTableSchema, column: Seq<char>, e: PredicateExpr, x: TranslateError) -> bool
    where V: Fn(&PredicateExpr) -> Result<EngineValue, TranslateError>,
{
    match first_position(schema_names(schema.columns@), column) {
        None => x matches TranslateError::UnknownColumn(c) && c@ == column,
        Some(idx) => value.ensures((&e,), Err::<EngineValue, TranslateError>(x))
            || exists|raw: EngineValue| #[trigger] value.ensures((&e,), Ok::<EngineValue, TranslateError>(raw))
                && converted(raw, schema.columns@[idx].data_type, Err(x)),
    }
}

/// Building the row fails with `x` at value `i`: every earlier value was
/// written, and value `i` gives `x`.
pub open spec fn row_fails<V>(value: V, schema: EngineTableSchema, names: Seq<Seq<char>>, exprs: Seq<PredicateExpr>, x: TranslateError) -> bool
    where V: Fn(&PredicateExpr) -> Result<EngineValue, TranslateError>,
{
    exists|i: int| {
        &&& 0 <= i < exprs.len()
        &&& forall|k: int| 0 <= k < i ==> #[trigger] row_value_succeeds(value, schema, names[k], exprs[k])
        &&& #[trigger] row_value_err(value, schema, names[i], exprs[i], x)
    }
}

/// The positions in the table of the named columns.
pub open spec fn positions(schema: EngineTableSchema, names: Seq<Seq<char>>) -> Seq<int> {
    names.map_values(|n: Seq<char>| match first_position(schema_names(schema.columns@), n) {
        Some(p) => p,
        None => 0,
    })
}

/// `base` with `vals[i]` written at `idxs[i]` in order, a later write
/// winning over an earlier one.
pub open spec fn write_all(base: Seq<EngineValue>, idxs: Seq<int>, vals: Seq<EngineValue>) -> Seq<EngineValue>
    decreases vals.len(),
{
    if vals.len() == 0 {
        base
    } else {
        write_all(base, idxs, vals.drop_last()).update(idxs[vals.len() - 1], vals.last())
    }
}

/// Each value expression's column exists, and the literal reader gave
/// `raws[i]` for it, which turned into `vals[i]` in the column's type.
pub open spec fn row_values_ok<V>(
    value: V,
    schema: EngineTableSchema,
    names: Seq<Seq<char>>,
    exprs: Seq<PredicateExpr>,
    raws: Seq<EngineValue>,
    vals: Seq<EngineValue>,
) -> bool
    where V: Fn(&PredicateExpr) -> Result<EngineValue, TranslateError>,
{
    &&& raws.len() == vals.len()
    &&& vals.len() <= exprs.len()
    &&& vals.len() <= names.len()
    &&& forall|i: int| 0 <= i < vals.len() ==> #[trigger] value_ok_at(value, schema, names[i], exprs[i], raws[i], vals[i])
}

/// The column called `name` exists, the literal reader gave `raw` for `e`,
/// and `raw` turned into `v` in the column's type.
pub open spec fn value_ok_at<V>(value: V, schema: EngineTableSchema, name: Seq<char>, e: PredicateExpr, raw: EngineValue, v: EngineValue) -> bool
    where V: Fn(&PredicateExpr) -> Result<EngineValue, TranslateError>,
{
    &&& first_position(schema_names(schema.columns@), name) matches Some(idx)
    &&& value.ensures((&e,), Ok::<EngineValue, TranslateError>(raw))
    &&& converted(raw, schema.columns@[idx].data_type, Ok(v))
}

/// The all-null row of a table.
pub open spec fn null_row(schema: EngineTableSchema) -> Seq<EngineValue> {
    Seq::new(schema.columns@.len(), |k: int| EngineValue::Null)
}

/// `row` is the row built from the first `n` values: starting from nulls,
/// value `i` written, once turned into its column's type, into the column
/// named `names[i]`, a later value winning over an earlier one.
pub open spec fn row_built<V>(
    value: V,
    schema: EngineTableSchema,
    names: Seq<Seq<char>>,
    exprs: Seq<PredicateExpr>,
    n: nat,
    row: Seq<EngineValue>,
) -> bool
    where V: Fn(&PredicateExpr) -> Result<EngineValue, TranslateError>,
{
    exists|raws: Seq<EngineValue>, vals: Seq<EngineValue>| {
        &&& #[trigger] row_values_ok(value, schema, names, exprs, raws, vals)
        &&& vals.len() == n
        &&& row == write_all(null_row(schema), positions(schema, names), vals)
    }
}

/// Reads value expression `e` for the column called `name`: the column's
/// position and the value, turned into the column's type.
fn row_value<V>(e: &PredicateExpr, name: &str, schema: &EngineTableSchema, value: &V) -> (r: Result<(usize, EngineValue), TranslateError>)
    where V: Fn(&PredicateExpr) -> Result<EngineValue, TranslateError>,
    requires
        forall|x: &PredicateExpr| value.requires((x,)),
    ensures
        match r {
            Ok((idx, v)) => {
                &&& first_position(schema_names(schema.columns@), name@) == Some(idx as int)
                &&& idx < schema.columns@.len()
                &&& row_value_succeeds(*value, *schema, name@, *e)
                &&& exists|raw: EngineValue| #[trigger] value.ensures((e,), Ok::<EngineValue, TranslateError>(raw))
                    && converted(raw, schema.columns@[idx as int].data_type, Ok(v))
            },
            Err(x) => row_value_err(*value, *schema, name@, *e, x),
        },
{
    let idx = match column_position(&schema.columns, name) {
        Some(p) => p,
        None => return Err(TranslateError::UnknownColumn(String::from_str(name))),
    };
    proof { crate::engine_ddl::lemma_first_position_bound(schema_names(schema.columns@), name@); }
    let raw = match value(e) {
        Ok(v) => v,
        Err(x) => return Err(x),
    };
    let ghost raw0 = raw;
    match convert_value_to_column_type(raw, &schema.columns[idx].data_type) {
        Ok(v) => {
            proof { assert(value.ensures((e,), Ok::<EngineValue, TranslateError>(raw0))); }
            Ok((idx, v))
        },
        Err(x) => {
            proof { assert(value.ensures((e,), Ok::<EngineValue, TranslateError>(raw0))); }
            Err(x)
        },
    }
}

proof fn lemma_row_step<V>(
    value: V,
    schema: EngineTableSchema,
    names: Seq<Seq<char>>,
    exprs: Seq<PredicateExpr>,
    raws: Seq<EngineValue>,
    vals: Seq<EngineValue>,
    raw: EngineValue,
    v: EngineValue,
    idx: int,
)
    where V: Fn(&PredicateExpr) -> Result<EngineValue, TranslateError>,
    requires
        row_values_ok(value, schema, names, exprs, raws, vals),
        vals.len() < exprs.len(),
        vals.len() < names.len(),
        first_position(schema_names(schema.columns@), names[vals.len() as int]) == Some(idx),
        value.ensures((&exprs[vals.len() as int],), Ok::<EngineValue, TranslateError>(raw)),
        converted(raw, schema.columns@[idx].data_type, Ok(v)),
    ensures
        row_values_ok(value, schema, names, exprs, raws.push(raw), vals.push(v)),
{
    let raws2 = raws.push(raw);
    let vals2 = vals.push(v);
    let n = vals.len() as int;
    assert(value_ok_at(value, schema, names[n], exprs[n], raw, v));
    assert forall|j: int| 0 <= j < vals2.len() implies #[trigger] value_ok_at(value, schema, names[j], exprs[j], raws2[j], vals2[j]) by {
        if j < n {
            assert(raws2[j] == raws[j]);
            assert(vals2[j] == vals[j]);
        }
    }
}

/// Builds the row of an `INSERT` into the table `schema` describes.
fn build_insert_row<V>(
    ins: &EngineInsert,
    schema: &EngineTableSchema,
    columns: &Vec<String>,
    value: &V,
) -> (r: Result<Vec<EngineValue>, TranslateError>)
    where V: Fn(&PredicateExpr) -> Result<EngineValue, TranslateError>,
    requires
        forall|x: &PredicateExpr| value.requires((x,)),
    ensures
        match insert_source_row(*ins, columns@.len()) {
            Err(m) => r matches Err(x) && feature_is(x, m),
            Ok(exprs) => match r {
                Ok(row) => row_built(*value, *schema, string_views(columns@), exprs, exprs.len(), row@),
                Err(x) => row_fails(*value, *schema, string_views(columns@), exprs, x),
            },
        },
{
    let rows = match &ins.source {
        InsertSource::Missing => {
            return Err(TranslateError::UnsupportedFeature(String::from_str("INSERT without source unsupported")));
        },
        InsertSource::Other => {
            return Err(TranslateError::UnsupportedFeature(String::from_str("only INSERT ... VALUES (...) is supported")));
        },
        InsertSource::Values(rows) => rows,
    };
    if rows.len() != 1 {
        return Err(TranslateError::UnsupportedFeature(String::from_str("only single-row INSERT VALUES supported")));
    }
    let row_exprs = &rows[0];
    if row_exprs.len() != columns.len() {
        return Err(TranslateError::UnsupportedFeature(String::from_str("INSERT column count does not match VALUES count")));
    }
    let ghost exprs = row_exprs@;
    let ghost names = string_views(columns@);
    let mut row: Vec<EngineValue> = Vec::new();
    let mut k: usize = 0;
    while k < schema.columns.len()
        invariant
            k <= schema.columns@.len(),
            row@ == Seq::new(k as nat, |j: int| EngineValue::Null),
        decreases schema.columns.len() - k,
    {
        row.push(EngineValue::Null);
        proof { assert(row@ =~= Seq::new(k as nat + 1, |j: int| EngineValue::Null)); }
        k = k + 1;
    }
    let ghost mut raws: Seq<EngineValue> = Seq::empty();
    let ghost mut vals: Seq<EngineValue> = Seq::empty();
    proof { assert(row@ =~= null_row(*schema)); }
    let mut i: usize = 0;
    while i < row_exprs.len()
        invariant
            i <= exprs.len(),
            exprs == row_exprs@,
            insert_source_row(*ins, columns@.len()) == Ok::<Seq<PredicateExpr>, Seq<char>>(exprs),
            exprs.len() == columns@.len(),
            names == string_views(columns@),
            forall|x: &PredicateExpr| value.requires((x,)),
            row@.len() == schema.columns@.len(),
            row_values_ok(*value, *schema, names, exprs, raws, vals),
            vals.len() == i,
            row@ == write_all(null_row(*schema), positions(*schema, names), vals),
            forall|j: int| 0 <= j < i ==> #[trigger] row_value_succeeds(*value, *schema, names[j], exprs[j]),
        decreases row_exprs.len() - i,
    {
        assert(names[i as int] == columns@[i as int]@);
        let (idx, v) = match row_value(&row_exprs[i], columns[i].as_str(), schema, value) {
            Ok(pair) => pair,
            Err(x) => {
                proof {
                    assert(row_value_err(*value, *schema, names[i as int], exprs[i as int], x));
                    assert(0 <= i < exprs.len());
                    assert(forall|k: int| 0 <= k < i ==> #[trigger] row_value_succeeds(*value, *schema, string_views(columns@)[k], exprs[k]));
                    assert(row_value_err(*value, *schema, string_views(columns@)[i as int], exprs[i as int], x));
                    assert(row_fails(*value, *schema, string_views(columns@), exprs, x));
                }
                return Err(x);
            },
        };
        let ghost prev = row@;
        let ghost old_vals = vals;
        let ghost old_raws = raws;
        let ghost raw0 = choose|raw0: EngineValue| #[trigger] value.ensures((&exprs[i as int],), Ok::<EngineValue, TranslateError>(raw0))
            && converted(raw0, schema.columns@[idx as int].data_type, Ok(v));
        row.set(idx, v);
        proof {
            raws = raws.push(raw0);
            vals = vals.push(v);
            lemma_row_step(*value, *schema, names, exprs, old_raws, old_vals, raw0, v, idx as int);
            assert(vals.drop_last() == old_vals);
            assert(positions(*schema, names)[i as int] == idx as int);
        }
        i = i + 1;
    }
    proof { assert(row_values_ok(*value, *schema, names, exprs, raws, vals)); }
    Ok(row)
}

/// What the returned values of an `INSERT` into `table` give, its row read.
pub open spec fn insert_returning_ok<C, V>(column: C, scope: Scope, value: V, returning: Option<Vec<ReturningItem>>, table: Seq<char>, count: nat, r: Result<Option<Vec<UpdateValueExpr>>, TranslateError>) -> bool
    where
        C: Fn(&PredicateExpr, &Scope) -> Result<QualifiedColumn, TranslateError>,
        V: Fn(&PredicateExpr) -> Result<EngineValue, TranslateError>,
{
    match returning {
        None => r matches Ok(None),
        Some(items) => match r {
            Ok(Some(out)) => projection_ok(column, scope, value, items@, table, count, out@),
            Ok(None) => false,
            Err(x) => projection_err(column, scope, value, items@, table, count, x),
        },
    }
}

/// The table an `INSERT` names, or the error message.
pub open spec fn insert_table_name(ins: EngineInsert) -> Result<Seq<char>, Seq<char>> {
    match ins.table {
        InsertTable::Name(parts) => Ok(join_spec(string_views(parts@), "."@)),
        InsertTable::Other => Err("only table name inserts supported"@),
    }
}

/// The error an `INSERT` gives before its table is looked up, if any.
pub open spec fn insert_shape_error(ins: EngineInsert) -> Option<Seq<char>> {
    if ins.has_assignments {
        Some("INSERT ... SET is not supported"@)
    } else {
        match ins.on {
            Some(d) => Some("INSERT ON is not supported: "@ + d@),
            None => match insert_table_name(ins) {
                Err(m) => Some(m),
                Ok(_) => None,
            },
        }
    }
}

/// What an `INSERT` into the known table `schemas[p]`, called `t`, gives.
pub open spec fn insert_outcome<C, V>(
    ins: EngineInsert,
    schemas: Seq<EngineTableSchema>,
    p: int,
    t: Seq<char>,
    column: C,
    value: V,
    r: Result<InsertQuery, TranslateError>,
) -> bool
    where
        C: Fn(&PredicateExpr, &Scope) -> Result<QualifiedColumn, TranslateError>,
        V: Fn(&PredicateExpr) -> Result<EngineValue, TranslateError>,
{
    let schema = schemas[p];
    let names = insert_columns(ins, schema);
    match insert_source_row(ins, names.len()) {
        Err(m) => r matches Err(x) && feature_is(x, m),
        Ok(exprs) => exists|sc: Scope| {
            &&& alias_views(sc.aliases@) == seq![(t, t)]
            &&& sc.known@ == seq![p as usize]
            &&& #[trigger] insert_rest_ok(column, sc, value, ins, schema, names, exprs, t, r)
        },
    }
}

/// What an `INSERT` gives once its row expressions `exprs` for columns
/// `names` are known, its returned values read against `scope`.
pub open spec fn insert_rest_ok<C, V>(
    column: C,
    scope: Scope,
    value: V,
    ins: EngineInsert,
    schema: EngineTableSchema,
    names: Seq<Seq<char>>,
    exprs: Seq<PredicateExpr>,
    t: Seq<char>,
    r: Result<InsertQuery, TranslateError>,
) -> bool
    where
        C: Fn(&PredicateExpr, &Scope) -> Result<QualifiedColumn, TranslateError>,
        V: Fn(&PredicateExpr) -> Result<EngineValue, TranslateError>,
{
    match r {
        Ok(q) => {
            &&& q.table@ == t
            &&& row_built(value, schema, names, exprs, exprs.len(), q.row@)
            &&& insert_returning_ok(column, scope, value, ins.returning, t, schema.columns@.len(), Ok(q.returning))
        },
        Err(x) => {
            ||| row_fails(value, schema, names, exprs, x)
            ||| (exists|row: Seq<EngineValue>| #[trigger] row_built(value, schema, names, exprs, exprs.len(), row))
                && insert_returning_ok(column, scope, value, ins.returning, t, schema.columns@.len(), Err(x))
        },
    }
}

/// What translating the `INSERT` `ins` against the catalog `schemas` gives:
/// the error of its shape or of an unknown table, or else the outcome of
/// its row and `RETURNING` list.
pub open spec fn insert_translated<C, V>(
    ins: EngineInsert,
    schemas: Seq<EngineTableSchema>,
    column: C,
    value: V,
    r: Result<InsertQuery, TranslateError>,
) -> bool
    where
        C: Fn(&PredicateExpr, &Scope) -> Result<QualifiedColumn, TranslateError>,
        V: Fn(&PredicateExpr) -> Result<EngineValue, TranslateError>,
{
    match insert_shape_error(ins) {
        Some(m) => r matches Err(x) && feature_is(x, m),
        None => {
            let t = insert_table_name(ins)->Ok_0;
            match find_schema(schemas, t) {
                None => r matches Err(TranslateError::UnknownTable(x)) && x@ == t,
                Some(p) => insert_outcome(ins, schemas, p, t, column, value, r),
            }
        },
    }
}

/// Translates an `INSERT` of one row of values into a table of `schemas`,
/// the catalog; `value` reads each value and `column` the columns of the
/// `RETURNING` list.
pub fn translate_insert<C, V>(
    ins: &EngineInsert,
    schemas: &Vec<EngineTableSchema>,
    column: &C,
    value: &V,
) -> (r: Result<InsertQuery, TranslateError>)
    where
        C: Fn(&PredicateExpr, &Scope) -> Result<QualifiedColumn, TranslateError>,
        V: Fn(&PredicateExpr) -> Result<EngineValue, TranslateError>,
    requires
        forall|x: &PredicateExpr, y: &Scope| column.requires((x, y)),
        forall|x: &PredicateExpr| value.requires((x,)),
    ensures
        insert_translated(*ins, schemas@, *column, *value, r),
{
    if ins.has_assignments {
        return Err(TranslateError::UnsupportedFeature(String::from_str("INSERT ... SET is not supported")));
    }
    if let Some(on) = &ins.on {
        return Err(TranslateError::UnsupportedFeature(concat("INSERT ON is not supported: ", on.as_str())));
    }
    let table = match &ins.table {
        InsertTable::Name(parts) => join(parts, "."),
        InsertTable::Other => {
            return Err(TranslateError::UnsupportedFeature(String::from_str("only table name inserts supported")));
        },
    };
    let p = match describe_table(schemas, table.as_str()) {
        Some(p) => p,
        None => return Err(TranslateError::UnknownTable(table)),
    };
    proof { crate::engine_joins::lemma_find_schema_bound(schemas@, table@); }
    let schema = &schemas[p];
    let columns: Vec<String> = if ins.columns.len() == 0 {
        let mut names: Vec<String> = Vec::new();
        let mut k: usize = 0;
        while k < schema.columns.len()
            invariant
                k <= schema.columns@.len(),
                string_views(names@) == schema_names(schema.columns@).take(k as int),
            decreases schema.columns.len() - k,
        {
            let ghost before = names@;
            names.push(schema.columns[k].name.clone());
            proof {
                assert(string_views(names@) =~= string_views(before).push(schema.columns@[k as int].name@));
                assert(schema_names(schema.columns@).take(k as int + 1) =~= schema_names(schema.columns@).take(k as int).push(schema.columns@[k as int].name@));
            }
            k = k + 1;
        }
        assert(schema_names(schema.columns@).take(k as int) =~= schema_names(schema.columns@));
        names
    } else {
        let mut names: Vec<String> = Vec::new();
        let mut k: usize = 0;
        while k < ins.columns.len()
            invariant
                k <= ins.columns@.len(),
                string_views(names@) == string_views(ins.columns@).take(k as int),
            decreases ins.columns.len() - k,
        {
            let ghost before = names@;
            names.push(ins.columns[k].clone());
            proof {
                assert(string_views(names@) =~= string_views(before).push(ins.columns@[k as int]@));
                assert(string_views(ins.columns@).take(k as int + 1) =~= string_views(ins.columns@).take(k as int).push(ins.columns@[k as int]@));
            }
            k = k + 1;
        }
        assert(string_views(ins.columns@).take(k as int) =~= string_views(ins.columns@));
        names
    };
    assert(string_views(columns@) == insert_columns(*ins, *schema));
    let mut scope = Scope { aliases: Vec::new(), known: Vec::new() };
    scope.aliases.push((table.clone(), table.clone()));
    scope.known.push(p);
    proof {
        assert(alias_views(scope.aliases@) =~= seq![(table@, table@)]);
        assert(scope.known@ =~= seq![p]);
        assert(known_schema(schemas@, scope.known@, table@) == Some(p as int)) by {
            assert(scope.known@.last() == p);
        }
    }
    let ghost sc = scope;
    let row = match build_insert_row(ins, schema, &columns, value) {
        Ok(row) => row,
        Err(x) => {
            proof {
                if insert_source_row(*ins, columns@.len()) is Ok {
                    assert(insert_rest_ok(*column, sc, *value, *ins, *schema, insert_columns(*ins, *schema),
                        insert_source_row(*ins, columns@.len())->Ok_0, table@, Err::<InsertQuery, TranslateError>(x)));
                }
            }
            return Err(x);
        },
    };
    let ghost row0 = row@;
    let returning = match &ins.returning {
        Some(items) => match translate_returning_projection(items, table.as_str(), &scope, schemas, column, value) {
            Ok(out) => Some(out),
            Err(x) => {
                proof {
                    assert(insert_rest_ok(*column, sc, *value, *ins, *schema, insert_columns(*ins, *schema),
                        insert_source_row(*ins, columns@.len())->Ok_0, table@, Err::<InsertQuery, TranslateError>(x)));
                }
                return Err(x);
            },
        },
        None => None,
    };
    let q = InsertQuery { table, row, returning };
    proof {
        assert(insert_rest_ok(*column, sc, *value, *ins, *schema, insert_columns(*ins, *schema),
            insert_source_row(*ins, columns@.len())->Ok_0, q.table@, Ok::<InsertQuery, TranslateError>(q)));
    }
    Ok(q)
}

} // verus!
