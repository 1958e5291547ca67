//! The `JOIN` clauses of a `SELECT` for the storage engine: the joined
//! tables, their kinds and the columns they are joined on.
use vstd::prelude::*;

use crate::engine_ddl::{feature_is, first_position, schema_names, column_position, EngineTableSchema};
use crate::placeholders::TranslateError;
use crate::sql_ast::{SqlBinaryOperator, SqlExpr};
use crate::text::{join, join_spec, str_eq, string_views};
use crate::translator::{first_error, lemma_first_error_prefix, lemma_first_error_step};

verus! {

/// A column of one of the tables of a query, by its position.
#[derive(Debug)]
pub struct QualifiedColumn {
    pub table: String,
    pub column_index: usize,
}

#[derive(Debug, Clone, Copy, PartialEq, Eq, Structural)]
pub enum JoinKind {
    Inner,
    Left,
    Right,
    Full,
}

/// What two joined tables are matched on.
#[derive(Debug)]
pub enum JoinOn {
    ColumnEq { left: QualifiedColumn, right: QualifiedColumn },
    ColumnEqList { pairs: Vec<(QualifiedColumn, QualifiedColumn)> },
}

#[derive(Debug)]
pub struct JoinClause {
    pub kind: JoinKind,
    pub left_table: String,
    pub right_table: String,
    pub on: JoinOn,
}

/// A joined relation: a table, by the parts of its name and its alias, or
/// anything else.
#[derive(Debug)]
pub enum EngineTableFactor {
    Table { name_parts: Vec<String>, alias: Option<String> },
    Other,
}

/// `ON expr`, `USING (columns)` with each column by the parts of its name,
/// or any other constraint.
#[derive(Debug)]
pub enum EngineJoinConstraint {
    On(SqlExpr),
    Using(Vec<Vec<String>>),
    Other,
}

#[derive(Debug)]
pub enum EngineJoinOperator {
    Join(EngineJoinConstraint),
    Inner(EngineJoinConstraint),
    Left(EngineJoinConstraint),
    LeftOuter(EngineJoinConstraint),
    Right(EngineJoinConstraint),
    RightOuter(EngineJoinConstraint),
    FullOuter(EngineJoinConstraint),
    Other,
}

#[derive(Debug)]
pub struct EngineJoin {
    pub relation: EngineTableFactor,
    pub operator: EngineJoinOperator,
}

// ---------------------------------------------------------------------------
// Looking up tables

/// The first schema called `name`: what the schema catalog describes.
pub open spec fn find_schema(schemas: Seq<EngineTableSchema>, name: Seq<char>) -> Option<int>
    decreases schemas.len(),
{
    if schemas.len() == 0 {
        None
    } else if find_schema(schemas.drop_last(), name) is Some {
        find_schema(schemas.drop_last(), name)
    } else if schemas.last().name@ == name {
        Some(schemas.len() - 1)
    } else {
        None
    }
}

proof fn lemma_find_schema_prefix(schemas: Seq<EngineTableSchema>, name: Seq<char>, i: int)
    requires
        0 <= i <= schemas.len(),
        find_schema(schemas.take(i), name) is Some,
    ensures
        find_schema(schemas, name) == find_schema(schemas.take(i), name),
    decreases schemas.len() - i,
{
    if i < schemas.len() {
        assert(schemas.take(i + 1).drop_last() == schemas.take(i));
        lemma_find_schema_prefix(schemas, name, i + 1);
    } else {
        assert(schemas.take(i) == schemas);
    }
}

pub proof fn lemma_find_schema_bound(schemas: Seq<EngineTableSchema>, name: Seq<char>)
    ensures
        find_schema(schemas, name) matches Some(p) ==> 0 <= p < schemas.len() && schemas[p].name@ == name,
    decreases schemas.len(),
{
    if schemas.len() > 0 {
        lemma_find_schema_bound(schemas.drop_last(), name);
    }
}

/// Describes a table: the position of the first schema of that name.
pub fn describe_table(schemas: &Vec<EngineTableSchema>, name: &str) -> (r: Option<usize>)
    ensures
        match r {
            Some(p) => find_schema(schemas@, name@) == Some(p as int),
            None => find_schema(schemas@, name@) is None,
        },
{
    let mut i: usize = 0;
    while i < schemas.len()
        invariant
            i <= schemas@.len(),
            find_schema(schemas@.take(i as int), name@) is None,
        decreases schemas.len() - i,
    {
        assert(schemas@.take(i as int + 1).drop_last() == schemas@.take(i as int));
        if str_eq(schemas[i].name.as_str(), name) {
            proof { lemma_find_schema_prefix(schemas@, name@, i as int + 1); }
            return Some(i);
        }
        i = i + 1;
    }
    assert(schemas@.take(i as int) == schemas@);
    None
}

/// The schema recorded last for the table `name` among the tables known so
/// far, each known table given by its position in `schemas`.
pub open spec fn known_schema(schemas: Seq<EngineTableSchema>, known: Seq<usize>, name: Seq<char>) -> Option<int>
    decreases known.len(),
{
    if known.len() == 0 {
        None
    } else if 0 <= known.last() < schemas.len() && schemas[known.last() as int].name@ == name {
        Some(known.last() as int)
    } else {
        known_schema(schemas, known.drop_last(), name)
    }
}

pub proof fn lemma_known_schema_bound(schemas: Seq<EngineTableSchema>, known: Seq<usize>, name: Seq<char>)
    ensures
        known_schema(schemas, known, name) matches Some(p) ==> 0 <= p < schemas.len() && schemas[p].name@ == name,
    decreases known.len(),
{
    if known.len() > 0 {
        lemma_known_schema_bound(schemas, known.drop_last(), name);
    }
}

/// Looks up a known table, the latest one recorded under that name.
pub fn lookup_known(schemas: &Vec<EngineTableSchema>, known: &Vec<usize>, name: &str) -> (r: Option<usize>)
    ensures
        match r {
            Some(p) => known_schema(schemas@, known@, name@) == Some(p as int),
            None => known_schema(schemas@, known@, name@) is None,
        },
{
    let mut i: usize = known.len();
    assert(known@.take(i as int) == known@);
    while i > 0
        invariant
            i <= known@.len(),
            known_schema(schemas@, known@, name@) == known_schema(schemas@, known@.take(i as int), name@),
        decreases i,
    {
        assert(known@.take(i as int).drop_last() == known@.take(i as int - 1));
        let k = known[i - 1];
        if k < schemas.len() && str_eq(schemas[k].name.as_str(), name) {
            return Some(k);
        }
        i = i - 1;
    }
    None
}

// ---------------------------------------------------------------------------
// ON and USING

/// The name a `USING` column stands for.
pub open spec fn using_name(c: Vec<String>) -> Seq<char> {
    join_spec(string_views(c@), "."@)
}

pub open spec fn using_step(left: Seq<Seq<char>>, right: Seq<Seq<char>>) -> spec_fn(Vec<String>) -> Option<Seq<char>> {
    |c: Vec<String>| if first_position(left, using_name(c)) is None || first_position(right, using_name(c)) is None {
        Some(using_name(c))
    } else {
        None
    }
}

/// The pair of qualified columns joined on `USING` column `c`.
pub open spec fn using_pair(
    p: (QualifiedColumn, QualifiedColumn),
    left_table: Seq<char>,
    right_table: Seq<char>,
    left: Seq<Seq<char>>,
    right: Seq<Seq<char>>,
    c: Vec<String>,
) -> bool {
    &&& p.0.table@ == left_table
    &&& first_position(left, using_name(c)) == Some(p.0.column_index as int)
    &&& p.1.table@ == right_table
    &&& first_position(right, using_name(c)) == Some(p.1.column_index as int)
}

/// What `USING (cols)` gives between two known tables.
pub open spec fn using_outcome(
    cols: Seq<Vec<String>>,
    schemas: Seq<EngineTableSchema>,
    known: Seq<usize>,
    left_table: Seq<char>,
    right_table: Seq<char>,
    r: Result<JoinOn, TranslateError>,
) -> bool {
    if cols.len() == 0 {
        r matches Ok(JoinOn::ColumnEqList { pairs }) && pairs@.len() == 0
    } else {
        match known_schema(schemas, known, left_table) {
            None => r matches Err(TranslateError::UnknownTable(t)) && t@ == left_table,
            Some(li) => match known_schema(schemas, known, right_table) {
                None => r matches Err(TranslateError::UnknownTable(t)) && t@ == right_table,
                Some(ri) => {
                    let left = schema_names(schemas[li].columns@);
                    let right = schema_names(schemas[ri].columns@);
                    match first_error(cols, using_step(left, right)) {
                        Some(m) => r matches Err(TranslateError::UnknownColumn(c)) && c@ == m,
                        None => if cols.len() == 1 {
                            r matches Ok(JoinOn::ColumnEq { left: a, right: b })
                                && using_pair((a, b), left_table, right_table, left, right, cols[0])
                        } else {
                            r matches Ok(JoinOn::ColumnEqList { pairs }) && pairs@.len() == cols.len()
                                && forall|k: int| 0 <= k < cols.len() ==> using_pair(
                                    #[trigger] pairs@[k], left_table, right_table, left, right, cols[k])
                        },
                    }
                },
            },
        }
    }
}

/// What a join constraint gives. A column of `ON a = b` is read by
/// `resolve` against the aliases and known tables at that point.
pub open spec fn join_on_outcome<F>(
    constraint: EngineJoinConstraint,
    aliases: Vec<(String, String)>,
    schemas: Seq<EngineTableSchema>,
    known: Vec<usize>,
    left_table: Seq<char>,
    right_table: Seq<char>,
    resolve: F,
    r: Result<JoinOn, TranslateError>,
) -> bool
    where
        F: Fn(&SqlExpr, &Vec<(String, String)>, &Vec<usize>) -> Result<QualifiedColumn, TranslateError>,
{
    match constraint {
        EngineJoinConstraint::On(expr) => match expr {
            SqlExpr::BinaryOp { left, op, right } => match op {
                SqlBinaryOperator::Eq => match r {
                    Ok(JoinOn::ColumnEq { left: a, right: b }) =>
                        resolve.ensures((&*left, &aliases, &known), Ok::<QualifiedColumn, TranslateError>(a))
                        && resolve.ensures((&*right, &aliases, &known), Ok::<QualifiedColumn, TranslateError>(b)),
                    Ok(_) => false,
                    Err(e) => resolve.ensures((&*left, &aliases, &known), Err::<QualifiedColumn, TranslateError>(e))
                        || exists|a: QualifiedColumn|
                            resolve.ensures((&*left, &aliases, &known), Ok::<QualifiedColumn, TranslateError>(a))
                            && resolve.ensures((&*right, &aliases, &known), Err::<QualifiedColumn, TranslateError>(e)),
                },
                _ => r matches Err(e) && feature_is(e, "only equality ON joins supported"@),
            },
            _ => r matches Err(e) && feature_is(e, "unsupported join ON expression"@),
        },
        EngineJoinConstraint::Using(cols) => using_outcome(cols@, schemas, known@, left_table, right_table, r),
        EngineJoinConstraint::Other => r matches Err(e) && feature_is(e, "only ON and USING join constraints supported"@),
    }
}

fn using_columns(
    cols: &Vec<Vec<String>>,
    schemas: &Vec<EngineTableSchema>,
    known: &Vec<usize>,
    left_table: &str,
    right_table: &str,
) -> (r: Result<JoinOn, TranslateError>)
    ensures
        using_outcome(cols@, schemas@, known@, left_table@, right_table@, r),
{
    if cols.len() == 0 {
        return Ok(JoinOn::ColumnEqList { pairs: Vec::new() });
    }
    let li = match lookup_known(schemas, known, left_table) {
        Some(li) => li,
        None => return Err(TranslateError::UnknownTable(String::from_str(left_table))),
    };
    let ri = match lookup_known(schemas, known, right_table) {
        Some(ri) => ri,
        None => return Err(TranslateError::UnknownTable(String::from_str(right_table))),
    };
    proof {
        lemma_known_schema_bound(schemas@, known@, left_table@);
        lemma_known_schema_bound(schemas@, known@, right_table@);
    }
    let left_columns = &schemas[li].columns;
    let right_columns = &schemas[ri].columns;
    let ghost left = schema_names(left_columns@);
    let ghost right = schema_names(right_columns@);
    let ghost f = using_step(left, right);
    let mut pairs: Vec<(QualifiedColumn, QualifiedColumn)> = Vec::new();
    let mut i: usize = 0;
    while i < cols.len()
        invariant
            i <= cols@.len(),
            f == using_step(left, right),
            cols@.len() > 0,
            known_schema(schemas@, known@, left_table@) == Some(li as int),
            known_schema(schemas@, known@, right_table@) == Some(ri as int),
            li < schemas@.len(),
            ri < schemas@.len(),
            left_columns@ == schemas@[li as int].columns@,
            right_columns@ == schemas@[ri as int].columns@,
            left == schema_names(left_columns@),
            right == schema_names(right_columns@),
            first_error(cols@.take(i as int), f) is None,
            pairs@.len() == i,
            forall|k: int| 0 <= k < i ==> using_pair(#[trigger] pairs@[k], left_table@, right_table@, left, right, cols@[k]),
        decreases cols.len() - i,
    {
        proof { lemma_first_error_step(cols@, f, i as int); }
        let column_name = join(&cols[i], ".");
        let left_idx = match column_position(left_columns, column_name.as_str()) {
            Some(p) => p,
            None => {
                proof {
                    assert(column_name@ == using_name(cols@[i as int]));
                    assert(f(cols@[i as int]) == Some(column_name@));
                    lemma_first_error_prefix(cols@, f, i as int + 1);
                }
                return Err(TranslateError::UnknownColumn(column_name));
            },
        };
        let right_idx = match column_position(right_columns, column_name.as_str()) {
            Some(p) => p,
            None => {
                proof {
                    assert(column_name@ == using_name(cols@[i as int]));
                    assert(f(cols@[i as int]) == Some(column_name@));
                    lemma_first_error_prefix(cols@, f, i as int + 1);
                }
                return Err(TranslateError::UnknownColumn(column_name));
            },
        };
        pairs.push((
            QualifiedColumn { table: String::from_str(left_table), column_index: left_idx },
            QualifiedColumn { table: String::from_str(right_table), column_index: right_idx },
        ));
        i = i + 1;
    }
    assert(cols@.take(i as int) == cols@);
    if pairs.len() == 1 {
        let (left, right) = pairs.remove(0);
        Ok(JoinOn::ColumnEq { left, right })
    } else {
        Ok(JoinOn::ColumnEqList { pairs })
    }
}

/// Reads a join constraint between the left and the right table: `ON a = b`
/// with both columns read by `resolve`, or `USING (columns)` against the
/// known schemas of both tables.
pub fn parse_join_on<F>(
    constraint: &EngineJoinConstraint,
    aliases: &Vec<(String, String)>,
    schemas: &Vec<EngineTableSchema>,
    known: &Vec<usize>,
    left_table: &str,
    right_table: &str,
    resolve: &F,
) -> (r: Result<JoinOn, TranslateError>)
    where
        F: Fn(&SqlExpr, &Vec<(String, String)>, &Vec<usize>) -> Result<QualifiedColumn, TranslateError>,
    requires
        forall|e: &SqlExpr, a: &Vec<(String, String)>, k: &Vec<usize>| resolve.requires((e, a, k)),
    ensures
        join_on_outcome(*constraint, *aliases, schemas@, *known, left_table@, right_table@, *resolve, r),
{
    match constraint {
        EngineJoinConstraint::On(expr) => match expr {
            SqlExpr::BinaryOp { left, op, right } => match op {
                SqlBinaryOperator::Eq => {
                    let left_qc = resolve(&**left, aliases, known)?;
                    let right_qc = resolve(&**right, aliases, known)?;
                    Ok(JoinOn::ColumnEq { left: left_qc, right: right_qc })
                },
                _ => Err(TranslateError::UnsupportedFeature(String::from_str("only equality ON joins supported"))),
            },
            _ => Err(TranslateError::UnsupportedFeature(String::from_str("unsupported join ON expression"))),
        },
        EngineJoinConstraint::Using(cols) => using_columns(cols, schemas, known, left_table, right_table),
        EngineJoinConstraint::Other => Err(TranslateError::UnsupportedFeature(
            String::from_str("only ON and USING join constraints supported"),
        )),
    }
}

// ---------------------------------------------------------------------------
// The joins of a FROM clause

/// The table a relation names and the alias it goes by (the table's own
/// name where it has none).
pub open spec fn relation_names(rel: EngineTableFactor) -> Option<(Seq<char>, Seq<char>)> {
    match rel {
        EngineTableFactor::Table { name_parts, alias } => {
            let t = join_spec(string_views(name_parts@), "."@);
            Some((t, match alias { Some(a) => a@, None => t }))
        },
        EngineTableFactor::Other => None,
    }
}

/// The kind of a join operator and its constraint.
pub open spec fn operator_kind(op: EngineJoinOperator) -> Option<(JoinKind, EngineJoinConstraint)> {
    match op {
        EngineJoinOperator::Join(c) | EngineJoinOperator::Inner(c) => Some((JoinKind::Inner, c)),
        EngineJoinOperator::Left(c) | EngineJoinOperator::LeftOuter(c) => Some((JoinKind::Left, c)),
        EngineJoinOperator::Right(c) | EngineJoinOperator::RightOuter(c) => Some((JoinKind::Right, c)),
        EngineJoinOperator::FullOuter(c) => Some((JoinKind::Full, c)),
        EngineJoinOperator::Other => None,
    }
}

/// The joined table is a table the catalog describes, joined by a
/// supported operator.
pub open spec fn join_static_ok(j: EngineJoin, schemas: Seq<EngineTableSchema>) -> bool {
    &&& relation_names(j.relation) matches Some((t, a)) && find_schema(schemas, t) is Some
    &&& operator_kind(j.operator) is Some
}

/// `e` is the error of a join that fails before its constraint is read.
pub open spec fn static_error_is(j: EngineJoin, schemas: Seq<EngineTableSchema>, e: TranslateError) -> bool {
    match relation_names(j.relation) {
        None => feature_is(e, "unsupported join relation"@),
        Some((t, a)) => if find_schema(schemas, t) is None {
            e matches TranslateError::UnknownTable(x) && x@ == t
        } else {
            operator_kind(j.operator) is None && feature_is(e, "unsupported join operator"@)
        },
    }
}

pub open spec fn table_of(j: EngineJoin) -> Seq<char> {
    match relation_names(j.relation) {
        Some((t, a)) => t,
        None => Seq::empty(),
    }
}

pub open spec fn alias_entry(j: EngineJoin) -> (Seq<char>, Seq<char>) {
    match relation_names(j.relation) {
        Some((t, a)) => (a, t),
        None => (Seq::empty(), Seq::empty()),
    }
}

pub open spec fn known_entry(schemas: Seq<EngineTableSchema>, j: EngineJoin) -> usize {
    match find_schema(schemas, table_of(j)) {
        Some(p) => p as usize,
        None => 0,
    }
}

pub open spec fn alias_views(v: Seq<(String, String)>) -> Seq<(Seq<char>, Seq<char>)> {
    v.map_values(|p: (String, String)| (p.0@, p.1@))
}

/// The alias entries that joins add: `(alias, table)` each.
pub open spec fn added_aliases(js: Seq<EngineJoin>) -> Seq<(Seq<char>, Seq<char>)> {
    js.map_values(|j: EngineJoin| alias_entry(j))
}

pub open spec fn added_tables(js: Seq<EngineJoin>) -> Seq<Seq<char>> {
    js.map_values(|j: EngineJoin| table_of(j))
}

pub open spec fn added_known(schemas: Seq<EngineTableSchema>, js: Seq<EngineJoin>) -> Seq<usize> {
    js.map_values(|j: EngineJoin| known_entry(schemas, j))
}

/// The left table of the `i`th join: the base table, then each joined table.
pub open spec fn left_of(js: Seq<EngineJoin>, base: Seq<char>, i: int) -> Seq<char> {
    if i == 0 { base } else { table_of(js[i - 1]) }
}

/// `clause` is what join `j` gives after the left table `left`, its
/// constraint read with the aliases and known tables as they are once `j`
/// has been added to them.
pub open spec fn join_clause_ok<F>(
    j: EngineJoin,
    clause: JoinClause,
    left: Seq<char>,
    schemas: Seq<EngineTableSchema>,
    aliases_view: Seq<(Seq<char>, Seq<char>)>,
    known_view: Seq<usize>,
    resolve: F,
) -> bool
    where
        F: Fn(&SqlExpr, &Vec<(String, String)>, &Vec<usize>) -> Result<QualifiedColumn, TranslateError>,
{
    &&& join_static_ok(j, schemas)
    &&& clause.right_table@ == table_of(j)
    &&& clause.left_table@ == left
    &&& operator_kind(j.operator) matches Some((k, c)) && clause.kind == k
        && exists|av: Vec<(String, String)>, kv: Vec<usize>|
            alias_views(av@) == aliases_view && kv@ == known_view
            && #[trigger] join_on_outcome(c, av, schemas, kv, left, table_of(j), resolve, Ok::<JoinOn, TranslateError>(clause.on))
}

/// `e` is what join `j` fails with once it has been added to the aliases
/// and known tables.
pub open spec fn join_error_is<F>(
    j: EngineJoin,
    left: Seq<char>,
    schemas: Seq<EngineTableSchema>,
    aliases_view: Seq<(Seq<char>, Seq<char>)>,
    known_view: Seq<usize>,
    resolve: F,
    e: TranslateError,
) -> bool
    where
        F: Fn(&SqlExpr, &Vec<(String, String)>, &Vec<usize>) -> Result<QualifiedColumn, TranslateError>,
{
    if join_static_ok(j, schemas) {
        operator_kind(j.operator) matches Some((k, c))
            && exists|av: Vec<(String, String)>, kv: Vec<usize>|
                alias_views(av@) == aliases_view && kv@ == known_view
                && #[trigger] join_on_outcome(c, av, schemas, kv, left, table_of(j), resolve, Err::<JoinOn, TranslateError>(e))
    } else {
        static_error_is(j, schemas, e)
    }
}

proof fn lemma_added_step(schemas: Seq<EngineTableSchema>, js: Seq<EngineJoin>, i: int)
    requires
        0 <= i < js.len(),
    ensures
        added_aliases(js.take(i + 1)) == added_aliases(js.take(i)).push(alias_entry(js[i])),
        added_tables(js.take(i + 1)) == added_tables(js.take(i)).push(table_of(js[i])),
        added_known(schemas, js.take(i + 1)) == added_known(schemas, js.take(i)).push(known_entry(schemas, js[i])),
{
    assert(added_aliases(js.take(i + 1)) =~= added_aliases(js.take(i)).push(alias_entry(js[i])));
    assert(added_tables(js.take(i + 1)) =~= added_tables(js.take(i)).push(table_of(js[i])));
    assert(added_known(schemas, js.take(i + 1)) =~= added_known(schemas, js.take(i)).push(known_entry(schemas, js[i])));
}

/// Reads one join after the table `left`: records the joined table under its
/// alias, among the referenced tables and among the known tables, then reads
/// its kind and constraint.
fn parse_one_join<F>(
    j: &EngineJoin,
    aliases: &mut Vec<(String, String)>,
    referenced_tables: &mut Vec<String>,
    known: &mut Vec<usize>,
    schemas: &Vec<EngineTableSchema>,
    left: &str,
    resolve: &F,
) -> (r: Result<JoinClause, TranslateError>)
    where
        F: Fn(&SqlExpr, &Vec<(String, String)>, &Vec<usize>) -> Result<QualifiedColumn, TranslateError>,
    requires
        forall|e: &SqlExpr, a: &Vec<(String, String)>, k: &Vec<usize>| resolve.requires((e, a, k)),
    ensures
        match r {
            Ok(clause) => {
                &&& join_clause_ok(*j, clause, left@, schemas@, alias_views(old(aliases)@).push(alias_entry(*j)),
                    old(known)@.push(known_entry(schemas@, *j)), *resolve)
                &&& alias_views(final(aliases)@) == alias_views(old(aliases)@).push(alias_entry(*j))
                &&& string_views(final(referenced_tables)@) == string_views(old(referenced_tables)@).push(table_of(*j))
                &&& final(known)@ == old(known)@.push(known_entry(schemas@, *j))
            },
            Err(e) => join_error_is(*j, left@, schemas@, alias_views(old(aliases)@).push(alias_entry(*j)),
                old(known)@.push(known_entry(schemas@, *j)), *resolve, e),
        },
{
    let ghost av0 = alias_views(aliases@).push(alias_entry(*j));
    let ghost kv0 = known@.push(known_entry(schemas@, *j));
    let (right_table, right_alias) = match &j.relation {
        EngineTableFactor::Table { name_parts, alias } => {
            let table_name = join(name_parts, ".");
            let alias_name = match alias {
                Some(a) => a.clone(),
                None => table_name.clone(),
            };
            (table_name, alias_name)
        },
        EngineTableFactor::Other => {
            return Err(TranslateError::UnsupportedFeature(String::from_str("unsupported join relation")));
        },
    };
    assert(right_table@ == table_of(*j));
    let ghost before_aliases = aliases@;
    aliases.push((right_alias, right_table.clone()));
    proof {
        assert(alias_views(aliases@) =~= alias_views(before_aliases).push(alias_entry(*j)));
    }
    let ghost before_tables = referenced_tables@;
    referenced_tables.push(right_table.clone());
    proof {
        assert(string_views(referenced_tables@) =~= string_views(before_tables).push(table_of(*j)));
    }
    let idx = match describe_table(schemas, right_table.as_str()) {
        Some(p) => p,
        None => return Err(TranslateError::UnknownTable(right_table)),
    };
    known.push(idx);
    let (kind, constraint) = match &j.operator {
        EngineJoinOperator::Join(c) => (JoinKind::Inner, c),
        EngineJoinOperator::Inner(c) => (JoinKind::Inner, c),
        EngineJoinOperator::Left(c) => (JoinKind::Left, c),
        EngineJoinOperator::LeftOuter(c) => (JoinKind::Left, c),
        EngineJoinOperator::Right(c) => (JoinKind::Right, c),
        EngineJoinOperator::RightOuter(c) => (JoinKind::Right, c),
        EngineJoinOperator::FullOuter(c) => (JoinKind::Full, c),
        EngineJoinOperator::Other => {
            return Err(TranslateError::UnsupportedFeature(String::from_str("unsupported join operator")));
        },
    };
    assert(operator_kind(j.operator) == Some((kind, *constraint)));
    assert(join_static_ok(*j, schemas@));
    assert(alias_views(aliases@) == av0);
    assert(known@ == kv0);
    let ghost av = *aliases;
    let ghost kv = *known;
    let on = match parse_join_on(constraint, aliases, schemas, known, left, right_table.as_str(), resolve) {
        Ok(on) => on,
        Err(e) => {
            proof {
                assert(join_on_outcome(*constraint, av, schemas@, kv, left@, table_of(*j), *resolve, Err::<JoinOn, TranslateError>(e)));
            }
            return Err(e);
        },
    };
    let clause = JoinClause { kind, left_table: String::from_str(left), right_table, on };
    proof {
        assert(join_on_outcome(*constraint, av, schemas@, kv, left@, table_of(*j), *resolve, Ok::<JoinOn, TranslateError>(clause.on)));
    }
    Ok(clause)
}

/// The joins fail with `e` at join `i`: every join before it reaches its
/// constraint, and join `i` fails as `join_error_is` says.
pub open spec fn join_failure<F>(
    joins: Seq<EngineJoin>,
    base: Seq<char>,
    schemas: Seq<EngineTableSchema>,
    aliases0: Seq<(Seq<char>, Seq<char>)>,
    known0: Seq<usize>,
    resolve: F,
    e: TranslateError,
    i: int,
) -> bool
    where
        F: Fn(&SqlExpr, &Vec<(String, String)>, &Vec<usize>) -> Result<QualifiedColumn, TranslateError>,
{
    &&& 0 <= i < joins.len()
    &&& forall|k: int| 0 <= k < i ==> #[trigger] join_static_ok(joins[k], schemas)
    &&& join_error_is(joins[i], left_of(joins, base, i), schemas,
        aliases0 + added_aliases(joins.take(i + 1)), known0 + added_known(schemas, joins.take(i + 1)), resolve, e)
}

/// Reads the joins of a FROM clause after its base table. Each joined table
/// is recorded under its alias, among the referenced tables and among the
/// known tables (by its position in `schemas`, the catalog), and is joined to
/// the table before it.
pub fn parse_joins<F>(
    joins: &Vec<EngineJoin>,
    aliases: &mut Vec<(String, String)>,
    referenced_tables: &mut Vec<String>,
    known: &mut Vec<usize>,
    schemas: &Vec<EngineTableSchema>,
    base_table: &str,
    resolve: &F,
) -> (r: Result<Vec<JoinClause>, TranslateError>)
    where
        F: Fn(&SqlExpr, &Vec<(String, String)>, &Vec<usize>) -> Result<QualifiedColumn, TranslateError>,
    requires
        forall|e: &SqlExpr, a: &Vec<(String, String)>, k: &Vec<usize>| resolve.requires((e, a, k)),
    ensures
        match r {
            Ok(out) => {
                &&& out@.len() == joins@.len()
                &&& forall|i: int| 0 <= i < joins@.len() ==> join_clause_ok(
                    joins@[i], #[trigger] out@[i], left_of(joins@, base_table@, i), schemas@,
                    alias_views(old(aliases)@) + added_aliases(joins@.take(i + 1)),
                    old(known)@ + added_known(schemas@, joins@.take(i + 1)), *resolve)
                &&& alias_views(final(aliases)@) == alias_views(old(aliases)@) + added_aliases(joins@)
                &&& string_views(final(referenced_tables)@) == string_views(old(referenced_tables)@) + added_tables(joins@)
                &&& final(known)@ == old(known)@ + added_known(schemas@, joins@)
            },
            Err(e) => exists|i: int| #[trigger] join_failure(joins@, base_table@, schemas@,
                alias_views(old(aliases)@), old(known)@, *resolve, e, i),
        },
{
    let ghost a0 = alias_views(aliases@);
    let ghost t0 = string_views(referenced_tables@);
    let ghost k0 = known@;
    let ghost js = joins@;
    let mut out: Vec<JoinClause> = Vec::new();
    let mut current_left = String::from_str(base_table);
    let mut i: usize = 0;
    while i < joins.len()
        invariant
            i <= js.len(),
            js == joins@,
            a0 == alias_views(old(aliases)@),
            k0 == old(known)@,
            t0 == string_views(old(referenced_tables)@),
            forall|e: &SqlExpr, a: &Vec<(String, String)>, k: &Vec<usize>| resolve.requires((e, a, k)),
            out@.len() == i,
            current_left@ == left_of(js, base_table@, i as int),
            alias_views(aliases@) == a0 + added_aliases(js.take(i as int)),
            string_views(referenced_tables@) == t0 + added_tables(js.take(i as int)),
            known@ == k0 + added_known(schemas@, js.take(i as int)),
            forall|k: int| 0 <= k < i ==> #[trigger] join_static_ok(js[k], schemas@),
            forall|k: int| 0 <= k < i ==> join_clause_ok(
                js[k], #[trigger] out@[k], left_of(js, base_table@, k), schemas@,
                a0 + added_aliases(js.take(k + 1)), k0 + added_known(schemas@, js.take(k + 1)), *resolve),
        decreases joins.len() - i,
    {
        proof {
            lemma_added_step(schemas@, js, i as int);
            assert(a0 + added_aliases(js.take(i as int + 1)) == (a0 + added_aliases(js.take(i as int))).push(alias_entry(js[i as int])));
            assert(t0 + added_tables(js.take(i as int + 1)) == (t0 + added_tables(js.take(i as int))).push(table_of(js[i as int])));
            assert(k0 + added_known(schemas@, js.take(i as int + 1)) == (k0 + added_known(schemas@, js.take(i as int))).push(known_entry(schemas@, js[i as int])));
        }
        let clause = match parse_one_join(&joins[i], aliases, referenced_tables, known, schemas, current_left.as_str(), resolve) {
            Ok(c) => c,
            Err(e) => {
                proof {
                    let w = i as int;
                    assert(forall|k: int| 0 <= k < w ==> #[trigger] join_static_ok(js[k], schemas@));
                    assert(join_error_is(js[w], left_of(js, base_table@, w), schemas@,
                        a0 + added_aliases(js.take(w + 1)), k0 + added_known(schemas@, js.take(w + 1)), *resolve, e));
                    assert(join_failure(js, base_table@, schemas@, a0, k0, *resolve, e, w));
                    assert(a0 == alias_views(old(aliases)@));
                    assert(k0 == old(known)@);
                    assert(join_failure(joins@, base_table@, schemas@, alias_views(old(aliases)@), old(known)@, *resolve, e, w));
                }
                return Err(e);
            },
        };
        let next_left = clause.right_table.clone();
        out.push(clause);
        current_left = next_left;
        i = i + 1;
    }
    assert(js.take(i as int) == js);
    Ok(out)
}

/// A FROM item: a base relation and the joins after it.
#[derive(Debug)]
pub struct EngineTableWithJoins {
    pub relation: EngineTableFactor,
    pub joins: Vec<EngineJoin>,
}

/// Reads the base table of a FROM item: records it under its alias, among
/// the referenced tables and among the known tables, and gives its name.
pub fn parse_from_clause(
    from: &EngineTableWithJoins,
    schemas: &Vec<EngineTableSchema>,
    aliases: &mut Vec<(String, String)>,
    referenced_tables: &mut Vec<String>,
    known: &mut Vec<usize>,
) -> (r: Result<String, TranslateError>)
    ensures
        match relation_names(from.relation) {
            None => r matches Err(e) && feature_is(e, "unsupported table factor"@),
            Some((t, a)) => match find_schema(schemas@, t) {
                None => r matches Err(TranslateError::UnknownTable(x)) && x@ == t,
                Some(p) => {
                    &&& r matches Ok(base) && base@ == t
                    &&& alias_views(final(aliases)@) == alias_views(old(aliases)@).push((a, t))
                    &&& string_views(final(referenced_tables)@) == string_views(old(referenced_tables)@).push(t)
                    &&& final(known)@ == old(known)@.push(p as usize)
                },
            },
        },
{
    let (base_table, base_alias) = match &from.relation {
        EngineTableFactor::Table { name_parts, alias } => {
            let table_name = join(name_parts, ".");
            let alias_name = match alias {
                Some(a) => a.clone(),
                None => table_name.clone(),
            };
            (table_name, alias_name)
        },
        EngineTableFactor::Other => {
            return Err(TranslateError::UnsupportedFeature(String::from_str("unsupported table factor")));
        },
    };
    let ghost before_aliases = aliases@;
    aliases.push((base_alias, base_table.clone()));
    proof {
        assert(alias_views(aliases@) =~= alias_views(before_aliases).push(alias_entry(EngineJoin { relation: from.relation, operator: EngineJoinOperator::Other })));
    }
    let ghost before_tables = referenced_tables@;
    referenced_tables.push(base_table.clone());
    proof {
        assert(string_views(referenced_tables@) =~= string_views(before_tables).push(base_table@));
    }
    let idx = match describe_table(schemas, base_table.as_str()) {
        Some(p) => p,
        None => return Err(TranslateError::UnknownTable(base_table)),
    };
    known.push(idx);
    Ok(base_table)
}

/// A join clause has the kind its SQL operator names: `JOIN` and
/// `INNER JOIN` inner, `LEFT [OUTER] JOIN` left, `RIGHT [OUTER] JOIN`
/// right and `FULL OUTER JOIN` full.
pub proof fn law_join_clause_kind_follows_operator<F>(
    j: EngineJoin,
    clause: JoinClause,
    left: Seq<char>,
    schemas: Seq<EngineTableSchema>,
    aliases_view: Seq<(Seq<char>, Seq<char>)>,
    known_view: Seq<usize>,
    resolve: F,
)
    where
        F: Fn(&SqlExpr, &Vec<(String, String)>, &Vec<usize>) -> Result<QualifiedColumn, TranslateError>,
    requires
        join_clause_ok(j, clause, left, schemas, aliases_view, known_view, resolve),
    ensures
        (j.operator is Join || j.operator is Inner) <==> clause.kind == JoinKind::Inner,
        (j.operator is Left || j.operator is LeftOuter) <==> clause.kind == JoinKind::Left,
        (j.operator is Right || j.operator is RightOuter) <==> clause.kind == JoinKind::Right,
        j.operator is FullOuter <==> clause.kind == JoinKind::Full,
{
}

} // verus!
