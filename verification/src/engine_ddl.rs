//! `CREATE TABLE` for the storage engine: column types, the primary key and
//! the table schema that the engine stores.
use vstd::prelude::*;

use crate::engine_types::EngineType;
use crate::placeholders::TranslateError;
use crate::text::{concat, join, join_spec, str_eq, string_views};
use crate::translator::{first_error, lemma_first_error_prefix, lemma_first_error_step};

verus! {

/// A column type as the SQL parser names it. Arguments such as lengths are
/// not read; `Other` keeps the parser's debug text of any other type.
#[derive(Debug)]
pub enum SqlTypeName {
    Int,
    Int2,
    Int4,
    Int8,
    Integer,
    SmallInt,
    BigInt,
    MediumInt,
    TinyInt,
    Unsigned,
    UnsignedInteger,
    Signed,
    SignedInteger,
    IntUnsigned,
    Int4Unsigned,
    BigIntUnsigned,
    MediumIntUnsigned,
    TinyIntUnsigned,
    UInt8,
    UInt16,
    UInt32,
    UInt64,
    UInt128,
    UInt256,
    UBigInt,
    UHugeInt,
    SmallIntUnsigned,
    UTinyInt,
    Int2Unsigned,
    Float,
    FloatUnsigned,
    Float4,
    Float32,
    Float64,
    Char,
    Character,
    CharacterVarying,
    CharVarying,
    Varchar,
    Nvarchar,
    StringType,
    Text,
    TinyText,
    MediumText,
    LongText,
    Clob,
    CharacterLargeObject,
    CharLargeObject,
    Json,
    Uuid,
    Binary,
    Varbinary,
    Blob,
    TinyBlob,
    MediumBlob,
    LongBlob,
    Bytes,
    Other(String),
}

/// The stored type of a SQL column type, where it has one.
pub open spec fn engine_type_of(t: SqlTypeName) -> Option<EngineType> {
    match t {
        SqlTypeName::Int | SqlTypeName::Int2 | SqlTypeName::Int4 | SqlTypeName::Int8
        | SqlTypeName::Integer | SqlTypeName::SmallInt | SqlTypeName::BigInt
        | SqlTypeName::MediumInt | SqlTypeName::TinyInt | SqlTypeName::Unsigned
        | SqlTypeName::UnsignedInteger | SqlTypeName::Signed | SqlTypeName::SignedInteger
        | SqlTypeName::IntUnsigned | SqlTypeName::Int4Unsigned | SqlTypeName::BigIntUnsigned
        | SqlTypeName::MediumIntUnsigned | SqlTypeName::TinyIntUnsigned | SqlTypeName::UInt8
        | SqlTypeName::UInt16 | SqlTypeName::UInt32 | SqlTypeName::UInt64 | SqlTypeName::UInt128
        | SqlTypeName::UInt256 | SqlTypeName::UBigInt | SqlTypeName::UHugeInt
        | SqlTypeName::SmallIntUnsigned | SqlTypeName::UTinyInt
        | SqlTypeName::Int2Unsigned => Some(EngineType::Integer),
        SqlTypeName::Float | SqlTypeName::FloatUnsigned | SqlTypeName::Float4
        | SqlTypeName::Float32 | SqlTypeName::Float64 => Some(EngineType::Float),
        SqlTypeName::Char | SqlTypeName::Character | SqlTypeName::CharacterVarying
        | SqlTypeName::CharVarying | SqlTypeName::Varchar | SqlTypeName::Nvarchar
        | SqlTypeName::StringType | SqlTypeName::Text | SqlTypeName::TinyText
        | SqlTypeName::MediumText | SqlTypeName::LongText | SqlTypeName::Clob
        | SqlTypeName::CharacterLargeObject | SqlTypeName::CharLargeObject => Some(EngineType::Text),
        SqlTypeName::Json => Some(EngineType::Json),
        SqlTypeName::Uuid => Some(EngineType::Uuid),
        SqlTypeName::Binary | SqlTypeName::Varbinary | SqlTypeName::Blob | SqlTypeName::TinyBlob
        | SqlTypeName::MediumBlob | SqlTypeName::LongBlob | SqlTypeName::Bytes => Some(EngineType::Blob),
        SqlTypeName::Other(_) => None,
    }
}

/// The message for a column type with no stored type.
pub open spec fn data_type_error(t: SqlTypeName) -> Option<Seq<char>> {
    match t {
        SqlTypeName::Other(d) => Some("unsupported CREATE TABLE data type: "@ + d@),
        _ => None,
    }
}

/// `e` is an unsupported-feature error with message `m`.
pub open spec fn feature_is(e: TranslateError, m: Seq<char>) -> bool {
    e matches TranslateError::UnsupportedFeature(f) && f@ == m
}

/// Maps a SQL column type to the type the engine stores.
pub fn sql_type_to_engine_type(data_type: &SqlTypeName) -> (r: Result<EngineType, TranslateError>)
    ensures
        data_type_error(*data_type) is None <==> engine_type_of(*data_type) is Some,
        match r {
            Ok(t) => engine_type_of(*data_type) == Some(t),
            Err(e) => data_type_error(*data_type) matches Some(m) && feature_is(e, m),
        },
{
    let ty = match data_type {
        SqlTypeName::Int | SqlTypeName::Int2 | SqlTypeName::Int4 | SqlTypeName::Int8
        | SqlTypeName::Integer | SqlTypeName::SmallInt | SqlTypeName::BigInt
        | SqlTypeName::MediumInt | SqlTypeName::TinyInt | SqlTypeName::Unsigned
        | SqlTypeName::UnsignedInteger | SqlTypeName::Signed | SqlTypeName::SignedInteger
        | SqlTypeName::IntUnsigned | SqlTypeName::Int4Unsigned | SqlTypeName::BigIntUnsigned
        | SqlTypeName::MediumIntUnsigned | SqlTypeName::TinyIntUnsigned | SqlTypeName::UInt8
        | SqlTypeName::UInt16 | SqlTypeName::UInt32 | SqlTypeName::UInt64 | SqlTypeName::UInt128
        | SqlTypeName::UInt256 | SqlTypeName::UBigInt | SqlTypeName::UHugeInt
        | SqlTypeName::SmallIntUnsigned | SqlTypeName::UTinyInt
        | SqlTypeName::Int2Unsigned => EngineType::Integer,
        SqlTypeName::Float | SqlTypeName::FloatUnsigned | SqlTypeName::Float4
        | SqlTypeName::Float32 | SqlTypeName::Float64 => EngineType::Float,
        SqlTypeName::Char | SqlTypeName::Character | SqlTypeName::CharacterVarying
        | SqlTypeName::CharVarying | SqlTypeName::Varchar | SqlTypeName::Nvarchar
        | SqlTypeName::StringType | SqlTypeName::Text | SqlTypeName::TinyText
        | SqlTypeName::MediumText | SqlTypeName::LongText | SqlTypeName::Clob
        | SqlTypeName::CharacterLargeObject | SqlTypeName::CharLargeObject => EngineType::Text,
        SqlTypeName::Json => EngineType::Json,
        SqlTypeName::Uuid => EngineType::Uuid,
        SqlTypeName::Binary | SqlTypeName::Varbinary | SqlTypeName::Blob | SqlTypeName::TinyBlob
        | SqlTypeName::MediumBlob | SqlTypeName::LongBlob | SqlTypeName::Bytes => EngineType::Blob,
        SqlTypeName::Other(debug) => {
            return Err(TranslateError::UnsupportedFeature(
                concat("unsupported CREATE TABLE data type: ", debug.as_str()),
            ));
        },
    };
    Ok(ty)
}

// ---------------------------------------------------------------------------
// The parsed CREATE TABLE

#[derive(Debug)]
pub enum EngineColumnOption {
    PrimaryKey,
    Other,
}

#[derive(Debug)]
pub struct EngineColumnDef {
    pub name: String,
    pub data_type: SqlTypeName,
    pub options: Vec<EngineColumnOption>,
}

/// A column of a table-level `PRIMARY KEY (..)`: a name, a dotted name, or
/// another expression kept as the parser's debug text.
#[derive(Debug)]
pub enum EnginePrimaryKeyColumn {
    Identifier(String),
    CompoundIdentifier(Vec<String>),
    Other(String),
}

#[derive(Debug)]
pub enum EngineTableConstraint {
    PrimaryKey(Vec<EnginePrimaryKeyColumn>),
    Other,
}

/// A parsed `CREATE TABLE`; the table name is given by its parts.
#[derive(Debug)]
pub struct EngineCreateTable {
    pub name_parts: Vec<String>,
    pub columns: Vec<EngineColumnDef>,
    pub constraints: Vec<EngineTableConstraint>,
    pub if_not_exists: bool,
}

// ---------------------------------------------------------------------------
// The engine's schema

#[derive(Debug)]
pub struct EngineColumnSchema {
    pub name: String,
    pub data_type: EngineType,
}

#[derive(Debug)]
pub struct EngineTableSchema {
    pub name: String,
    pub columns: Vec<EngineColumnSchema>,
    pub primary_key: Vec<usize>,
}

pub open spec fn column_type_step() -> spec_fn(EngineColumnDef) -> Option<Seq<char>> {
    |c: EngineColumnDef| data_type_error(c.data_type)
}

/// `out` holds each column's name and stored type, in order.
pub open spec fn columns_translated(defs: Seq<EngineColumnDef>, out: Seq<EngineColumnSchema>) -> bool {
    &&& out.len() == defs.len()
    &&& forall|i: int| 0 <= i < out.len() ==> (#[trigger] out[i]).name@ == defs[i].name@
        && engine_type_of(defs[i].data_type) == Some(out[i].data_type)
}

fn collect_create_table_columns(columns: &Vec<EngineColumnDef>) -> (r: Result<Vec<EngineColumnSchema>, TranslateError>)
    ensures
        match r {
            Ok(out) => first_error(columns@, column_type_step()) is None && columns_translated(columns@, out@),
            Err(e) => first_error(columns@, column_type_step()) matches Some(m) && feature_is(e, m),
        },
{
    let ghost f = column_type_step();
    let mut result: Vec<EngineColumnSchema> = Vec::new();
    let mut i: usize = 0;
    while i < columns.len()
        invariant
            i <= columns@.len(),
            f == column_type_step(),
            result@.len() == i,
            first_error(columns@.take(i as int), f) is None,
            forall|j: int| 0 <= j < i ==> (#[trigger] result@[j]).name@ == columns@[j].name@
                && engine_type_of(columns@[j].data_type) == Some(result@[j].data_type),
        decreases columns.len() - i,
    {
        proof { lemma_first_error_step(columns@, f, i as int); }
        let column = &columns[i];
        let data_type = match sql_type_to_engine_type(&column.data_type) {
            Ok(t) => t,
            Err(e) => {
                proof { lemma_first_error_prefix(columns@, f, i as int + 1); }
                return Err(e);
            },
        };
        result.push(EngineColumnSchema { name: column.name.clone(), data_type });
        i = i + 1;
    }
    assert(columns@.take(i as int) == columns@);
    Ok(result)
}

// ---------------------------------------------------------------------------
// The primary key

/// How many `PRIMARY KEY` options a column carries.
pub open spec fn pk_option_count(opts: Seq<EngineColumnOption>) -> nat
    decreases opts.len(),
{
    if opts.len() == 0 {
        0
    } else {
        pk_option_count(opts.drop_last()) + if opts.last() is PrimaryKey { 1nat } else { 0nat }
    }
}

/// The column names that column options declare as primary key: each column
/// once per `PRIMARY KEY` option, in column order.
pub open spec fn column_pk_names(cols: Seq<EngineColumnDef>) -> Seq<Seq<char>>
    decreases cols.len(),
{
    if cols.len() == 0 {
        Seq::empty()
    } else {
        column_pk_names(cols.drop_last())
            + Seq::new(pk_option_count(cols.last().options@), |k: int| cols.last().name@)
    }
}

/// The name a table-level primary key column stands for, or the error message.
pub open spec fn pk_column_name(c: EnginePrimaryKeyColumn) -> Result<Seq<char>, Seq<char>> {
    match c {
        EnginePrimaryKeyColumn::Identifier(v) => Ok(v@),
        EnginePrimaryKeyColumn::CompoundIdentifier(parts) => Ok(join_spec(string_views(parts@), "."@)),
        EnginePrimaryKeyColumn::Other(d) => Err("unsupported primary key column expression: "@ + d@),
    }
}

/// The names of table-level primary key columns, in order, or the first error.
pub open spec fn pk_columns_names(cols: Seq<EnginePrimaryKeyColumn>) -> Result<Seq<Seq<char>>, Seq<char>>
    decreases cols.len(),
{
    if cols.len() == 0 {
        Ok(Seq::empty())
    } else {
        match pk_columns_names(cols.drop_last()) {
            Err(m) => Err(m),
            Ok(ns) => match pk_column_name(cols.last()) {
                Err(m) => Err(m),
                Ok(n) => Ok(ns.push(n)),
            },
        }
    }
}

/// The names that table constraints declare as primary key, or the first error.
pub open spec fn constraint_pk_names(cons: Seq<EngineTableConstraint>) -> Result<Seq<Seq<char>>, Seq<char>>
    decreases cons.len(),
{
    if cons.len() == 0 {
        Ok(Seq::empty())
    } else {
        match constraint_pk_names(cons.drop_last()) {
            Err(m) => Err(m),
            Ok(ns) => match cons.last() {
                EngineTableConstraint::PrimaryKey(cols) => match pk_columns_names(cols@) {
                    Err(m) => Err(m),
                    Ok(more) => Ok(ns + more),
                },
                EngineTableConstraint::Other => Ok(ns),
            },
        }
    }
}

pub open spec fn exactly_one_pk_message() -> Seq<char> {
    "CREATE TABLE must define exactly one PRIMARY KEY column"@
}

/// All primary key names of a table, column options first, or the error.
pub open spec fn primary_key_names(cols: Seq<EngineColumnDef>, cons: Seq<EngineTableConstraint>) -> Result<Seq<Seq<char>>, Seq<char>> {
    match constraint_pk_names(cons) {
        Err(m) => Err(m),
        Ok(ns) => {
            let all = column_pk_names(cols) + ns;
            if all.len() == 0 { Err(exactly_one_pk_message()) } else { Ok(all) }
        },
    }
}

proof fn lemma_pk_option_count_step(opts: Seq<EngineColumnOption>, j: int)
    requires
        0 <= j < opts.len(),
    ensures
        pk_option_count(opts.take(j + 1)) == pk_option_count(opts.take(j)) + if opts[j] is PrimaryKey { 1nat } else { 0nat },
{
    assert(opts.take(j + 1).drop_last() == opts.take(j));
}

fn push_column_pk_names(pk_names: &mut Vec<String>, column: &EngineColumnDef)
    ensures
        string_views(final(pk_names)@) == string_views(old(pk_names)@)
            + Seq::new(pk_option_count(column.options@), |k: int| column.name@),
{
    let ghost start = string_views(pk_names@);
    let mut j: usize = 0;
    while j < column.options.len()
        invariant
            j <= column.options@.len(),
            string_views(pk_names@) == start
                + Seq::new(pk_option_count(column.options@.take(j as int)), |k: int| column.name@),
        decreases column.options.len() - j,
    {
        proof { lemma_pk_option_count_step(column.options@, j as int); }
        let ghost before = pk_names@;
        if let EngineColumnOption::PrimaryKey = &column.options[j] {
            pk_names.push(column.name.clone());
            proof {
                assert(string_views(pk_names@) == string_views(before).push(column.name@));
                assert(string_views(pk_names@) == start
                    + Seq::new(pk_option_count(column.options@.take(j as int + 1)), |k: int| column.name@));
            }
        }
        j = j + 1;
    }
    assert(column.options@.take(j as int) == column.options@);
}

fn pk_column_to_name(c: &EnginePrimaryKeyColumn) -> (r: Result<String, TranslateError>)
    ensures
        match r {
            Ok(n) => pk_column_name(*c) == Ok::<Seq<char>, Seq<char>>(n@),
            Err(e) => pk_column_name(*c) matches Err(m) && feature_is(e, m),
        },
{
    match c {
        EnginePrimaryKeyColumn::Identifier(v) => Ok(v.clone()),
        EnginePrimaryKeyColumn::CompoundIdentifier(parts) => Ok(join(parts, ".")),
        EnginePrimaryKeyColumn::Other(d) => Err(TranslateError::UnsupportedFeature(
            concat("unsupported primary key column expression: ", d.as_str()),
        )),
    }
}

fn push_constraint_pk_names(pk_names: &mut Vec<String>, cols: &Vec<EnginePrimaryKeyColumn>) -> (r: Result<(), TranslateError>)
    ensures
        match r {
            Ok(_) => pk_columns_names(cols@) matches Ok(ns) && string_views(final(pk_names)@) == string_views(old(pk_names)@) + ns,
            Err(e) => pk_columns_names(cols@) matches Err(m) && feature_is(e, m),
        },
{
    let ghost start = string_views(pk_names@);
    let mut j: usize = 0;
    while j < cols.len()
        invariant
            j <= cols@.len(),
            pk_columns_names(cols@.take(j as int)) matches Ok(ns) && string_views(pk_names@) == start + ns,
        decreases cols.len() - j,
    {
        assert(cols@.take(j as int + 1).drop_last() == cols@.take(j as int));
        let ghost before = pk_names@;
        match pk_column_to_name(&cols[j]) {
            Ok(n) => {
                pk_names.push(n);
                proof {
                    assert(string_views(pk_names@) == string_views(before).push(n@));
                }
            },
            Err(e) => {
                proof { lemma_pk_columns_err_prefix(cols@, j as int + 1); }
                return Err(e);
            },
        }
        j = j + 1;
    }
    assert(cols@.take(j as int) == cols@);
    Ok(())
}

proof fn lemma_pk_columns_err_prefix(cols: Seq<EnginePrimaryKeyColumn>, i: int)
    requires
        0 <= i <= cols.len(),
        pk_columns_names(cols.take(i)) is Err,
    ensures
        pk_columns_names(cols) == pk_columns_names(cols.take(i)),
    decreases cols.len() - i,
{
    if i < cols.len() {
        assert(cols.take(i + 1).drop_last() == cols.take(i));
        lemma_pk_columns_err_prefix(cols, i + 1);
    } else {
        assert(cols.take(i) == cols);
    }
}

proof fn lemma_constraints_err_prefix(cons: Seq<EngineTableConstraint>, i: int)
    requires
        0 <= i <= cons.len(),
        constraint_pk_names(cons.take(i)) is Err,
    ensures
        constraint_pk_names(cons) == constraint_pk_names(cons.take(i)),
    decreases cons.len() - i,
{
    if i < cons.len() {
        assert(cons.take(i + 1).drop_last() == cons.take(i));
        lemma_constraints_err_prefix(cons, i + 1);
    } else {
        assert(cons.take(i) == cons);
    }
}

/// Collects the primary key column names from column options and from
/// table-level `PRIMARY KEY` constraints; there must be at least one.
fn collect_create_table_primary_keys(
    columns: &Vec<EngineColumnDef>,
    constraints: &Vec<EngineTableConstraint>,
) -> (r: Result<Vec<String>, TranslateError>)
    ensures
        match r {
            Ok(names) => primary_key_names(columns@, constraints@) == Ok::<Seq<Seq<char>>, Seq<char>>(string_views(names@)),
            Err(e) => primary_key_names(columns@, constraints@) matches Err(m) && feature_is(e, m),
        },
{
    let mut pk_names: Vec<String> = Vec::new();
    let mut i: usize = 0;
    while i < columns.len()
        invariant
            i <= columns@.len(),
            string_views(pk_names@) == column_pk_names(columns@.take(i as int)),
        decreases columns.len() - i,
    {
        assert(columns@.take(i as int + 1).drop_last() == columns@.take(i as int));
        push_column_pk_names(&mut pk_names, &columns[i]);
        i = i + 1;
    }
    assert(columns@.take(i as int) == columns@);
    let ghost column_names = string_views(pk_names@);

    let mut c: usize = 0;
    while c < constraints.len()
        invariant
            c <= constraints@.len(),
            column_names == column_pk_names(columns@),
            constraint_pk_names(constraints@.take(c as int)) matches Ok(ns)
                && string_views(pk_names@) == column_names + ns,
        decreases constraints.len() - c,
    {
        assert(constraints@.take(c as int + 1).drop_last() == constraints@.take(c as int));
        let ghost prev = string_views(pk_names@);
        if let EngineTableConstraint::PrimaryKey(cols) = &constraints[c] {
            match push_constraint_pk_names(&mut pk_names, cols) {
                Ok(_) => {
                    proof {
                        let ns = constraint_pk_names(constraints@.take(c as int))->Ok_0;
                        let more = pk_columns_names(cols@)->Ok_0;
                        assert(column_names + ns + more == column_names + (ns + more));
                    }
                },
                Err(e) => {
                    proof { lemma_constraints_err_prefix(constraints@, c as int + 1); }
                    return Err(e);
                },
            }
        }
        c = c + 1;
    }
    assert(constraints@.take(c as int) == constraints@);

    if pk_names.len() == 0 {
        return Err(TranslateError::UnsupportedFeature(
            String::from_str("CREATE TABLE must define exactly one PRIMARY KEY column"),
        ));
    }
    Ok(pk_names)
}

/// The index of the first name in `names` equal to `name`.
pub open spec fn first_position(names: Seq<Seq<char>>, name: Seq<char>) -> Option<int>
    decreases names.len(),
{
    if names.len() == 0 {
        None
    } else if first_position(names.drop_last(), name) is Some {
        first_position(names.drop_last(), name)
    } else if names.last() == name {
        Some(names.len() - 1)
    } else {
        None
    }
}

proof fn lemma_first_position_prefix(names: Seq<Seq<char>>, name: Seq<char>, i: int)
    requires
        0 <= i <= names.len(),
        first_position(names.take(i), name) is Some,
    ensures
        first_position(names, name) == first_position(names.take(i), name),
    decreases names.len() - i,
{
    if i < names.len() {
        assert(names.take(i + 1).drop_last() == names.take(i));
        lemma_first_position_prefix(names, name, i + 1);
    } else {
        assert(names.take(i) == names);
    }
}

pub proof fn lemma_first_position_bound(names: Seq<Seq<char>>, name: Seq<char>)
    ensures
        first_position(names, name) matches Some(p) ==> 0 <= p < names.len() && names[p] == name,
    decreases names.len(),
{
    if names.len() > 0 {
        lemma_first_position_bound(names.drop_last(), name);
    }
}

pub open spec fn schema_names(cols: Seq<EngineColumnSchema>) -> Seq<Seq<char>> {
    cols.map_values(|c: EngineColumnSchema| c.name@)
}

/// The position of the first column called `name`.
pub fn column_position(columns: &Vec<EngineColumnSchema>, name: &str) -> (r: Option<usize>)
    ensures
        match r {
            Some(p) => first_position(schema_names(columns@), name@) == Some(p as int),
            None => first_position(schema_names(columns@), name@) is None,
        },
{
    let ghost names = schema_names(columns@);
    let mut i: usize = 0;
    while i < columns.len()
        invariant
            i <= columns@.len(),
            names == schema_names(columns@),
            first_position(names.take(i as int), name@) is None,
        decreases columns.len() - i,
    {
        assert(names.take(i as int + 1).drop_last() == names.take(i as int));
        if str_eq(columns[i].name.as_str(), name) {
            proof { lemma_first_position_prefix(names, name@, i as int + 1); }
            return Some(i);
        }
        i = i + 1;
    }
    assert(names.take(i as int) == names);
    None
}

/// The positions of the named primary key columns, skipping names that no
/// column has.
pub open spec fn pk_positions(names: Seq<Seq<char>>, pk_names: Seq<Seq<char>>) -> Seq<int>
    decreases pk_names.len(),
{
    if pk_names.len() == 0 {
        Seq::empty()
    } else {
        pk_positions(names, pk_names.drop_last()) + match first_position(names, pk_names.last()) {
            Some(p) => seq![p],
            None => Seq::empty(),
        }
    }
}

pub open spec fn pk_positions_error(positions: Seq<int>) -> Option<Seq<char>> {
    if positions.len() == 0 {
        Some("CREATE TABLE primary key columns not found"@)
    } else if positions.len() != 1 {
        Some(exactly_one_pk_message())
    } else {
        None
    }
}

fn resolve_primary_key_indexes(columns: &Vec<EngineColumnSchema>, pk_names: &Vec<String>) -> (r: Result<Vec<usize>, TranslateError>)
    ensures
        match r {
            Ok(pk) => pk_positions_error(pk_positions(schema_names(columns@), string_views(pk_names@))) is None
                && pk@.len() == 1
                && pk@[0] as int == pk_positions(schema_names(columns@), string_views(pk_names@))[0],
            Err(e) => pk_positions_error(pk_positions(schema_names(columns@), string_views(pk_names@))) matches Some(m)
                && feature_is(e, m),
        },
{
    let ghost names = schema_names(columns@);
    let ghost pks = string_views(pk_names@);
    let mut primary_key: Vec<usize> = Vec::new();
    let mut i: usize = 0;
    while i < pk_names.len()
        invariant
            i <= pk_names@.len(),
            names == schema_names(columns@),
            pks == string_views(pk_names@),
            primary_key@.len() == pk_positions(names, pks.take(i as int)).len(),
            forall|k: int| 0 <= k < primary_key@.len() ==> primary_key@[k] as int == #[trigger] pk_positions(names, pks.take(i as int))[k],
        decreases pk_names.len() - i,
    {
        assert(pks.take(i as int + 1).drop_last() == pks.take(i as int));
        assert(pks.take(i as int + 1).last() == pk_names@[i as int]@);
        if let Some(p) = column_position(columns, pk_names[i].as_str()) {
            primary_key.push(p);
        }
        i = i + 1;
    }
    assert(pks.take(i as int) == pks);
    if primary_key.len() == 0 {
        return Err(TranslateError::UnsupportedFeature(
            String::from_str("CREATE TABLE primary key columns not found"),
        ));
    }
    if primary_key.len() != 1 {
        return Err(TranslateError::UnsupportedFeature(
            String::from_str("CREATE TABLE must define exactly one PRIMARY KEY column"),
        ));
    }
    Ok(primary_key)
}

pub open spec fn uuid_pk_message() -> Seq<char> {
    "PRIMARY KEY column must use UUID type"@
}

/// The primary key's column exists and has the UUID type.
pub open spec fn pk_is_uuid(cols: Seq<EngineColumnSchema>, pk: int) -> bool {
    0 <= pk < cols.len() && cols[pk].data_type == EngineType::Uuid
}

fn validate_primary_key_schema(columns: &Vec<EngineColumnSchema>, primary_key: &Vec<usize>) -> (r: Result<(), TranslateError>)
    requires
        primary_key@.len() >= 1,
    ensures
        match r {
            Ok(_) => pk_is_uuid(columns@, primary_key@[0] as int),
            Err(e) => !pk_is_uuid(columns@, primary_key@[0] as int) && feature_is(e, uuid_pk_message()),
        },
{
    let pk_index = primary_key[0];
    let is_uuid = pk_index < columns.len() && match columns[pk_index].data_type {
        EngineType::Uuid => true,
        _ => false,
    };
    if !is_uuid {
        return Err(TranslateError::UnsupportedFeature(String::from_str("PRIMARY KEY column must use UUID type")));
    }
    Ok(())
}

/// The error a `CREATE TABLE` gives, if any, checked in this order: column
/// types, primary key names, their positions, and the UUID type of the key.
pub open spec fn create_table_error(ct: EngineCreateTable) -> Option<Seq<char>> {
    let cols = ct.columns@;
    if first_error(cols, column_type_step()) is Some {
        first_error(cols, column_type_step())
    } else {
        match primary_key_names(cols, ct.constraints@) {
            Err(m) => Some(m),
            Ok(pk_names) => {
                let positions = pk_positions(cols.map_values(|c: EngineColumnDef| c.name@), pk_names);
                if pk_positions_error(positions) is Some {
                    pk_positions_error(positions)
                } else if !(0 <= positions[0] < cols.len() && engine_type_of(cols[positions[0]].data_type) == Some(EngineType::Uuid)) {
                    Some(uuid_pk_message())
                } else {
                    None
                }
            },
        }
    }
}

pub open spec fn def_names(defs: Seq<EngineColumnDef>) -> Seq<Seq<char>> {
    defs.map_values(|c: EngineColumnDef| c.name@)
}

/// `t` is the schema of `ct`: the dotted table name, each column with its
/// stored type, and the position of the one primary key column.
pub open spec fn table_schema_of(ct: EngineCreateTable, t: EngineTableSchema) -> bool {
    &&& t.name@ == join_spec(string_views(ct.name_parts@), "."@)
    &&& columns_translated(ct.columns@, t.columns@)
    &&& primary_key_names(ct.columns@, ct.constraints@) matches Ok(pk_names)
    &&& t.primary_key@.len() == 1
    &&& t.primary_key@[0] as int == pk_positions(def_names(ct.columns@), pk_names)[0]
}

/// Translates a `CREATE TABLE` into the schema the engine stores: the
/// dotted table name, each column with its stored type, and the position
/// of its single UUID primary key column.
pub fn translate_create_table(create_table: &EngineCreateTable) -> (r: Result<EngineTableSchema, TranslateError>)
    ensures
        match r {
            Ok(t) => create_table_error(*create_table) is None && table_schema_of(*create_table, t),
            Err(e) => create_table_error(*create_table) matches Some(m) && feature_is(e, m),
        },
{
    let table_name = join(&create_table.name_parts, ".");
    let columns = collect_create_table_columns(&create_table.columns)?;
    proof {
        assert(schema_names(columns@) =~= def_names(create_table.columns@));
        assert(def_names(create_table.columns@) == create_table.columns@.map_values(|c: EngineColumnDef| c.name@));
    }
    let pk_names = collect_create_table_primary_keys(&create_table.columns, &create_table.constraints)?;
    let primary_key = resolve_primary_key_indexes(&columns, &pk_names)?;
    validate_primary_key_schema(&columns, &primary_key)?;
    Ok(EngineTableSchema { name: table_name, columns, primary_key })
}

/// Column types translate by family: every integer type to integers, the
/// floating types to floats, the character types to text, the binary types
/// to bytes, `JSON` to documents and `UUID` to UUIDs; any other type is
/// refused.
pub proof fn law_engine_column_types_by_family(t: SqlTypeName)
    ensures
        (t is Int || t is Int2 || t is Int4 || t is Int8 || t is Integer || t is SmallInt || t is BigInt
            || t is MediumInt || t is TinyInt || t is Unsigned || t is UnsignedInteger || t is Signed
            || t is SignedInteger || t is IntUnsigned || t is Int4Unsigned || t is BigIntUnsigned
            || t is MediumIntUnsigned || t is TinyIntUnsigned || t is UInt8 || t is UInt16 || t is UInt32
            || t is UInt64 || t is UInt128 || t is UInt256 || t is UBigInt || t is UHugeInt
            || t is SmallIntUnsigned || t is UTinyInt || t is Int2Unsigned)
            <==> engine_type_of(t) == Some(EngineType::Integer),
        (t is Float || t is FloatUnsigned || t is Float4 || t is Float32 || t is Float64)
            <==> engine_type_of(t) == Some(EngineType::Float),
        (t is Char || t is Character || t is CharacterVarying || t is CharVarying || t is Varchar
            || t is Nvarchar || t is StringType || t is Text || t is TinyText || t is MediumText
            || t is LongText || t is Clob || t is CharacterLargeObject || t is CharLargeObject)
            <==> engine_type_of(t) == Some(EngineType::Text),
        (t is Binary || t is Varbinary || t is Blob || t is TinyBlob || t is MediumBlob || t is LongBlob || t is Bytes)
            <==> engine_type_of(t) == Some(EngineType::Blob),
        t is Json <==> engine_type_of(t) == Some(EngineType::Json),
        t is Uuid <==> engine_type_of(t) == Some(EngineType::Uuid),
        t is Other <==> engine_type_of(t) is None,
{
}

} // verus!
