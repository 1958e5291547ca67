//! Reading typed fields out of rows by column name.
use vstd::prelude::*;

use crate::text::{concat, str_eq};
use crate::value::{f64_to_i64_spec, json_same, type_of, value_same, JsonValue, Row, Value, ValueType};

verus! {

/// Why a field could not be read from a row.
#[derive(Clone, Debug, PartialEq, Eq)]
pub enum FromRowError {
    MissingColumn(String),
    DuplicateColumn(String),
    MissingValue(String),
    InvalidValue { column: String, expected: ValueType, actual: ValueType },
}

/// The name of a type tag, as its debug text shows it.
pub open spec fn value_type_name(t: ValueType) -> Seq<char> {
    match t {
        ValueType::Null => "Null"@,
        ValueType::Type => "Type"@,
        ValueType::Uuid => "Uuid"@,
        ValueType::Bool => "Bool"@,
        ValueType::Integer => "Integer"@,
        ValueType::Float => "Float"@,
        ValueType::Text => "Text"@,
        ValueType::Json => "Json"@,
        ValueType::Blob => "Blob"@,
    }
}

pub fn value_type_label(t: ValueType) -> (r: &'static str)
    ensures
        r@ == value_type_name(t),
{
    match t {
        ValueType::Null => "Null",
        ValueType::Type => "Type",
        ValueType::Uuid => "Uuid",
        ValueType::Bool => "Bool",
        ValueType::Integer => "Integer",
        ValueType::Float => "Float",
        ValueType::Text => "Text",
        ValueType::Json => "Json",
        ValueType::Blob => "Blob",
    }
}

pub open spec fn from_row_error_text(e: FromRowError) -> Seq<char> {
    match e {
        FromRowError::MissingColumn(c) => "missing column "@ + c@,
        FromRowError::DuplicateColumn(c) => "duplicate column "@ + c@,
        FromRowError::MissingValue(c) => "missing value for column "@ + c@,
        FromRowError::InvalidValue { column, expected, actual } => "invalid value for column "@ + column@
            + ": expected "@ + value_type_name(expected) + ", got "@ + value_type_name(actual),
    }
}

impl FromRowError {
    /// The text of the error.
    pub fn message(&self) -> (r: String)
        ensures
            r@ == from_row_error_text(*self),
    {
        match self {
            FromRowError::MissingColumn(c) => concat("missing column ", c.as_str()),
            FromRowError::DuplicateColumn(c) => concat("duplicate column ", c.as_str()),
            FromRowError::MissingValue(c) => concat("missing value for column ", c.as_str()),
            FromRowError::InvalidValue { column, expected, actual } => {
                let mut m = concat("invalid value for column ", column.as_str());
                m.append(": expected ");
                m.append(value_type_label(*expected));
                m.append(", got ");
                m.append(value_type_label(*actual));
                m
            },
        }
    }
}

/// `column` is the name at position `i` of `columns`.
pub open spec fn occurs_at(columns: Seq<&str>, column: Seq<char>, i: int) -> bool {
    0 <= i < columns.len() && columns[i]@ == column
}

/// `column` occurs at position `i` of `columns` and nowhere else.
pub open spec fn occurs_only_at(columns: Seq<&str>, column: Seq<char>, i: int) -> bool {
    &&& occurs_at(columns, column, i)
    &&& forall|j: int| #[trigger] occurs_at(columns, column, j) ==> j == i
}

/// `column` occurs at two positions of `columns`.
pub open spec fn occurs_twice(columns: Seq<&str>, column: Seq<char>) -> bool {
    exists|i: int, j: int|
        #![trigger occurs_at(columns, column, i), occurs_at(columns, column, j)]
        i < j && occurs_at(columns, column, i) && occurs_at(columns, column, j)
}

/// The field named `column` of `row`, whose values are laid out as `columns`
/// names them: the name must occur exactly once and have a value.
pub fn value<'a>(row: &'a Row, columns: &[&str], column: &str) -> (r: Result<&'a Value, FromRowError>)
    ensures
        r matches Ok(v) ==> exists|i: int|
            occurs_only_at(columns@, column@, i) && i < row.values@.len() && *v == row.values@[i],
        r matches Err(FromRowError::MissingColumn(c)) ==> c@ == column@
            && forall|j: int| !(#[trigger] occurs_at(columns@, column@, j)),
        r matches Err(FromRowError::DuplicateColumn(c)) ==> c@ == column@
            && occurs_twice(columns@, column@),
        r matches Err(FromRowError::MissingValue(c)) ==> c@ == column@
            && exists|i: int| occurs_only_at(columns@, column@, i) && i >= row.values@.len(),
        !(r matches Err(FromRowError::InvalidValue { .. })),
{
    let mut found: Option<usize> = None;
    let mut i: usize = 0;
    while i < columns.len()
        invariant
            i <= columns@.len(),
            match found {
                Some(k) => k < i && occurs_at(columns@, column@, k as int)
                    && forall|j: int| 0 <= j < i && #[trigger] occurs_at(columns@, column@, j) ==> j == k,
                None => forall|j: int| 0 <= j < i ==> !(#[trigger] occurs_at(columns@, column@, j)),
            },
        decreases columns.len() - i,
    {
        let hit = str_eq(columns[i], column);
        if hit {
            match found {
                Some(k) => {
                    assert(occurs_at(columns@, column@, k as int));
                    assert(occurs_at(columns@, column@, i as int));
                    assert(occurs_twice(columns@, column@));
                    return Err(FromRowError::DuplicateColumn(String::from_str(column)));
                },
                None => {
                    found = Some(i);
                },
            }
        } else {
            assert(!occurs_at(columns@, column@, i as int));
        }
        i = i + 1;
    }
    match found {
        None => Err(FromRowError::MissingColumn(String::from_str(column))),
        Some(index) => {
            assert(occurs_only_at(columns@, column@, index as int));
            if index < row.values.len() {
                Ok(&row.values[index])
            } else {
                Err(FromRowError::MissingValue(String::from_str(column)))
            }
        },
    }
}

/// Types that can be read from a value.
pub trait FromValue: Sized {
    /// The values this type reads.
    spec fn reads(value: Value) -> bool;

    /// `out` is what this type reads from `value`.
    spec fn decodes(value: Value, out: Self) -> bool;

    /// The type tag that this type expects.
    spec fn expected() -> ValueType;

    fn expected_type() -> (t: ValueType)
        ensures
            t == Self::expected();

    fn from_value(value: &Value) -> (r: Option<Self>)
        ensures
            r is Some <==> Self::reads(*value),
            r matches Some(x) ==> Self::decodes(*value, x);
}

impl FromValue for bool {
    open spec fn reads(value: Value) -> bool {
        value is Bool
    }

    open spec fn decodes(value: Value, out: bool) -> bool {
        value == Value::Bool(out)
    }

    open spec fn expected() -> ValueType {
        ValueType::Bool
    }

    fn expected_type() -> (t: ValueType) {
        ValueType::Bool
    }

    fn from_value(value: &Value) -> (r: Option<bool>) {
        value.to_bool()
    }
}

impl FromValue for i64 {
    open spec fn reads(value: Value) -> bool {
        ||| value is Integer
        ||| (value matches Value::Float(bits) && f64_to_i64_spec(bits) is Some)
    }

    open spec fn decodes(value: Value, out: i64) -> bool {
        match value {
            Value::Integer(i) => out == i,
            Value::Float(bits) => f64_to_i64_spec(bits) == Some(out as int),
            _ => false,
        }
    }

    open spec fn expected() -> ValueType {
        ValueType::Integer
    }

    fn expected_type() -> (t: ValueType) {
        ValueType::Integer
    }

    fn from_value(value: &Value) -> (r: Option<i64>) {
        value.to_integer()
    }
}

impl FromValue for String {
    open spec fn reads(value: Value) -> bool {
        value is Text
    }

    open spec fn decodes(value: Value, out: String) -> bool {
        value matches Value::Text(t) && t@ == out@
    }

    open spec fn expected() -> ValueType {
        ValueType::Text
    }

    fn expected_type() -> (t: ValueType) {
        ValueType::Text
    }

    fn from_value(value: &Value) -> (r: Option<String>) {
        value.to_text()
    }
}

impl FromValue for Vec<u8> {
    open spec fn reads(value: Value) -> bool {
        value is Blob
    }

    open spec fn decodes(value: Value, out: Vec<u8>) -> bool {
        value matches Value::Blob(b) && b@ == out@
    }

    open spec fn expected() -> ValueType {
        ValueType::Blob
    }

    fn expected_type() -> (t: ValueType) {
        ValueType::Blob
    }

    fn from_value(value: &Value) -> (r: Option<Vec<u8>>) {
        value.to_blob()
    }
}

impl FromValue for [u8; 16] {
    open spec fn reads(value: Value) -> bool {
        value is Uuid
    }

    open spec fn decodes(value: Value, out: [u8; 16]) -> bool {
        value == Value::Uuid(out)
    }

    open spec fn expected() -> ValueType {
        ValueType::Uuid
    }

    fn expected_type() -> (t: ValueType) {
        ValueType::Uuid
    }

    fn from_value(value: &Value) -> (r: Option<[u8; 16]>) {
        value.to_uuid()
    }
}

impl FromValue for JsonValue {
    open spec fn reads(value: Value) -> bool {
        value is Json
    }

    open spec fn decodes(value: Value, out: JsonValue) -> bool {
        value matches Value::Json(j) && json_same(j, out)
    }

    open spec fn expected() -> ValueType {
        ValueType::Json
    }

    fn expected_type() -> (t: ValueType) {
        ValueType::Json
    }

    fn from_value(value: &Value) -> (r: Option<JsonValue>) {
        value.to_json()
    }
}

impl FromValue for Value {
    open spec fn reads(value: Value) -> bool {
        true
    }

    open spec fn decodes(value: Value, out: Value) -> bool {
        value_same(value, out)
    }

    open spec fn expected() -> ValueType {
        ValueType::Null
    }

    fn expected_type() -> (t: ValueType) {
        ValueType::Null
    }

    fn from_value(value: &Value) -> (r: Option<Value>) {
        Some(crate::value::clone_value(value))
    }
}

impl<T: FromValue> FromValue for Option<T> {
    open spec fn reads(value: Value) -> bool {
        value is Null || T::reads(value)
    }

    open spec fn decodes(value: Value, out: Option<T>) -> bool {
        match out {
            None => value is Null,
            Some(x) => !(value is Null) && T::decodes(value, x),
        }
    }

    open spec fn expected() -> ValueType {
        T::expected()
    }

    fn expected_type() -> (t: ValueType) {
        T::expected_type()
    }

    fn from_value(value: &Value) -> (r: Option<Option<T>>) {
        match value {
            Value::Null => Some(None),
            _ => match T::from_value(value) {
                Some(v) => Some(Some(v)),
                None => None,
            },
        }
    }
}

/// Reads a `T` from the value of `column`, naming the expected and the
/// actual type when the value is not a `T`.
pub fn decode<T: FromValue>(value: &Value, column: &str) -> (r: Result<T, FromRowError>)
    ensures
        r is Ok <==> T::reads(*value),
        r matches Ok(x) ==> T::decodes(*value, x),
        r matches Err(e) ==> (e matches FromRowError::InvalidValue { column: c, expected, actual }
            && c@ == column@ && expected == T::expected() && actual == type_of(*value)),
{
    match T::from_value(value) {
        Some(v) => Ok(v),
        None => Err(FromRowError::InvalidValue {
            column: String::from_str(column),
            expected: T::expected_type(),
            actual: value.value_type(),
        }),
    }
}

} // verus!
