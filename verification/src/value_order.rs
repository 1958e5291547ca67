//! Equality and order of values. Floats compare by their bit patterns, an
//! integer meeting a float as the bits of the double it rounds to; values of
//! different types order by the rank of their type. Two JSON documents order
//! by their display text, which prints floats, so that one case is left to
//! the caller.
use vstd::prelude::*;
use vstd::std_specs::cmp::PartialEqSpecImpl;

use std::cmp::Ordering;

use crate::bytes_order::{bytes_lt, compare_bytes};
use crate::engine_order::{ordering_of, sign_of};
use crate::float_bits::{i64_as_f64_bits, i64_to_f64_bits};
use crate::json_docs::{json_eq, json_equals};
use crate::text::{chars_lt, compare_str, str_eq};
use crate::value::{rank_spec, type_of, Value, ValueType};

verus! {

/// Equality of values: same type and same contents; floats by their bits.
pub open spec fn value_eq(a: Value, b: Value) -> bool {
    match (a, b) {
        (Value::Null, Value::Null) => true,
        (Value::Type(x), Value::Type(y)) => x == y,
        (Value::Uuid(x), Value::Uuid(y)) => x@ == y@,
        (Value::Bool(x), Value::Bool(y)) => x == y,
        (Value::Integer(x), Value::Integer(y)) => x == y,
        (Value::Float(x), Value::Float(y)) => x == y,
        (Value::Text(x), Value::Text(y)) => x@ == y@,
        (Value::Blob(x), Value::Blob(y)) => x@ == y@,
        (Value::Json(x), Value::Json(y)) => json_eq(x, y),
        _ => false,
    }
}

/// Order of values, -1, 0 or 1, where it does not go through the display
/// text of two documents (`None` for two documents).
pub open spec fn value_order(a: Value, b: Value) -> Option<int> {
    match (a, b) {
        (Value::Null, Value::Null) => Some(0),
        (Value::Type(x), Value::Type(y)) => Some(sign_of(rank_spec(x) < rank_spec(y), rank_spec(x) == rank_spec(y))),
        (Value::Uuid(x), Value::Uuid(y)) => Some(sign_of(bytes_lt(x@, y@), x@ == y@)),
        (Value::Bool(x), Value::Bool(y)) => Some(sign_of(!x && y, x == y)),
        (Value::Text(x), Value::Text(y)) => Some(sign_of(chars_lt(x@, y@), x@ == y@)),
        (Value::Json(_), Value::Json(_)) => None,
        (Value::Blob(x), Value::Blob(y)) => Some(sign_of(bytes_lt(x@, y@), x@ == y@)),
        (Value::Integer(x), Value::Integer(y)) => Some(sign_of(x < y, x == y)),
        (Value::Float(x), Value::Float(y)) => Some(sign_of(x < y, x == y)),
        (Value::Float(x), Value::Integer(y)) => Some(sign_of(x < i64_as_f64_bits(y), x == i64_as_f64_bits(y))),
        (Value::Integer(x), Value::Float(y)) => Some(sign_of(i64_as_f64_bits(x) < y, i64_as_f64_bits(x) == y)),
        _ => Some(sign_of(
            rank_spec(type_of(a)) < rank_spec(type_of(b)),
            rank_spec(type_of(a)) == rank_spec(type_of(b)),
        )),
    }
}

fn sign_u64(x: u64, y: u64) -> (r: i8)
    ensures
        r == sign_of(x < y, x == y),
{
    if x < y { -1 } else if x == y { 0 } else { 1 }
}

fn sign_i64(x: i64, y: i64) -> (r: i8)
    ensures
        r == sign_of(x < y, x == y),
{
    if x < y { -1 } else if x == y { 0 } else { 1 }
}

fn sign_u8(x: u8, y: u8) -> (r: i8)
    ensures
        r == sign_of(x < y, x == y),
{
    if x < y { -1 } else if x == y { 0 } else { 1 }
}

fn ordering_from_sign(sign: i8) -> (r: Ordering)
    ensures
        sign < 0 ==> r == Ordering::Less,
        sign == 0 ==> r == Ordering::Equal,
        sign > 0 ==> r == Ordering::Greater,
{
    if sign < 0 {
        Ordering::Less
    } else if sign == 0 {
        Ordering::Equal
    } else {
        Ordering::Greater
    }
}

impl Value {
    /// Equality of values.
    pub fn equals(&self, other: &Value) -> (r: bool)
        ensures
            r == value_eq(*self, *other),
    {
        match (self, other) {
            (Value::Null, Value::Null) => true,
            (Value::Type(x), Value::Type(y)) => *x == *y,
            (Value::Uuid(x), Value::Uuid(y)) => compare_bytes(x.as_slice(), y.as_slice()) == 0,
            (Value::Bool(x), Value::Bool(y)) => *x == *y,
            (Value::Integer(x), Value::Integer(y)) => *x == *y,
            (Value::Float(x), Value::Float(y)) => *x == *y,
            (Value::Text(x), Value::Text(y)) => str_eq(x.as_str(), y.as_str()),
            (Value::Blob(x), Value::Blob(y)) => compare_bytes(x.as_slice(), y.as_slice()) == 0,
            (Value::Json(x), Value::Json(y)) => json_equals(x, y),
            _ => false,
        }
    }

    /// Order of two values, or `None` for two JSON documents, which order by
    /// their display text.
    pub fn cmp_without_documents(&self, other: &Value) -> (r: Option<Ordering>)
        ensures
            match value_order(*self, *other) {
                Some(s) => r == Some(ordering_of(s)),
                None => r is None,
            },
    {
        let sign: i8 = match (self, other) {
            (Value::Null, Value::Null) => 0,
            (Value::Type(x), Value::Type(y)) => sign_u8(x.rank(), y.rank()),
            (Value::Uuid(x), Value::Uuid(y)) => compare_bytes(x.as_slice(), y.as_slice()),
            (Value::Bool(x), Value::Bool(y)) => if !*x && *y { -1 } else if *x == *y { 0 } else { 1 },
            (Value::Text(x), Value::Text(y)) => compare_str(x.as_str(), y.as_str()),
            (Value::Json(_), Value::Json(_)) => {
                return None;
            },
            (Value::Blob(x), Value::Blob(y)) => compare_bytes(x.as_slice(), y.as_slice()),
            (Value::Integer(x), Value::Integer(y)) => sign_i64(*x, *y),
            (Value::Float(x), Value::Float(y)) => sign_u64(*x, *y),
            (Value::Float(x), Value::Integer(y)) => sign_u64(*x, i64_to_f64_bits(*y)),
            (Value::Integer(x), Value::Float(y)) => sign_u64(i64_to_f64_bits(*x), *y),
            _ => sign_u8(self.value_type().rank(), other.value_type().rank()),
        };
        Some(ordering_from_sign(sign))
    }
}

impl PartialEq for Value {
    fn eq(&self, other: &Value) -> (r: bool) {
        self.equals(other)
    }
}

impl PartialEqSpecImpl for Value {
    open spec fn obeys_eq_spec() -> bool {
        true
    }

    open spec fn eq_spec(&self, other: &Value) -> bool {
        value_eq(*self, *other)
    }
}


/// Equality of values is symmetric.
pub proof fn law_value_equality_is_symmetric(a: Value, b: Value)
    ensures
        value_eq(a, b) == value_eq(b, a),
{
    if let (Value::Json(x), Value::Json(y)) = (a, b) {
        crate::json_docs::law_json_equality_is_symmetric(x, y);
    }
}

/// Where the order of two values is given here, swapping them flips it, and
/// every value sits level with itself unless it is a document.
pub proof fn law_value_order_is_antisymmetric(a: Value, b: Value)
    ensures
        value_order(a, b) matches Some(s) ==> value_order(b, a) == Some(-s),
        !(a is Json) ==> value_order(a, a) == Some(0int),
{
    match (a, b) {
        (Value::Uuid(x), Value::Uuid(y)) => {
            crate::bytes_order::law_bytes_order_is_strict_total(x@, y@, x@);
        },
        (Value::Blob(x), Value::Blob(y)) => {
            crate::bytes_order::law_bytes_order_is_strict_total(x@, y@, x@);
        },
        (Value::Text(x), Value::Text(y)) => {
            crate::text::law_chars_order_is_strict_total(x@, y@, x@);
        },
        (Value::Type(x), Value::Type(y)) => {
            crate::value::law_rank_injective(x, y);
        },
        _ => {},
    }
    match a {
        Value::Uuid(x) => crate::bytes_order::law_bytes_order_is_strict_total(x@, x@, x@),
        Value::Blob(x) => crate::bytes_order::law_bytes_order_is_strict_total(x@, x@, x@),
        Value::Text(x) => crate::text::law_chars_order_is_strict_total(x@, x@, x@),
        _ => {},
    }
}

/// Integers order as numbers: `Integer(x)` sorts below `Integer(y)` exactly
/// when `x < y`, level exactly when `x == y` and above exactly when `x > y`,
/// so `cmp_without_documents` answers `Less` exactly when `x < y` and
/// `Greater` exactly when `x > y`.
pub proof fn law_integers_order_as_numbers(x: i64, y: i64)
    ensures
        value_order(Value::Integer(x), Value::Integer(y)) is Some,
        value_order(Value::Integer(x), Value::Integer(y))->Some_0 < 0 <==> x < y,
        value_order(Value::Integer(x), Value::Integer(y))->Some_0 == 0 <==> x == y,
        value_order(Value::Integer(x), Value::Integer(y))->Some_0 > 0 <==> x > y,
        ordering_of(value_order(Value::Integer(x), Value::Integer(y))->Some_0) == Ordering::Less <==> x < y,
        ordering_of(value_order(Value::Integer(x), Value::Integer(y))->Some_0) == Ordering::Greater <==> x > y,
{
}

/// Floats, held by their bit patterns, order by those patterns read as
/// unsigned numbers.
pub proof fn law_floats_order_by_bits(x: u64, y: u64)
    ensures
        value_order(Value::Float(x), Value::Float(y)) is Some,
        value_order(Value::Float(x), Value::Float(y))->Some_0 < 0 <==> x < y,
        value_order(Value::Float(x), Value::Float(y))->Some_0 == 0 <==> x == y,
        value_order(Value::Float(x), Value::Float(y))->Some_0 > 0 <==> x > y,
{
}

/// `false` sorts below `true`.
pub proof fn law_false_sorts_below_true(x: bool, y: bool)
    ensures
        value_order(Value::Bool(x), Value::Bool(y)) is Some,
        value_order(Value::Bool(x), Value::Bool(y))->Some_0 < 0 <==> (!x && y),
        value_order(Value::Bool(x), Value::Bool(y))->Some_0 == 0 <==> x == y,
        value_order(Value::Bool(x), Value::Bool(y))->Some_0 > 0 <==> (x && !y),
{
}

/// Texts order by their characters: below exactly when the first text
/// sorts strictly before the second, above exactly when it sorts strictly
/// after.
pub proof fn law_texts_order_by_characters(x: String, y: String)
    ensures
        value_order(Value::Text(x), Value::Text(y)) is Some,
        value_order(Value::Text(x), Value::Text(y))->Some_0 < 0 <==> chars_lt(x@, y@),
        value_order(Value::Text(x), Value::Text(y))->Some_0 == 0 <==> x@ == y@,
        value_order(Value::Text(x), Value::Text(y))->Some_0 > 0 <==> chars_lt(y@, x@),
{
    crate::text::law_chars_order_is_strict_total(x@, y@, x@);
    crate::text::law_chars_order_is_strict_total(y@, x@, y@);
}

/// Byte strings and UUIDs order by their bytes: below exactly when the
/// first sorts strictly before the second, above exactly when it sorts
/// strictly after.
pub proof fn law_bytes_values_order_by_bytes(x: Vec<u8>, y: Vec<u8>, u: [u8; 16], w: [u8; 16])
    ensures
        value_order(Value::Blob(x), Value::Blob(y)) is Some,
        value_order(Value::Blob(x), Value::Blob(y))->Some_0 < 0 <==> bytes_lt(x@, y@),
        value_order(Value::Blob(x), Value::Blob(y))->Some_0 == 0 <==> x@ == y@,
        value_order(Value::Blob(x), Value::Blob(y))->Some_0 > 0 <==> bytes_lt(y@, x@),
        value_order(Value::Uuid(u), Value::Uuid(w)) is Some,
        value_order(Value::Uuid(u), Value::Uuid(w))->Some_0 < 0 <==> bytes_lt(u@, w@),
        value_order(Value::Uuid(u), Value::Uuid(w))->Some_0 == 0 <==> u@ == w@,
        value_order(Value::Uuid(u), Value::Uuid(w))->Some_0 > 0 <==> bytes_lt(w@, u@),
{
    crate::bytes_order::law_bytes_order_is_strict_total(x@, y@, x@);
    crate::bytes_order::law_bytes_order_is_strict_total(y@, x@, y@);
    crate::bytes_order::law_bytes_order_is_strict_total(u@, w@, u@);
    crate::bytes_order::law_bytes_order_is_strict_total(w@, u@, w@);
}

/// Values of different types, other than an integer against a float, order
/// by the rank of their types: null, type, UUID, bool, integer, float,
/// text, document, bytes.
pub proof fn law_different_types_order_by_rank(a: Value, b: Value)
    requires
        type_of(a) != type_of(b),
        !((a is Integer || a is Float) && (b is Integer || b is Float)),
    ensures
        value_order(a, b) is Some,
        value_order(a, b)->Some_0 < 0 <==> rank_spec(type_of(a)) < rank_spec(type_of(b)),
        value_order(a, b)->Some_0 > 0 <==> rank_spec(type_of(a)) > rank_spec(type_of(b)),
        rank_spec(ValueType::Null) < rank_spec(ValueType::Type) < rank_spec(ValueType::Uuid)
            < rank_spec(ValueType::Bool) < rank_spec(ValueType::Integer) < rank_spec(ValueType::Float)
            < rank_spec(ValueType::Text) < rank_spec(ValueType::Json) < rank_spec(ValueType::Blob),
{
    crate::value::law_rank_injective(type_of(a), type_of(b));
}

/// An integer meets a float as the double it rounds to: it sorts below the
/// float exactly when that double's bit pattern is the smaller, level
/// exactly when the patterns are equal, and the order flips when the two
/// are swapped.
pub proof fn law_integer_meets_float_as_double(x: i64, y: u64)
    ensures
        value_order(Value::Integer(x), Value::Float(y)) is Some,
        value_order(Value::Integer(x), Value::Float(y))->Some_0 < 0 <==> i64_as_f64_bits(x) < y,
        value_order(Value::Integer(x), Value::Float(y))->Some_0 == 0 <==> i64_as_f64_bits(x) == y,
        value_order(Value::Integer(x), Value::Float(y))->Some_0 > 0 <==> i64_as_f64_bits(x) > y,
        value_order(Value::Float(y), Value::Integer(x))->Some_0 < 0 <==> y < i64_as_f64_bits(x),
        value_order(Value::Float(y), Value::Integer(x))->Some_0 > 0 <==> y > i64_as_f64_bits(x),
{
}

} // verus!
