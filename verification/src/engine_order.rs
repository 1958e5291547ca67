//! Equality and order of stored values. Floats compare as numbers, with every
//! NaN equal to every other and above all numbers; an integer meets a float
//! as the double it rounds to; values of different types order by type.
use vstd::prelude::*;
use vstd::std_specs::cmp::{PartialEqSpecImpl, PartialOrdSpecImpl};

use std::cmp::Ordering;

use crate::bytes_order::{bytes_lt, compare_bytes};
use crate::engine_types::{discriminant_spec, EngineValue};
use crate::float_bits::{
    compare_floats, compare_floats_spec, f64_bits_eq, f64_bits_is_nan, f64_eq, f64_is_nan,
    i64_as_f64_bits, i64_to_f64_bits,
};
use crate::text::{chars_lt, compare_str, str_eq};

verus! {

/// Two stored values are equal: same type and same contents, where floats
/// are equal as numbers or when both are NaN.
pub open spec fn engine_eq_spec(a: EngineValue, b: EngineValue) -> bool {
    match (a, b) {
        (EngineValue::Null, EngineValue::Null) => true,
        (EngineValue::Integer(x), EngineValue::Integer(y)) => x == y,
        (EngineValue::Float(x), EngineValue::Float(y)) => f64_eq(x, y) || (f64_is_nan(x) && f64_is_nan(y)),
        (EngineValue::Text(x), EngineValue::Text(y)) => x@ == y@,
        (EngineValue::Uuid(x), EngineValue::Uuid(y)) => x@ == y@,
        (EngineValue::Blob(x), EngineValue::Blob(y)) => x@ == y@,
        (EngineValue::Json(x), EngineValue::Json(y)) => x@ == y@,
        _ => false,
    }
}

/// -1, 0 or 1 as `a` is below, equal to or above `b`.
pub open spec fn sign_of(less: bool, equal: bool) -> int {
    if less { -1 } else if equal { 0 } else { 1 }
}

/// Order of two values of one type, or of the types where they differ.
pub open spec fn same_type_order(a: EngineValue, b: EngineValue) -> int {
    match (a, b) {
        (EngineValue::Null, EngineValue::Null) => 0,
        (EngineValue::Integer(x), EngineValue::Integer(y)) => sign_of(x < y, x == y),
        (EngineValue::Float(x), EngineValue::Float(y)) => compare_floats_spec(x, y),
        (EngineValue::Text(x), EngineValue::Text(y)) => sign_of(chars_lt(x@, y@), x@ == y@),
        (EngineValue::Uuid(x), EngineValue::Uuid(y)) => sign_of(bytes_lt(x@, y@), x@ == y@),
        (EngineValue::Blob(x), EngineValue::Blob(y)) => sign_of(bytes_lt(x@, y@), x@ == y@),
        (EngineValue::Json(x), EngineValue::Json(y)) => sign_of(chars_lt(x@, y@), x@ == y@),
        _ => sign_of(
            discriminant_spec(a) < discriminant_spec(b),
            discriminant_spec(a) == discriminant_spec(b),
        ),
    }
}

/// Order of two stored values: an integer and a float compare as floats.
pub open spec fn engine_order(a: EngineValue, b: EngineValue) -> int {
    match (a, b) {
        (EngineValue::Integer(x), EngineValue::Float(y)) => compare_floats_spec(i64_as_f64_bits(x), y),
        (EngineValue::Float(x), EngineValue::Integer(y)) => compare_floats_spec(x, i64_as_f64_bits(y)),
        _ => same_type_order(a, b),
    }
}

/// The `Ordering` that stands for -1, 0 or 1.
pub open spec fn ordering_of(sign: int) -> Ordering {
    if sign < 0 {
        Ordering::Less
    } else if sign == 0 {
        Ordering::Equal
    } else {
        Ordering::Greater
    }
}

fn ordering_from(sign: i8) -> (r: Ordering)
    ensures
        sign < 0 ==> r == Ordering::Less,
        sign == 0 ==> r == Ordering::Equal,
        sign > 0 ==> r == Ordering::Greater,
{
    if sign < 0 {
        Ordering::Less
    } else if sign == 0 {
        Ordering::Equal
    } else {
        Ordering::Greater
    }
}

fn order_i64(x: i64, y: i64) -> (r: i8)
    ensures
        r == sign_of(x < y, x == y),
{
    if x < y { -1 } else if x == y { 0 } else { 1 }
}

fn order_u8(x: u8, y: u8) -> (r: i8)
    ensures
        r == sign_of(x < y, x == y),
{
    if x < y { -1 } else if x == y { 0 } else { 1 }
}

impl EngineValue {
    /// Equality of stored values.
    pub fn equals(&self, other: &EngineValue) -> (r: bool)
        ensures
            r == engine_eq_spec(*self, *other),
    {
        match (self, other) {
            (EngineValue::Null, EngineValue::Null) => true,
            (EngineValue::Integer(x), EngineValue::Integer(y)) => *x == *y,
            (EngineValue::Float(x), EngineValue::Float(y)) => {
                f64_bits_eq(*x, *y) || (f64_bits_is_nan(*x) && f64_bits_is_nan(*y))
            },
            (EngineValue::Text(x), EngineValue::Text(y)) => str_eq(x.as_str(), y.as_str()),
            (EngineValue::Uuid(x), EngineValue::Uuid(y)) => compare_bytes(x.as_slice(), y.as_slice()) == 0,
            (EngineValue::Blob(x), EngineValue::Blob(y)) => compare_bytes(x.as_slice(), y.as_slice()) == 0,
            (EngineValue::Json(x), EngineValue::Json(y)) => str_eq(x.as_str(), y.as_str()),
            _ => false,
        }
    }

    /// Order of two values of one type; values of different types order by
    /// their type.
    pub fn cmp_same_type(&self, other: &EngineValue) -> (r: Ordering)
        ensures
            r == ordering_of(same_type_order(*self, *other)),
    {
        let sign: i8 = match (self, other) {
            (EngineValue::Null, EngineValue::Null) => 0,
            (EngineValue::Integer(x), EngineValue::Integer(y)) => order_i64(*x, *y),
            (EngineValue::Float(x), EngineValue::Float(y)) => compare_floats(*x, *y),
            (EngineValue::Text(x), EngineValue::Text(y)) => compare_str(x.as_str(), y.as_str()),
            (EngineValue::Uuid(x), EngineValue::Uuid(y)) => compare_bytes(x.as_slice(), y.as_slice()),
            (EngineValue::Blob(x), EngineValue::Blob(y)) => compare_bytes(x.as_slice(), y.as_slice()),
            (EngineValue::Json(x), EngineValue::Json(y)) => compare_str(x.as_str(), y.as_str()),
            _ => order_u8(self.type_precedence(), other.type_precedence()),
        };
        ordering_from(sign)
    }

    /// Total order of stored values.
    pub fn cmp(&self, other: &EngineValue) -> (r: Ordering)
        ensures
            r == ordering_of(engine_order(*self, *other)),
    {
        match (self, other) {
            (EngineValue::Integer(x), EngineValue::Float(y)) => {
                ordering_from(compare_floats(i64_to_f64_bits(*x), *y))
            },
            (EngineValue::Float(x), EngineValue::Integer(y)) => {
                ordering_from(compare_floats(*x, i64_to_f64_bits(*y)))
            },
            _ => self.cmp_same_type(other),
        }
    }
}

impl PartialEq for EngineValue {
    fn eq(&self, other: &EngineValue) -> (r: bool) {
        self.equals(other)
    }
}

impl PartialEqSpecImpl for EngineValue {
    open spec fn obeys_eq_spec() -> bool {
        true
    }

    open spec fn eq_spec(&self, other: &EngineValue) -> bool {
        engine_eq_spec(*self, *other)
    }
}

impl Eq for EngineValue {}

impl PartialOrd for EngineValue {
    fn partial_cmp(&self, other: &EngineValue) -> (r: Option<Ordering>) {
        Some(self.cmp(other))
    }
}

impl PartialOrdSpecImpl for EngineValue {
    open spec fn obeys_partial_cmp_spec() -> bool {
        true
    }

    open spec fn partial_cmp_spec(&self, other: &EngineValue) -> Option<Ordering> {
        Some(ordering_of(engine_order(*self, *other)))
    }
}


/// An integer and a float, in either order: the one pairing that compares
/// through rounding.
pub open spec fn integer_meets_float(a: EngineValue, b: EngineValue) -> bool {
    (a is Integer && b is Float) || (a is Float && b is Integer)
}

proof fn lemma_content_orders(a: EngineValue, b: EngineValue, c: EngineValue)
    ensures
        match (a, b, c) {
            (EngineValue::Text(x), EngineValue::Text(y), EngineValue::Text(z)) => {
                &&& !chars_lt(x@, x@)
                &&& chars_lt(x@, y@) ==> !chars_lt(y@, x@)
                &&& chars_lt(x@, y@) && chars_lt(y@, z@) ==> chars_lt(x@, z@)
                &&& x@ != y@ ==> chars_lt(x@, y@) || chars_lt(y@, x@)
            },
            (EngineValue::Json(x), EngineValue::Json(y), EngineValue::Json(z)) => {
                &&& !chars_lt(x@, x@)
                &&& chars_lt(x@, y@) ==> !chars_lt(y@, x@)
                &&& chars_lt(x@, y@) && chars_lt(y@, z@) ==> chars_lt(x@, z@)
                &&& x@ != y@ ==> chars_lt(x@, y@) || chars_lt(y@, x@)
            },
            (EngineValue::Uuid(x), EngineValue::Uuid(y), EngineValue::Uuid(z)) => {
                &&& !bytes_lt(x@, x@)
                &&& bytes_lt(x@, y@) ==> !bytes_lt(y@, x@)
                &&& bytes_lt(x@, y@) && bytes_lt(y@, z@) ==> bytes_lt(x@, z@)
                &&& x@ != y@ ==> bytes_lt(x@, y@) || bytes_lt(y@, x@)
            },
            (EngineValue::Blob(x), EngineValue::Blob(y), EngineValue::Blob(z)) => {
                &&& !bytes_lt(x@, x@)
                &&& bytes_lt(x@, y@) ==> !bytes_lt(y@, x@)
                &&& bytes_lt(x@, y@) && bytes_lt(y@, z@) ==> bytes_lt(x@, z@)
                &&& x@ != y@ ==> bytes_lt(x@, y@) || bytes_lt(y@, x@)
            },
            _ => true,
        },
{
    match (a, b, c) {
        (EngineValue::Text(x), EngineValue::Text(y), EngineValue::Text(z)) => {
            crate::text::law_chars_order_is_strict_total(x@, y@, z@);
        },
        (EngineValue::Json(x), EngineValue::Json(y), EngineValue::Json(z)) => {
            crate::text::law_chars_order_is_strict_total(x@, y@, z@);
        },
        (EngineValue::Uuid(x), EngineValue::Uuid(y), EngineValue::Uuid(z)) => {
            crate::bytes_order::law_bytes_order_is_strict_total(x@, y@, z@);
        },
        (EngineValue::Blob(x), EngineValue::Blob(y), EngineValue::Blob(z)) => {
            crate::bytes_order::law_bytes_order_is_strict_total(x@, y@, z@);
        },
        _ => {},
    }
}

/// Equality of stored values is an equivalence: every value equals itself
/// (a NaN too), and equality is symmetric and transitive.
pub proof fn law_engine_equality_is_equivalence(a: EngineValue, b: EngineValue, c: EngineValue)
    ensures
        engine_eq_spec(a, a),
        engine_eq_spec(a, b) == engine_eq_spec(b, a),
        engine_eq_spec(a, b) && engine_eq_spec(b, c) ==> engine_eq_spec(a, c),
{
}

/// The order of stored values is antisymmetric: every value sits level with
/// itself, and swapping the two sides flips the result.
pub proof fn law_engine_order_is_antisymmetric(a: EngineValue, b: EngineValue)
    ensures
        engine_order(a, a) == 0,
        engine_order(a, b) == -engine_order(b, a),
{
    lemma_content_orders(a, b, a);
    lemma_content_orders(a, a, a);
    lemma_content_orders(b, a, b);
}

/// Where an integer does not meet a float, two values sit level in the order
/// exactly when they are equal.
pub proof fn law_engine_order_agrees_with_equality(a: EngineValue, b: EngineValue)
    requires
        !integer_meets_float(a, b),
    ensures
        engine_order(a, b) == 0 <==> engine_eq_spec(a, b),
{
    lemma_content_orders(a, b, a);
}

/// Among values where no integer meets a float, the order is transitive.
pub proof fn law_engine_order_is_transitive(a: EngineValue, b: EngineValue, c: EngineValue)
    requires
        !integer_meets_float(a, b),
        !integer_meets_float(b, c),
        !integer_meets_float(a, c),
    ensures
        engine_order(a, b) <= 0 && engine_order(b, c) <= 0 ==> engine_order(a, c) <= 0,
        engine_order(a, b) < 0 && engine_order(b, c) <= 0 ==> engine_order(a, c) < 0,
        engine_order(a, b) <= 0 && engine_order(b, c) < 0 ==> engine_order(a, c) < 0,
{
    lemma_content_orders(a, b, c);
}

/// Stored integers order as numbers and texts by their characters: below
/// exactly when the first is smaller, level exactly when they are equal.
pub proof fn law_engine_integers_and_texts_order_naturally(x: i64, y: i64, s: String, t: String)
    ensures
        engine_order(EngineValue::Integer(x), EngineValue::Integer(y)) < 0 <==> x < y,
        engine_order(EngineValue::Integer(x), EngineValue::Integer(y)) == 0 <==> x == y,
        engine_order(EngineValue::Integer(x), EngineValue::Integer(y)) > 0 <==> x > y,
        engine_order(EngineValue::Text(s), EngineValue::Text(t)) < 0 <==> chars_lt(s@, t@),
        engine_order(EngineValue::Text(s), EngineValue::Text(t)) == 0 <==> s@ == t@,
        engine_order(EngineValue::Text(s), EngineValue::Text(t)) > 0 <==> chars_lt(t@, s@),
{
    crate::text::law_chars_order_is_strict_total(s@, t@, s@);
    crate::text::law_chars_order_is_strict_total(t@, s@, t@);
}

} // verus!
