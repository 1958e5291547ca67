//! Equality and order of JSON numbers. Integers of either sign compare as
//! integers; a float meets an integer as the double the integer rounds to.
//! Equality with a float is numeric (`==` on doubles), while the order puts
//! floats by their bit patterns.
use vstd::prelude::*;
use vstd::std_specs::cmp::{PartialEqSpecImpl, PartialOrdSpecImpl};

use std::cmp::Ordering;

use crate::engine_order::{ordering_of, sign_of};
use crate::float_bits::{
    f64_bits_eq, f64_eq, i64_as_f64_bits, i64_to_f64_bits, u64_as_f64_bits, u64_to_f64_bits,
};
use crate::json_docs::{json_compare, json_eq, json_equals, json_order};
use crate::value::{JsonNumber, JsonValue};

verus! {

/// `n` equals the signed integer `v`.
pub open spec fn eq_i64_spec(n: JsonNumber, v: i64) -> bool {
    match n {
        JsonNumber::I64(o) => v == o,
        JsonNumber::U64(o) => v >= 0 && v == o,
        JsonNumber::F64(o) => f64_eq(i64_as_f64_bits(v), o),
    }
}

/// `n` equals the unsigned integer `v`.
pub open spec fn eq_u64_spec(n: JsonNumber, v: u64) -> bool {
    match n {
        JsonNumber::I64(o) => o >= 0 && o == v,
        JsonNumber::U64(o) => v == o,
        JsonNumber::F64(o) => f64_eq(u64_as_f64_bits(v), o),
    }
}

/// `n` equals the double with bits `v`.
pub open spec fn eq_f64_spec(n: JsonNumber, v: u64) -> bool {
    match n {
        JsonNumber::I64(o) => f64_eq(v, i64_as_f64_bits(o)),
        JsonNumber::U64(o) => f64_eq(v, u64_as_f64_bits(o)),
        JsonNumber::F64(o) => f64_eq(v, o),
    }
}

/// Equality of JSON numbers.
pub open spec fn json_number_eq(a: JsonNumber, b: JsonNumber) -> bool {
    match a {
        JsonNumber::I64(v) => eq_i64_spec(b, v),
        JsonNumber::U64(v) => eq_u64_spec(b, v),
        JsonNumber::F64(v) => eq_f64_spec(b, v),
    }
}

/// Where the signed integer `v` stands against `n`: -1, 0 or 1.
pub open spec fn order_i64_spec(n: JsonNumber, v: i64) -> int {
    match n {
        JsonNumber::I64(o) => sign_of(v < o, v == o),
        JsonNumber::U64(o) => if v >= 0 { sign_of(v < o, v == o) } else { -1 },
        JsonNumber::F64(o) => sign_of(i64_as_f64_bits(v) < o, i64_as_f64_bits(v) == o),
    }
}

/// Where the unsigned integer `v` stands against `n`: -1, 0 or 1.
pub open spec fn order_u64_spec(n: JsonNumber, v: u64) -> int {
    match n {
        JsonNumber::I64(o) => if o >= 0 { sign_of(v < o, v == o) } else { 1 },
        JsonNumber::U64(o) => sign_of(v < o, v == o),
        JsonNumber::F64(o) => sign_of(u64_as_f64_bits(v) < o, u64_as_f64_bits(v) == o),
    }
}

/// Where the double with bits `v` stands against `n`: -1, 0 or 1.
pub open spec fn order_f64_spec(n: JsonNumber, v: u64) -> int {
    match n {
        JsonNumber::I64(o) => sign_of(v < i64_as_f64_bits(o), v == i64_as_f64_bits(o)),
        JsonNumber::U64(o) => sign_of(v < u64_as_f64_bits(o), v == u64_as_f64_bits(o)),
        JsonNumber::F64(o) => sign_of(v < o, v == o),
    }
}

/// Order of JSON numbers.
pub open spec fn json_number_order(a: JsonNumber, b: JsonNumber) -> int {
    match a {
        JsonNumber::I64(v) => order_i64_spec(b, v),
        JsonNumber::U64(v) => order_u64_spec(b, v),
        JsonNumber::F64(v) => order_f64_spec(b, v),
    }
}

fn sign_u64(x: u64, y: u64) -> (r: i8)
    ensures
        r == sign_of(x < y, x == y),
{
    if x < y { -1 } else if x == y { 0 } else { 1 }
}

fn sign_i64(x: i64, y: i64) -> (r: i8)
    ensures
        r == sign_of(x < y, x == y),
{
    if x < y { -1 } else if x == y { 0 } else { 1 }
}

fn ordering_from_sign(sign: i8) -> (r: Ordering)
    ensures
        sign < 0 ==> r == Ordering::Less,
        sign == 0 ==> r == Ordering::Equal,
        sign > 0 ==> r == Ordering::Greater,
{
    if sign < 0 {
        Ordering::Less
    } else if sign == 0 {
        Ordering::Equal
    } else {
        Ordering::Greater
    }
}

/// The unsigned value of a non-negative signed integer.
fn nonnegative_to_u64(v: i64) -> (r: u64)
    requires
        v >= 0,
    ensures
        r == v,
{
    v as u64
}

impl JsonNumber {
    pub fn eq_i64(&self, value: i64) -> (r: bool)
        ensures
            r == eq_i64_spec(*self, value),
    {
        match self {
            JsonNumber::I64(other) => value == *other,
            JsonNumber::U64(other) => value >= 0 && nonnegative_to_u64(value) == *other,
            JsonNumber::F64(other) => f64_bits_eq(i64_to_f64_bits(value), *other),
        }
    }

    pub fn eq_u64(&self, value: u64) -> (r: bool)
        ensures
            r == eq_u64_spec(*self, value),
    {
        match self {
            JsonNumber::I64(other) => *other >= 0 && nonnegative_to_u64(*other) == value,
            JsonNumber::U64(other) => value == *other,
            JsonNumber::F64(other) => f64_bits_eq(u64_to_f64_bits(value), *other),
        }
    }

    pub fn eq_f64(&self, value: u64) -> (r: bool)
        ensures
            r == eq_f64_spec(*self, value),
    {
        match self {
            JsonNumber::I64(other) => f64_bits_eq(value, i64_to_f64_bits(*other)),
            JsonNumber::U64(other) => f64_bits_eq(value, u64_to_f64_bits(*other)),
            JsonNumber::F64(other) => f64_bits_eq(value, *other),
        }
    }

    pub fn cmp_i64(&self, value: i64) -> (r: Ordering)
        ensures
            r == ordering_of(order_i64_spec(*self, value)),
    {
        let sign: i8 = match self {
            JsonNumber::I64(other) => sign_i64(value, *other),
            JsonNumber::U64(other) => if value >= 0 {
                sign_u64(nonnegative_to_u64(value), *other)
            } else {
                -1
            },
            JsonNumber::F64(other) => sign_u64(i64_to_f64_bits(value), *other),
        };
        ordering_from_sign(sign)
    }

    pub fn cmp_u64(&self, value: u64) -> (r: Ordering)
        ensures
            r == ordering_of(order_u64_spec(*self, value)),
    {
        let sign: i8 = match self {
            JsonNumber::I64(other) => if *other >= 0 {
                sign_u64(value, nonnegative_to_u64(*other))
            } else {
                1
            },
            JsonNumber::U64(other) => sign_u64(value, *other),
            JsonNumber::F64(other) => sign_u64(u64_to_f64_bits(value), *other),
        };
        ordering_from_sign(sign)
    }

    pub fn cmp_f64(&self, value: u64) -> (r: Ordering)
        ensures
            r == ordering_of(order_f64_spec(*self, value)),
    {
        let sign: i8 = match self {
            JsonNumber::I64(other) => sign_u64(value, i64_to_f64_bits(*other)),
            JsonNumber::U64(other) => sign_u64(value, u64_to_f64_bits(*other)),
            JsonNumber::F64(other) => sign_u64(value, *other),
        };
        ordering_from_sign(sign)
    }

    /// Equality of JSON numbers.
    pub fn equals(&self, other: &JsonNumber) -> (r: bool)
        ensures
            r == json_number_eq(*self, *other),
    {
        match self {
            JsonNumber::I64(value) => other.eq_i64(*value),
            JsonNumber::U64(value) => other.eq_u64(*value),
            JsonNumber::F64(value) => other.eq_f64(*value),
        }
    }

    /// Order of JSON numbers.
    pub fn cmp(&self, other: &JsonNumber) -> (r: Ordering)
        ensures
            r == ordering_of(json_number_order(*self, *other)),
    {
        match self {
            JsonNumber::I64(value) => other.cmp_i64(*value),
            JsonNumber::U64(value) => other.cmp_u64(*value),
            JsonNumber::F64(value) => other.cmp_f64(*value),
        }
    }
}

impl PartialEq for JsonNumber {
    fn eq(&self, other: &JsonNumber) -> (r: bool) {
        self.equals(other)
    }
}

impl PartialEqSpecImpl for JsonNumber {
    open spec fn obeys_eq_spec() -> bool {
        true
    }

    open spec fn eq_spec(&self, other: &JsonNumber) -> bool {
        json_number_eq(*self, *other)
    }
}

impl PartialOrd for JsonNumber {
    fn partial_cmp(&self, other: &JsonNumber) -> (r: Option<Ordering>) {
        Some(self.cmp(other))
    }
}

impl PartialOrdSpecImpl for JsonNumber {
    open spec fn obeys_partial_cmp_spec() -> bool {
        true
    }

    open spec fn partial_cmp_spec(&self, other: &JsonNumber) -> Option<Ordering> {
        Some(ordering_of(json_number_order(*self, *other)))
    }
}

/// Equality of JSON numbers is symmetric.
pub proof fn law_json_number_equality_is_symmetric(a: JsonNumber, b: JsonNumber)
    ensures
        json_number_eq(a, b) == json_number_eq(b, a),
{
}

/// The order of JSON numbers is antisymmetric: every number sits level with
/// itself, and swapping the two sides flips the result.
pub proof fn law_json_number_order_is_antisymmetric(a: JsonNumber, b: JsonNumber)
    ensures
        json_number_order(a, a) == 0,
        json_number_order(a, b) == -json_number_order(b, a),
{
}


/// Where `a` stands against `b`: -1, 0 or 1.
pub fn number_sign(a: &JsonNumber, b: &JsonNumber) -> (r: i8)
    ensures
        r == json_number_order(*a, *b),
{
    match a.cmp(b) {
        Ordering::Less => -1,
        Ordering::Equal => 0,
        Ordering::Greater => 1,
    }
}


impl JsonValue {
    /// Equality of JSON documents.
    pub fn equals(&self, other: &JsonValue) -> (r: bool)
        ensures
            r == json_eq(*self, *other),
    {
        json_equals(self, other)
    }

    /// Order of JSON documents.
    pub fn cmp(&self, other: &JsonValue) -> (r: Ordering)
        ensures
            r == ordering_of(json_order(*self, *other)),
    {
        ordering_from_sign(json_compare(self, other))
    }
}

impl PartialEq for JsonValue {
    fn eq(&self, other: &JsonValue) -> (r: bool) {
        self.equals(other)
    }
}

impl PartialEqSpecImpl for JsonValue {
    open spec fn obeys_eq_spec() -> bool {
        true
    }

    open spec fn eq_spec(&self, other: &JsonValue) -> bool {
        json_eq(*self, *other)
    }
}

impl PartialOrd for JsonValue {
    fn partial_cmp(&self, other: &JsonValue) -> (r: Option<Ordering>) {
        Some(self.cmp(other))
    }
}

impl PartialOrdSpecImpl for JsonValue {
    open spec fn obeys_partial_cmp_spec() -> bool {
        true
    }

    open spec fn partial_cmp_spec(&self, other: &JsonValue) -> Option<Ordering> {
        Some(ordering_of(json_order(*self, *other)))
    }
}

} // verus!
