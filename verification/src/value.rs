//! Dynamically typed values, their type tags and rows of them.
//!
//! A floating-point number is held by its IEEE-754 bit pattern (`f64::to_bits`),
//! which is how values are compared for equality and order among floats.
use vstd::prelude::*;
use vstd::arithmetic::power2::{pow2, lemma2_to64, lemma2_to64_rest, lemma_pow2_strictly_increases};
use vstd::bits::{lemma_u64_shr_is_div, lemma_u64_shl_is_mul};

use crate::float_bits::{f64_exponent, f64_fraction, f64_negative};

verus! {

/// Type tag of a value; the declaration order is the rank order.
#[derive(Clone, Copy, Debug, PartialEq, Eq, Hash, Structural)]
pub enum ValueType {
    Null,
    Type,
    Uuid,
    Bool,
    Integer,
    Float,
    Text,
    Json,
    Blob,
}

pub open spec fn rank_spec(t: ValueType) -> u8 {
    match t {
        ValueType::Null => 0,
        ValueType::Type => 1,
        ValueType::Uuid => 2,
        ValueType::Bool => 3,
        ValueType::Integer => 4,
        ValueType::Float => 5,
        ValueType::Text => 6,
        ValueType::Json => 7,
        ValueType::Blob => 8,
    }
}

impl ValueType {
    /// Position of the type in the declaration order.
    pub fn rank(&self) -> (r: u8)
        ensures
            r == rank_spec(*self),
    {
        match self {
            ValueType::Null => 0,
            ValueType::Type => 1,
            ValueType::Uuid => 2,
            ValueType::Bool => 3,
            ValueType::Integer => 4,
            ValueType::Float => 5,
            ValueType::Text => 6,
            ValueType::Json => 7,
            ValueType::Blob => 8,
        }
    }

    /// Three-way comparison of two type tags by rank: -1, 0 or 1.
    pub fn compare(&self, other: &ValueType) -> (r: i8)
        ensures
            r == -1 <==> rank_spec(*self) < rank_spec(*other),
            r == 0 <==> *self == *other,
            r == 1 <==> rank_spec(*self) > rank_spec(*other),
    {
        let a = self.rank();
        let b = other.rank();
        proof { law_rank_injective(*self, *other); }
        if a < b {
            -1
        } else if a == b {
            0
        } else {
            1
        }
    }
}

/// Distinct type tags have distinct ranks, so ordering by rank is a strict
/// total order on type tags.
pub proof fn law_rank_injective(a: ValueType, b: ValueType)
    ensures
        rank_spec(a) == rank_spec(b) <==> a == b,
        rank_spec(a) < 9,
{
}

/// A JSON number: signed, unsigned, or a float held by its bit pattern.
#[derive(Clone, Copy, Debug)]
pub enum JsonNumber {
    I64(i64),
    U64(u64),
    F64(u64),
}

/// A JSON document; object members are kept sorted by key, each key once.
#[derive(Debug)]
pub enum JsonValue {
    Null,
    Bool(bool),
    Number(JsonNumber),
    String(String),
    Array(Vec<JsonValue>),
    Object(Vec<(String, JsonValue)>),
}

/// Two JSON documents are the same document: same shape, same strings and
/// keys, and numbers with the same representation.
pub open spec fn json_same(a: JsonValue, b: JsonValue) -> bool
    decreases a,
{
    match (a, b) {
        (JsonValue::Null, JsonValue::Null) => true,
        (JsonValue::Bool(x), JsonValue::Bool(y)) => x == y,
        (JsonValue::Number(x), JsonValue::Number(y)) => x == y,
        (JsonValue::String(x), JsonValue::String(y)) => x@ == y@,
        (JsonValue::Array(x), JsonValue::Array(y)) => items_same(x@, y@),
        (JsonValue::Object(x), JsonValue::Object(y)) => members_same(x@, y@),
        _ => false,
    }
}

/// Two lists of JSON documents hold the same documents in the same order.
pub open spec fn items_same(xs: Seq<JsonValue>, ys: Seq<JsonValue>) -> bool
    decreases xs,
{
    if xs.len() == 0 {
        ys.len() == 0
    } else {
        ys.len() > 0 && json_same(xs[0], ys[0]) && items_same(xs.drop_first(), ys.drop_first())
    }
}

/// Two lists of object members hold the same keys and documents in the same
/// order.
pub open spec fn members_same(xs: Seq<(String, JsonValue)>, ys: Seq<(String, JsonValue)>) -> bool
    decreases xs,
{
    if xs.len() == 0 {
        ys.len() == 0
    } else {
        ys.len() > 0 && xs[0].0@ == ys[0].0@ && json_same(xs[0].1, ys[0].1)
            && members_same(xs.drop_first(), ys.drop_first())
    }
}

proof fn lemma_items_same(xs: Seq<JsonValue>, ys: Seq<JsonValue>)
    requires
        xs.len() == ys.len(),
        forall|k: int| 0 <= k < xs.len() ==> json_same(#[trigger] xs[k], ys[k]),
    ensures
        items_same(xs, ys),
    decreases xs.len(),
{
    if xs.len() > 0 {
        assert forall|k: int| 0 <= k < xs.drop_first().len() implies json_same(
            #[trigger] xs.drop_first()[k],
            ys.drop_first()[k],
        ) by {
            assert(xs.drop_first()[k] == xs[k + 1]);
            assert(ys.drop_first()[k] == ys[k + 1]);
        }
        lemma_items_same(xs.drop_first(), ys.drop_first());
    }
}

proof fn lemma_members_same(xs: Seq<(String, JsonValue)>, ys: Seq<(String, JsonValue)>)
    requires
        xs.len() == ys.len(),
        forall|k: int| 0 <= k < xs.len() ==> (#[trigger] xs[k]).0@ == ys[k].0@ && json_same(xs[k].1, ys[k].1),
    ensures
        members_same(xs, ys),
    decreases xs.len(),
{
    if xs.len() > 0 {
        assert forall|k: int| 0 <= k < xs.drop_first().len() implies (#[trigger] xs.drop_first()[k]).0@
            == ys.drop_first()[k].0@ && json_same(xs.drop_first()[k].1, ys.drop_first()[k].1) by {
            assert(xs.drop_first()[k] == xs[k + 1]);
            assert(ys.drop_first()[k] == ys[k + 1]);
        }
        lemma_members_same(xs.drop_first(), ys.drop_first());
    }
}

/// A copy of a JSON document.
pub fn clone_json(j: &JsonValue) -> (r: JsonValue)
    ensures
        json_same(*j, r),
    decreases j,
{
    match j {
        JsonValue::Null => JsonValue::Null,
        JsonValue::Bool(b) => JsonValue::Bool(*b),
        JsonValue::Number(n) => JsonValue::Number(*n),
        JsonValue::String(s) => JsonValue::String(s.clone()),
        JsonValue::Array(items) => {
            let mut out: Vec<JsonValue> = Vec::new();
            let mut i: usize = 0;
            while i < items.len()
                invariant
                    i <= items@.len(),
                    out@.len() == i,
                    *j == JsonValue::Array(*items),
                    forall|k: int| 0 <= k < i ==> json_same(#[trigger] items@[k], out@[k]),
                decreases items.len() - i,
            {
                proof {
                    vstd::std_specs::vec::axiom_vec_index_decreases(*items, i as int);
                    assert(decreases_to!(*j => (*j)->Array_0));
                    assert(decreases_to!(*items => items[i as int]));
                    assert(decreases_to!(*j => items[i as int]));
                }
                let c = clone_json(&items[i]);
                out.push(c);
                i = i + 1;
            }
            proof { lemma_items_same(items@, out@); }
            JsonValue::Array(out)
        },
        JsonValue::Object(members) => {
            let mut out: Vec<(String, JsonValue)> = Vec::new();
            let mut i: usize = 0;
            while i < members.len()
                invariant
                    i <= members@.len(),
                    out@.len() == i,
                    *j == JsonValue::Object(*members),
                    forall|k: int| 0 <= k < i ==> (#[trigger] members@[k]).0@ == out@[k].0@
                        && json_same(members@[k].1, out@[k].1),
                decreases members.len() - i,
            {
                proof {
                    vstd::std_specs::vec::axiom_vec_index_decreases(*members, i as int);
                    assert(decreases_to!(*j => (*j)->Object_0));
                    assert(decreases_to!(*members => members[i as int]));
                    assert(decreases_to!(members[i as int] => members[i as int].1));
                    assert(decreases_to!(*j => members[i as int].1));
                }
                let k = members[i].0.clone();
                let c = clone_json(&members[i].1);
                out.push((k, c));
                i = i + 1;
            }
            proof { lemma_members_same(members@, out@); }
            JsonValue::Object(out)
        },
    }
}

impl Clone for JsonValue {
    fn clone(&self) -> (r: JsonValue)
        ensures
            json_same(*self, r),
    {
        clone_json(self)
    }
}

/// A dynamically typed value.
#[derive(Clone, Debug)]
pub enum Value {
    Null,
    Type(ValueType),
    Uuid([u8; 16]),
    Bool(bool),
    Integer(i64),
    Float(u64),
    Text(String),
    Json(JsonValue),
    Blob(Vec<u8>),
}

/// Type tag of a value.
pub open spec fn type_of(v: Value) -> ValueType {
    match v {
        Value::Null => ValueType::Null,
        Value::Type(_) => ValueType::Type,
        Value::Uuid(_) => ValueType::Uuid,
        Value::Bool(_) => ValueType::Bool,
        Value::Integer(_) => ValueType::Integer,
        Value::Float(_) => ValueType::Float,
        Value::Text(_) => ValueType::Text,
        Value::Blob(_) => ValueType::Blob,
        Value::Json(_) => ValueType::Json,
    }
}

impl Value {
    /// The type tag of this value.
    pub fn value_type(&self) -> (r: ValueType)
        ensures
            r == type_of(*self),
    {
        match self {
            Value::Null => ValueType::Null,
            Value::Type(_) => ValueType::Type,
            Value::Uuid(_) => ValueType::Uuid,
            Value::Bool(_) => ValueType::Bool,
            Value::Integer(_) => ValueType::Integer,
            Value::Float(_) => ValueType::Float,
            Value::Text(_) => ValueType::Text,
            Value::Blob(_) => ValueType::Blob,
            Value::Json(_) => ValueType::Json,
        }
    }

    pub fn as_null(&self) -> (r: Option<()>)
        ensures
            r is Some <==> *self is Null,
    {
        match self {
            Value::Null => Some(()),
            _ => None,
        }
    }

    pub fn as_type(&self) -> (r: Option<&ValueType>)
        ensures
            match *self {
                Value::Type(t) => r == Some(&t),
                _ => r is None,
            },
    {
        match self {
            Value::Type(value_type) => Some(value_type),
            _ => None,
        }
    }

    pub fn to_type(&self) -> (r: Option<ValueType>)
        ensures
            match *self {
                Value::Type(t) => r == Some(t),
                _ => r is None,
            },
    {
        match self {
            Value::Type(value_type) => Some(*value_type),
            _ => None,
        }
    }

    pub fn as_uuid(&self) -> (r: Option<&[u8; 16]>)
        ensures
            match *self {
                Value::Uuid(u) => r == Some(&u),
                _ => r is None,
            },
    {
        match self {
            Value::Uuid(uuid) => Some(uuid),
            _ => None,
        }
    }

    pub fn to_uuid(&self) -> (r: Option<[u8; 16]>)
        ensures
            match *self {
                Value::Uuid(u) => r == Some(u),
                _ => r is None,
            },
    {
        match self {
            Value::Uuid(uuid) => Some(*uuid),
            _ => None,
        }
    }

    pub fn as_bool(&self) -> (r: Option<bool>)
        ensures
            match *self {
                Value::Bool(b) => r == Some(b),
                _ => r is None,
            },
    {
        match self {
            Value::Bool(b) => Some(*b),
            _ => None,
        }
    }

    pub fn to_bool(&self) -> (r: Option<bool>)
        ensures
            match *self {
                Value::Bool(b) => r == Some(b),
                _ => r is None,
            },
    {
        self.as_bool()
    }

    pub fn as_text(&self) -> (r: Option<&str>)
        ensures
            match *self {
                Value::Text(s) => r matches Some(t) && t@ == s@,
                _ => r is None,
            },
    {
        match self {
            Value::Text(s) => Some(s.as_str()),
            _ => None,
        }
    }

    pub fn to_text(&self) -> (r: Option<String>)
        ensures
            match *self {
                Value::Text(s) => r matches Some(t) && t@ == s@,
                _ => r is None,
            },
    {
        match self {
            Value::Text(s) => Some(s.clone()),
            _ => None,
        }
    }

    pub fn as_blob(&self) -> (r: Option<&[u8]>)
        ensures
            match *self {
                Value::Blob(b) => r matches Some(t) && t@ == b@,
                _ => r is None,
            },
    {
        match self {
            Value::Blob(b) => Some(b.as_slice()),
            _ => None,
        }
    }

    pub fn to_blob(&self) -> (r: Option<Vec<u8>>)
        ensures
            match *self {
                Value::Blob(b) => r matches Some(t) && t@ == b@,
                _ => r is None,
            },
    {
        match self {
            Value::Blob(b) => Some(crate::change_key::copy_bytes(b.as_slice())),
            _ => None,
        }
    }

    /// The value as an integer: an integer as it is, a float truncated toward
    /// zero where it is finite and within range.
    pub fn as_integer(&self) -> (r: Option<i64>)
        ensures
            match *self {
                Value::Integer(i) => r == Some(i),
                Value::Float(bits) => match (r, f64_to_i64_spec(bits)) {
                    (Some(a), Some(b)) => a == b,
                    (None, None) => true,
                    _ => false,
                },
                _ => r is None,
            },
    {
        match self {
            Value::Integer(i) => Some(*i),
            Value::Float(bits) => f64_bits_to_i64(*bits),
            _ => None,
        }
    }

    pub fn to_integer(&self) -> (r: Option<i64>)
        ensures
            match *self {
                Value::Integer(i) => r == Some(i),
                Value::Float(bits) => match (r, f64_to_i64_spec(bits)) {
                    (Some(a), Some(b)) => a == b,
                    (None, None) => true,
                    _ => false,
                },
                _ => r is None,
            },
    {
        self.as_integer()
    }

    pub fn as_json(&self) -> (r: Option<&JsonValue>)
        ensures
            match *self {
                Value::Json(j) => r == Some(&j),
                _ => r is None,
            },
    {
        match self {
            Value::Json(j) => Some(j),
            _ => None,
        }
    }

    pub fn to_json(&self) -> (r: Option<JsonValue>)
        ensures
            match *self {
                Value::Json(j) => r matches Some(c) && json_same(j, c),
                _ => r is None,
            },
    {
        match self {
            Value::Json(j) => Some(clone_json(j)),
            _ => None,
        }
    }
}

/// Magnitude of a finite double with the fractional part dropped.
pub open spec fn f64_truncated_magnitude(bits: u64) -> int {
    let e = f64_exponent(bits) as int;
    let m = f64_fraction(bits) + pow2(52);
    if e < 1023 {
        0
    } else if e <= 1075 {
        m as int / pow2((1075 - e) as nat) as int
    } else {
        m * pow2((e - 1075) as nat)
    }
}

/// The double, truncated toward zero, as an `i64`, where it is finite and lies
/// within `[i64::MIN as f64, i64::MAX as f64]` (that is `[-2^63, 2^63]`); the
/// upper end saturates to `i64::MAX` as Rust's cast does.
pub open spec fn f64_to_i64_spec(bits: u64) -> Option<int> {
    let e = f64_exponent(bits);
    let f = f64_fraction(bits);
    if e == 0x7ff || e > 1086 || (e == 1086 && f > 0) {
        None
    } else if f64_negative(bits) {
        Some(-f64_truncated_magnitude(bits))
    } else if f64_truncated_magnitude(bits) > i64::MAX {
        Some(i64::MAX as int)
    } else {
        Some(f64_truncated_magnitude(bits))
    }
}

/// Converts a double, given by its bits, to an integer by truncation toward
/// zero, refusing values that are not finite or lie outside the `i64` range.
pub fn f64_bits_to_i64(bits: u64) -> (r: Option<i64>)
    ensures
        match (r, f64_to_i64_spec(bits)) {
            (Some(a), Some(b)) => a == b,
            (None, None) => true,
            _ => false,
        },
{
    let e: u64 = (bits >> 52u64) & 0x7ffu64;
    let f: u64 = bits & 0xf_ffff_ffff_ffffu64;
    let negative: bool = (bits >> 63u64) == 1u64;
    assert(e <= 0x7ff) by (bit_vector)
        requires e == (bits >> 52u64) & 0x7ffu64;
    assert(f < 0x10_0000_0000_0000) by (bit_vector)
        requires f == bits & 0xf_ffff_ffff_ffffu64;
    if e == 0x7ff || e > 1086 || (e == 1086 && f > 0) {
        return None;
    }
    if e < 1023 {
        return Some(0);
    }
    proof {
        lemma2_to64();
        lemma2_to64_rest();
    }
    let m: u64 = f + 0x10_0000_0000_0000u64;
    let magnitude: u64 = if e <= 1075 {
        let k: u64 = 1075 - e;
        proof {
            lemma_u64_shr_is_div(m, k);
        }
        m >> k
    } else {
        let k: u64 = e - 1075;
        proof {
            assert(k <= 11);
            if k < 11 {
                lemma_pow2_strictly_increases(k as nat, 11);
            }
            assert(m * pow2(k as nat) <= 0x1f_ffff_ffff_ffff * pow2(11)) by (nonlinear_arith)
                requires m <= 0x1f_ffff_ffff_ffff, pow2(k as nat) <= pow2(11);
            if e < 1086 {
                if k < 10 {
                    lemma_pow2_strictly_increases(k as nat, 10);
                }
                assert(m * pow2(k as nat) <= 0x1f_ffff_ffff_ffff * pow2(10)) by (nonlinear_arith)
                    requires m <= 0x1f_ffff_ffff_ffff, pow2(k as nat) <= pow2(10);
            }
            lemma_u64_shl_is_mul(m, k);
        }
        m << k
    };
    assert(magnitude as int == f64_truncated_magnitude(bits));
    assert(magnitude <= 0x8000_0000_0000_0000u64) by {
        if e <= 1075 {
            assert(magnitude <= m) by {
                vstd::arithmetic::div_mod::lemma_div_is_ordered_by_denominator(m as int, 1, pow2((1075 - e) as nat) as int);
                vstd::arithmetic::power2::lemma_pow2_pos((1075 - e) as nat);
            }
        }
    }
    if negative {
        if magnitude == 0x8000_0000_0000_0000u64 {
            Some(i64::MIN)
        } else {
            Some(-(magnitude as i64))
        }
    } else if magnitude > 0x7fff_ffff_ffff_ffffu64 {
        Some(i64::MAX)
    } else {
        Some(magnitude as i64)
    }
}

/// Two values are the same value: same type and same contents, strings and
/// bytes compared by their contents and documents by `json_same`.
pub open spec fn value_same(a: Value, b: Value) -> bool {
    match (a, b) {
        (Value::Null, Value::Null) => true,
        (Value::Type(x), Value::Type(y)) => x == y,
        (Value::Uuid(x), Value::Uuid(y)) => x == y,
        (Value::Bool(x), Value::Bool(y)) => x == y,
        (Value::Integer(x), Value::Integer(y)) => x == y,
        (Value::Float(x), Value::Float(y)) => x == y,
        (Value::Text(x), Value::Text(y)) => x@ == y@,
        (Value::Json(x), Value::Json(y)) => json_same(x, y),
        (Value::Blob(x), Value::Blob(y)) => x@ == y@,
        _ => false,
    }
}

/// A copy of a value.
pub fn clone_value(v: &Value) -> (r: Value)
    ensures
        value_same(*v, r),
        type_of(r) == type_of(*v),
{
    match v {
        Value::Null => Value::Null,
        Value::Type(t) => Value::Type(*t),
        Value::Uuid(u) => Value::Uuid(*u),
        Value::Bool(b) => Value::Bool(*b),
        Value::Integer(i) => Value::Integer(*i),
        Value::Float(f) => Value::Float(*f),
        Value::Text(s) => Value::Text(s.clone()),
        Value::Json(j) => Value::Json(clone_json(j)),
        Value::Blob(b) => Value::Blob(crate::change_key::copy_bytes(b.as_slice())),
    }
}

/// A row of values.
#[derive(Clone, Debug)]
pub struct Row {
    pub values: Vec<Value>,
}

impl Row {
    pub fn new(values: Vec<Value>) -> (r: Row)
        ensures
            r.values == values,
    {
        Row { values }
    }
}

} // verus!
