//! Equality and order of JSON documents. Documents compare by kind first
//! (null, boolean, number, string, array, object), then by contents: numbers
//! as JSON numbers do, strings in code-point order, lists and objects element
//! by element with a proper prefix first, object members by key, then value.
use vstd::prelude::*;

use crate::engine_order::sign_of;
use crate::json_order::{json_number_eq, json_number_order, number_sign};
use crate::text::{chars_lt, compare_str, str_eq};
use crate::value::JsonValue;

verus! {

/// Equality of JSON documents.
pub open spec fn json_eq(a: JsonValue, b: JsonValue) -> bool
    decreases a,
{
    match (a, b) {
        (JsonValue::Null, JsonValue::Null) => true,
        (JsonValue::Bool(x), JsonValue::Bool(y)) => x == y,
        (JsonValue::Number(x), JsonValue::Number(y)) => json_number_eq(x, y),
        (JsonValue::String(x), JsonValue::String(y)) => x@ == y@,
        (JsonValue::Array(x), JsonValue::Array(y)) => items_eq(x@, y@),
        (JsonValue::Object(x), JsonValue::Object(y)) => members_eq(x@, y@),
        _ => false,
    }
}

/// Equality of lists of documents, element by element.
pub open spec fn items_eq(xs: Seq<JsonValue>, ys: Seq<JsonValue>) -> bool
    decreases xs,
{
    if xs.len() == 0 {
        ys.len() == 0
    } else {
        ys.len() > 0 && json_eq(xs[0], ys[0]) && items_eq(xs.drop_first(), ys.drop_first())
    }
}

/// Equality of lists of object members, member by member.
pub open spec fn members_eq(xs: Seq<(String, JsonValue)>, ys: Seq<(String, JsonValue)>) -> bool
    decreases xs,
{
    if xs.len() == 0 {
        ys.len() == 0
    } else {
        ys.len() > 0 && xs[0].0@ == ys[0].0@ && json_eq(xs[0].1, ys[0].1)
            && members_eq(xs.drop_first(), ys.drop_first())
    }
}

/// Rank of a document's kind in the order of documents.
pub open spec fn json_kind(a: JsonValue) -> int {
    match a {
        JsonValue::Null => 0,
        JsonValue::Bool(_) => 1,
        JsonValue::Number(_) => 2,
        JsonValue::String(_) => 3,
        JsonValue::Array(_) => 4,
        JsonValue::Object(_) => 5,
    }
}

/// Order of JSON documents: -1, 0 or 1.
pub open spec fn json_order(a: JsonValue, b: JsonValue) -> int
    decreases a,
{
    match (a, b) {
        (JsonValue::Null, JsonValue::Null) => 0,
        (JsonValue::Bool(x), JsonValue::Bool(y)) => sign_of(!x && y, x == y),
        (JsonValue::Number(x), JsonValue::Number(y)) => json_number_order(x, y),
        (JsonValue::String(x), JsonValue::String(y)) => sign_of(chars_lt(x@, y@), x@ == y@),
        (JsonValue::Array(x), JsonValue::Array(y)) => items_order(x@, y@),
        (JsonValue::Object(x), JsonValue::Object(y)) => members_order(x@, y@),
        _ => sign_of(json_kind(a) < json_kind(b), json_kind(a) == json_kind(b)),
    }
}

/// Lexicographic order of lists of documents (a proper prefix first).
pub open spec fn items_order(xs: Seq<JsonValue>, ys: Seq<JsonValue>) -> int
    decreases xs,
{
    if xs.len() == 0 {
        if ys.len() == 0 { 0 } else { -1 }
    } else if ys.len() == 0 {
        1
    } else if json_order(xs[0], ys[0]) != 0 {
        json_order(xs[0], ys[0])
    } else {
        items_order(xs.drop_first(), ys.drop_first())
    }
}

/// Lexicographic order of lists of object members, each by key, then value.
pub open spec fn members_order(xs: Seq<(String, JsonValue)>, ys: Seq<(String, JsonValue)>) -> int
    decreases xs,
{
    if xs.len() == 0 {
        if ys.len() == 0 { 0 } else { -1 }
    } else if ys.len() == 0 {
        1
    } else if xs[0].0@ != ys[0].0@ {
        sign_of(chars_lt(xs[0].0@, ys[0].0@), false)
    } else if json_order(xs[0].1, ys[0].1) != 0 {
        json_order(xs[0].1, ys[0].1)
    } else {
        members_order(xs.drop_first(), ys.drop_first())
    }
}

proof fn lemma_skip_step<A>(s: Seq<A>, i: int)
    requires
        0 <= i < s.len(),
    ensures
        s.skip(i).len() > 0,
        s.skip(i)[0] == s[i],
        s.skip(i).drop_first() == s.skip(i + 1),
{
    assert(s.skip(i).drop_first() =~= s.skip(i + 1));
}

fn json_kind_exec(a: &JsonValue) -> (r: u8)
    ensures
        r == json_kind(*a),
{
    match a {
        JsonValue::Null => 0,
        JsonValue::Bool(_) => 1,
        JsonValue::Number(_) => 2,
        JsonValue::String(_) => 3,
        JsonValue::Array(_) => 4,
        JsonValue::Object(_) => 5,
    }
}

/// Equality of JSON documents.
pub fn json_equals(a: &JsonValue, b: &JsonValue) -> (r: bool)
    ensures
        r == json_eq(*a, *b),
    decreases a,
{
    match (a, b) {
        (JsonValue::Null, JsonValue::Null) => true,
        (JsonValue::Bool(x), JsonValue::Bool(y)) => *x == *y,
        (JsonValue::Number(x), JsonValue::Number(y)) => x.equals(y),
        (JsonValue::String(x), JsonValue::String(y)) => str_eq(x.as_str(), y.as_str()),
        (JsonValue::Array(x), JsonValue::Array(y)) => {
            let mut i: usize = 0;
            assert(x@.skip(0) =~= x@ && y@.skip(0) =~= y@);
            while i < x.len() && i < y.len()
                invariant
                    i <= x@.len(),
                    i <= y@.len(),
                    *a == JsonValue::Array(*x),
                    *b == JsonValue::Array(*y),
                    items_eq(x@, y@) == items_eq(x@.skip(i as int), y@.skip(i as int)),
                decreases x.len() - i,
            {
                proof {
                    vstd::std_specs::vec::axiom_vec_index_decreases(*x, i as int);
                    assert(decreases_to!(*a => (*a)->Array_0));
                    assert(decreases_to!(*x => x[i as int]));
                    lemma_skip_step(x@, i as int);
                    lemma_skip_step(y@, i as int);
                }
                if !json_equals(&x[i], &y[i]) {
                    return false;
                }
                i = i + 1;
            }
            x.len() == y.len()
        },
        (JsonValue::Object(x), JsonValue::Object(y)) => {
            let mut i: usize = 0;
            assert(x@.skip(0) =~= x@ && y@.skip(0) =~= y@);
            while i < x.len() && i < y.len()
                invariant
                    i <= x@.len(),
                    i <= y@.len(),
                    *a == JsonValue::Object(*x),
                    *b == JsonValue::Object(*y),
                    members_eq(x@, y@) == members_eq(x@.skip(i as int), y@.skip(i as int)),
                decreases x.len() - i,
            {
                proof {
                    vstd::std_specs::vec::axiom_vec_index_decreases(*x, i as int);
                    assert(decreases_to!(*a => (*a)->Object_0));
                    assert(decreases_to!(*x => x[i as int]));
                    assert(decreases_to!(x[i as int] => x[i as int].1));
                    lemma_skip_step(x@, i as int);
                    lemma_skip_step(y@, i as int);
                }
                if !str_eq(x[i].0.as_str(), y[i].0.as_str()) {
                    return false;
                }
                if !json_equals(&x[i].1, &y[i].1) {
                    return false;
                }
                i = i + 1;
            }
            x.len() == y.len()
        },
        _ => false,
    }
}

/// Order of JSON documents: -1, 0 or 1.
pub fn json_compare(a: &JsonValue, b: &JsonValue) -> (r: i8)
    ensures
        r == json_order(*a, *b),
    decreases a,
{
    match (a, b) {
        (JsonValue::Null, JsonValue::Null) => 0,
        (JsonValue::Bool(x), JsonValue::Bool(y)) => {
            if !*x && *y { -1 } else if *x == *y { 0 } else { 1 }
        },
        (JsonValue::Number(x), JsonValue::Number(y)) => number_sign(x, y),
        (JsonValue::String(x), JsonValue::String(y)) => compare_str(x.as_str(), y.as_str()),
        (JsonValue::Array(x), JsonValue::Array(y)) => {
            let mut i: usize = 0;
            assert(x@.skip(0) =~= x@ && y@.skip(0) =~= y@);
            while i < x.len() && i < y.len()
                invariant
                    i <= x@.len(),
                    i <= y@.len(),
                    *a == JsonValue::Array(*x),
                    *b == JsonValue::Array(*y),
                    items_order(x@, y@) == items_order(x@.skip(i as int), y@.skip(i as int)),
                decreases x.len() - i,
            {
                proof {
                    vstd::std_specs::vec::axiom_vec_index_decreases(*x, i as int);
                    assert(decreases_to!(*a => (*a)->Array_0));
                    assert(decreases_to!(*x => x[i as int]));
                    lemma_skip_step(x@, i as int);
                    lemma_skip_step(y@, i as int);
                }
                let c = json_compare(&x[i], &y[i]);
                if c != 0 {
                    return c;
                }
                i = i + 1;
            }
            if x.len() == y.len() { 0 } else if i == x.len() { -1 } else { 1 }
        },
        (JsonValue::Object(x), JsonValue::Object(y)) => {
            let mut i: usize = 0;
            assert(x@.skip(0) =~= x@ && y@.skip(0) =~= y@);
            while i < x.len() && i < y.len()
                invariant
                    i <= x@.len(),
                    i <= y@.len(),
                    *a == JsonValue::Object(*x),
                    *b == JsonValue::Object(*y),
                    members_order(x@, y@) == members_order(x@.skip(i as int), y@.skip(i as int)),
                decreases x.len() - i,
            {
                proof {
                    vstd::std_specs::vec::axiom_vec_index_decreases(*x, i as int);
                    assert(decreases_to!(*a => (*a)->Object_0));
                    assert(decreases_to!(*x => x[i as int]));
                    assert(decreases_to!(x[i as int] => x[i as int].1));
                    lemma_skip_step(x@, i as int);
                    lemma_skip_step(y@, i as int);
                }
                let k = compare_str(x[i].0.as_str(), y[i].0.as_str());
                if k != 0 {
                    return k;
                }
                let c = json_compare(&x[i].1, &y[i].1);
                if c != 0 {
                    return c;
                }
                i = i + 1;
            }
            if x.len() == y.len() { 0 } else if i == x.len() { -1 } else { 1 }
        },
        _ => {
            let p = json_kind_exec(a);
            let q = json_kind_exec(b);
            if p < q { -1 } else if p == q { 0 } else { 1 }
        },
    }
}



/// Equality of JSON documents is symmetric.
pub proof fn law_json_equality_is_symmetric(a: JsonValue, b: JsonValue)
    ensures
        json_eq(a, b) == json_eq(b, a),
    decreases a,
{
    match (a, b) {
        (JsonValue::Array(x), JsonValue::Array(y)) => {
            assert(decreases_to!(a => x));
            lemma_items_eq_symmetric(x@, y@);
        },
        (JsonValue::Object(x), JsonValue::Object(y)) => {
            assert(decreases_to!(a => x));
            lemma_members_eq_symmetric(x@, y@);
        },
        _ => {},
    }
}

proof fn lemma_items_eq_symmetric(xs: Seq<JsonValue>, ys: Seq<JsonValue>)
    ensures
        items_eq(xs, ys) == items_eq(ys, xs),
    decreases xs,
{
    if xs.len() > 0 && ys.len() > 0 {
        law_json_equality_is_symmetric(xs[0], ys[0]);
        lemma_items_eq_symmetric(xs.drop_first(), ys.drop_first());
    }
}

proof fn lemma_members_eq_symmetric(xs: Seq<(String, JsonValue)>, ys: Seq<(String, JsonValue)>)
    ensures
        members_eq(xs, ys) == members_eq(ys, xs),
    decreases xs,
{
    if xs.len() > 0 && ys.len() > 0 {
        assert(decreases_to!(xs => xs[0]));
        law_json_equality_is_symmetric(xs[0].1, ys[0].1);
        lemma_members_eq_symmetric(xs.drop_first(), ys.drop_first());
    }
}

/// The order of JSON documents is antisymmetric: every document sits level
/// with itself, and swapping the two sides flips the result.
pub proof fn law_json_order_is_antisymmetric(a: JsonValue, b: JsonValue)
    ensures
        json_order(a, a) == 0,
        json_order(a, b) == -json_order(b, a),
    decreases a,
{
    match (a, b) {
        (JsonValue::Number(x), JsonValue::Number(y)) => {
            crate::json_order::law_json_number_order_is_antisymmetric(x, y);
        },
        (JsonValue::String(x), JsonValue::String(y)) => {
            crate::text::law_chars_order_is_strict_total(x@, y@, x@);
        },
        (JsonValue::Array(x), JsonValue::Array(y)) => {
            assert(decreases_to!(a => x));
            lemma_items_order_antisymmetric(x@, y@);
            lemma_items_order_antisymmetric(x@, x@);
        },
        (JsonValue::Object(x), JsonValue::Object(y)) => {
            assert(decreases_to!(a => x));
            lemma_members_order_antisymmetric(x@, y@);
            lemma_members_order_antisymmetric(x@, x@);
        },
        (JsonValue::Number(x), _) => {
            crate::json_order::law_json_number_order_is_antisymmetric(x, x);
        },
        (JsonValue::String(x), _) => {
            crate::text::law_chars_order_is_strict_total(x@, x@, x@);
        },
        (JsonValue::Array(x), _) => {
            assert(decreases_to!(a => x));
            lemma_items_order_antisymmetric(x@, x@);
        },
        (JsonValue::Object(x), _) => {
            assert(decreases_to!(a => x));
            lemma_members_order_antisymmetric(x@, x@);
        },
        _ => {},
    }
}

proof fn lemma_items_order_antisymmetric(xs: Seq<JsonValue>, ys: Seq<JsonValue>)
    ensures
        items_order(xs, ys) == -items_order(ys, xs),
        xs == ys ==> items_order(xs, ys) == 0,
    decreases xs,
{
    if xs.len() > 0 && ys.len() > 0 {
        law_json_order_is_antisymmetric(xs[0], ys[0]);
        lemma_items_order_antisymmetric(xs.drop_first(), ys.drop_first());
    }
}

proof fn lemma_members_order_antisymmetric(xs: Seq<(String, JsonValue)>, ys: Seq<(String, JsonValue)>)
    ensures
        members_order(xs, ys) == -members_order(ys, xs),
        xs == ys ==> members_order(xs, ys) == 0,
    decreases xs,
{
    if xs.len() > 0 && ys.len() > 0 {
        assert(decreases_to!(xs => xs[0]));
        crate::text::law_chars_order_is_strict_total(xs[0].0@, ys[0].0@, xs[0].0@);
        law_json_order_is_antisymmetric(xs[0].1, ys[0].1);
        lemma_members_order_antisymmetric(xs.drop_first(), ys.drop_first());
    }
}

} // verus!
