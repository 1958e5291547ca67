use aicacia_db::engine_types::EngineValue;
use aicacia_db::json_docs::{json_compare, json_equals};
use aicacia_db::value::{clone_json, clone_value, JsonNumber, JsonValue, Value, ValueType};
use std::cmp::Ordering;

fn f(x: f64) -> u64 {
    x.to_bits()
}

#[test]
fn stored_values_compare_floats_as_numbers() {
    assert!(EngineValue::Float(f(0.0)) == EngineValue::Float(f(-0.0)));
    assert!(EngineValue::Float(f(f64::NAN)) == EngineValue::Float(f((-f64::NAN).abs())));
    assert!(EngineValue::Float(f(1.0)) != EngineValue::Integer(1));
    assert_eq!(EngineValue::Float(f(1.0)).cmp(&EngineValue::Integer(1)), Ordering::Equal);
    assert_eq!(EngineValue::Integer(2).cmp(&EngineValue::Float(f(1.5))), Ordering::Greater);
    assert_eq!(EngineValue::Float(f(f64::NAN)).cmp(&EngineValue::Float(f(1e300))), Ordering::Greater);
    assert_eq!(EngineValue::Float(f(-1.0)).cmp(&EngineValue::Float(f(-0.5))), Ordering::Less);
    assert_eq!(EngineValue::Float(f(f64::NAN)).cmp(&EngineValue::Float(f(f64::NAN))), Ordering::Equal);
}

#[test]
fn stored_values_of_different_types_order_by_type() {
    let ordered = [
        EngineValue::Null,
        EngineValue::Integer(100),
        EngineValue::Text("a".into()),
        EngineValue::Uuid([0; 16]),
        EngineValue::Blob(vec![]),
        EngineValue::Json("{}".into()),
    ];
    for (i, a) in ordered.iter().enumerate() {
        for (j, b) in ordered.iter().enumerate() {
            assert_eq!(a.cmp(b), i.cmp(&j), "{:?} vs {:?}", a, b);
            assert_eq!(a.partial_cmp(b), Some(i.cmp(&j)));
        }
    }
    assert_eq!(EngineValue::Text("ab".into()).cmp(&EngineValue::Text("b".into())), Ordering::Less);
    assert_eq!(EngineValue::Text("é".into()).cmp(&EngineValue::Text("z".into())), Ordering::Greater);
    assert_eq!(EngineValue::Blob(vec![1, 2]).cmp(&EngineValue::Blob(vec![1])), Ordering::Greater);
    assert_eq!(EngineValue::Uuid([1; 16]).cmp_same_type(&EngineValue::Uuid([1; 16])), Ordering::Equal);
}

#[test]
fn a_large_integer_meets_a_float_through_rounding() {
    let big = (1i64 << 53) + 1;
    let float = EngineValue::Float(f((1u64 << 53) as f64));
    assert_eq!(EngineValue::Integer(big).cmp(&float), Ordering::Equal);
    assert_eq!(EngineValue::Integer(big).cmp(&EngineValue::Integer(1 << 53)), Ordering::Greater);
}

#[test]
fn stored_value_copies_are_equal() {
    for v in [
        EngineValue::Text("x".into()),
        EngineValue::Blob(vec![1]),
        EngineValue::Json("[1]".into()),
        EngineValue::Uuid([9; 16]),
        EngineValue::Null,
    ] {
        assert!(v.duplicate() == v);
        assert_eq!(v.discriminant_byte(), v.type_precedence());
    }
}

#[test]
fn json_numbers_compare_across_representations() {
    assert!(JsonNumber::I64(1) == JsonNumber::U64(1));
    assert!(JsonNumber::U64(1) == JsonNumber::I64(1));
    assert!(JsonNumber::I64(-1) != JsonNumber::U64(u64::MAX));
    assert!(JsonNumber::I64(2) == JsonNumber::F64(f(2.0)));
    assert!(JsonNumber::F64(f(f64::NAN)) != JsonNumber::F64(f(f64::NAN)));
    assert_eq!(JsonNumber::I64(-1).cmp(&JsonNumber::U64(0)), Ordering::Less);
    assert_eq!(JsonNumber::U64(5).cmp(&JsonNumber::I64(-5)), Ordering::Greater);
    assert_eq!(JsonNumber::U64(u64::MAX).cmp(&JsonNumber::I64(i64::MAX)), Ordering::Greater);
    assert_eq!(JsonNumber::F64(f(1.0)).cmp(&JsonNumber::F64(f(2.0))), Ordering::Less);
    assert_eq!(JsonNumber::F64(f(-1.0)).cmp(&JsonNumber::F64(f(2.0))), Ordering::Greater);
    assert_eq!(JsonNumber::I64(3).cmp(&JsonNumber::F64(f(3.0))), Ordering::Equal);
}

fn doc() -> JsonValue {
    JsonValue::Object(vec![
        ("a".to_string(), JsonValue::Array(vec![JsonValue::Null, JsonValue::Bool(true)])),
        ("b".to_string(), JsonValue::Number(JsonNumber::F64(f(f64::NAN)))),
    ])
}

#[test]
fn json_documents_compare_by_kind_then_contents() {
    let kinds = [
        JsonValue::Null,
        JsonValue::Bool(false),
        JsonValue::Number(JsonNumber::I64(0)),
        JsonValue::String(String::new()),
        JsonValue::Array(vec![]),
        JsonValue::Object(vec![]),
    ];
    for (i, a) in kinds.iter().enumerate() {
        for (j, b) in kinds.iter().enumerate() {
            assert_eq!(a.cmp(b), i.cmp(&j));
        }
    }
    let short = JsonValue::Array(vec![JsonValue::Bool(true)]);
    let long = JsonValue::Array(vec![JsonValue::Bool(true), JsonValue::Null]);
    assert_eq!(json_compare(&short, &long), -1);
    assert_eq!(json_compare(&long, &short), 1);
    assert_eq!(
        JsonValue::Object(vec![("a".into(), JsonValue::Null)])
            .cmp(&JsonValue::Object(vec![("b".into(), JsonValue::Null)])),
        Ordering::Less
    );
    assert!(json_equals(
        &JsonValue::Array(vec![JsonValue::Number(JsonNumber::U64(1))]),
        &JsonValue::Array(vec![JsonValue::Number(JsonNumber::I64(1))])
    ));
    assert!(doc() != doc());
    assert_eq!(doc().cmp(&doc()), Ordering::Equal);
}

#[test]
fn copies_keep_everything() {
    let d = doc();
    let c = clone_json(&d);
    assert_eq!(format!("{:?}", c), format!("{:?}", d));
    let v = Value::Json(d.clone());
    assert_eq!(format!("{:?}", clone_value(&v)), format!("{:?}", v));
    assert_eq!(format!("{:?}", v.to_json()), format!("{:?}", Some(d)));
}

#[test]
fn values_compare_floats_by_bits() {
    assert!(Value::Float(f(0.0)) != Value::Float(f(-0.0)));
    assert!(Value::Float(f(f64::NAN)) == Value::Float(f(f64::NAN)));
    assert!(Value::Text("a".into()) == Value::Text("a".into()));
    assert!(Value::Integer(1) != Value::Float(f(1.0)));
    assert_eq!(Value::Integer(1).cmp_without_documents(&Value::Float(f(1.0))), Some(Ordering::Equal));
    assert_eq!(Value::Float(f(-1.0)).cmp_without_documents(&Value::Float(f(1.0))), Some(Ordering::Greater));
    assert_eq!(Value::Null.cmp_without_documents(&Value::Bool(false)), Some(Ordering::Less));
    assert_eq!(
        Value::Type(ValueType::Blob).cmp_without_documents(&Value::Type(ValueType::Null)),
        Some(Ordering::Greater)
    );
    assert_eq!(Value::Bool(false).cmp_without_documents(&Value::Bool(true)), Some(Ordering::Less));
    assert_eq!(Value::Json(JsonValue::Null).cmp_without_documents(&Value::Json(JsonValue::Null)), None);
    assert_eq!(Value::Json(JsonValue::Null).cmp_without_documents(&Value::Blob(vec![])), Some(Ordering::Less));
}

#[test]
fn value_accessors_pick_their_variant() {
    assert_eq!(Value::Null.as_null(), Some(()));
    assert_eq!(Value::Integer(4).as_integer(), Some(4));
    assert_eq!(Value::Text("t".into()).as_text(), Some("t"));
    assert_eq!(Value::Text("t".into()).as_integer(), None);
    assert_eq!(Value::Blob(vec![1]).to_blob(), Some(vec![1]));
    assert_eq!(Value::Uuid([2; 16]).to_uuid(), Some([2; 16]));
    assert_eq!(Value::Type(ValueType::Json).to_type(), Some(ValueType::Json));
    assert_eq!(Value::Bool(true).value_type(), ValueType::Bool);
    assert_eq!(ValueType::Integer.compare(&ValueType::Float), -1);
    assert_eq!(ValueType::Blob.rank(), 8);
}
