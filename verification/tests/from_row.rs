use aicacia_db::from_row::{decode, value, FromRowError};
use aicacia_db::value::{f64_bits_to_i64, Row, Value, ValueType};

#[test]
fn decodes_values_and_null_options() {
    assert_eq!(decode::<i64>(&Value::Integer(1), "id"), Ok(1));
    assert_eq!(decode::<Option<String>>(&Value::Null, "name"), Ok(None));
    assert_eq!(
        decode::<bool>(&Value::Integer(1), "active"),
        Err(FromRowError::InvalidValue {
            column: String::from("active"),
            expected: ValueType::Bool,
            actual: ValueType::Integer,
        })
    );
}

#[test]
fn reads_named_fields_of_a_row() {
    let row = Row::new(vec![Value::Null, Value::Uuid([7; 16])]);
    let columns = ["display_name", "id"];
    assert!(matches!(value(&row, &columns, "id"), Ok(Value::Uuid(b)) if *b == [7; 16]));
    assert!(matches!(value(&row, &columns, "display_name"), Ok(Value::Null)));
    assert_eq!(
        value(&row, &columns, "email").unwrap_err(),
        FromRowError::MissingColumn("email".to_string())
    );
    assert_eq!(
        value(&row, &["id", "id"], "id").unwrap_err(),
        FromRowError::DuplicateColumn("id".to_string())
    );
    assert_eq!(
        value(&row, &["a", "b", "id"], "id").unwrap_err(),
        FromRowError::MissingValue("id".to_string())
    );
}

#[test]
fn decodes_each_supported_type() {
    assert_eq!(decode::<String>(&Value::Text("Ada".to_string()), "name"), Ok("Ada".to_string()));
    assert_eq!(decode::<Vec<u8>>(&Value::Blob(vec![1, 2]), "data"), Ok(vec![1, 2]));
    assert_eq!(decode::<[u8; 16]>(&Value::Uuid([3; 16]), "id"), Ok([3; 16]));
    assert_eq!(decode::<bool>(&Value::Bool(true), "active"), Ok(true));
    assert_eq!(decode::<Option<bool>>(&Value::Bool(false), "active"), Ok(Some(false)));
    assert_eq!(
        decode::<Option<i64>>(&Value::Text("x".to_string()), "n"),
        Err(FromRowError::InvalidValue {
            column: "n".to_string(),
            expected: ValueType::Integer,
            actual: ValueType::Text,
        })
    );
}

#[test]
fn floats_read_as_integers_by_truncation() {
    assert_eq!(decode::<i64>(&Value::Float(2.9f64.to_bits()), "n"), Ok(2));
    assert_eq!(decode::<i64>(&Value::Float((-2.9f64).to_bits()), "n"), Ok(-2));
    assert_eq!(decode::<i64>(&Value::Float(0.5f64.to_bits()), "n"), Ok(0));
    assert!(decode::<i64>(&Value::Float(f64::NAN.to_bits()), "n").is_err());
    assert!(decode::<i64>(&Value::Float(f64::INFINITY.to_bits()), "n").is_err());
    assert!(decode::<i64>(&Value::Float(1e19f64.to_bits()), "n").is_err());
    for x in [0.0f64, -0.0, 1.0, -1.0, 123456.75, -9.0e15, 4.5e18, -9.2e18, 9.223372036854775807e18, -9.223372036854775808e18] {
        assert_eq!(f64_bits_to_i64(x.to_bits()), Some(x as i64), "value {}", x);
    }
}

#[test]
fn error_messages_name_the_column() {
    assert_eq!(FromRowError::MissingColumn("id".into()).message(), "missing column id");
    assert_eq!(FromRowError::DuplicateColumn("id".into()).message(), "duplicate column id");
    assert_eq!(FromRowError::MissingValue("id".into()).message(), "missing value for column id");
    assert_eq!(
        FromRowError::InvalidValue {
            column: "active".into(),
            expected: ValueType::Bool,
            actual: ValueType::Integer
        }
        .message(),
        "invalid value for column active: expected Bool, got Integer"
    );
}
