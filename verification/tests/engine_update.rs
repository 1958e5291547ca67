use aicacia_db::engine_ddl::{EngineColumnSchema, EngineTableSchema};
use aicacia_db::engine_dml::UpdateValueExpr;
use aicacia_db::engine_joins::QualifiedColumn;
use aicacia_db::engine_predicates::{ArithmeticOperator, PredicateExpr, Scope};
use aicacia_db::engine_types::{EngineType, EngineValue};
use aicacia_db::engine_update::{
    assignment_target_column_name, convert_value_to_column_type, translate_update_assignments,
    EngineAssignment, EngineAssignmentTarget,
};
use aicacia_db::placeholders::TranslateError;

fn schema() -> EngineTableSchema {
    EngineTableSchema {
        name: "users".to_string(),
        columns: vec![
            EngineColumnSchema { name: "id".to_string(), data_type: EngineType::Uuid },
            EngineColumnSchema { name: "age".to_string(), data_type: EngineType::Integer },
            EngineColumnSchema { name: "doc".to_string(), data_type: EngineType::Json },
        ],
        primary_key: vec![0],
    }
}

fn column(e: &PredicateExpr, _scope: &Scope) -> Result<QualifiedColumn, TranslateError> {
    match e {
        PredicateExpr::Identifier(n) => schema()
            .columns
            .iter()
            .position(|c| &c.name == n)
            .map(|i| QualifiedColumn { table: "users".to_string(), column_index: i })
            .ok_or_else(|| TranslateError::UnknownColumn(n.clone())),
        _ => Err(TranslateError::UnsupportedFeature("not a column".to_string())),
    }
}

fn value(e: &PredicateExpr) -> Result<EngineValue, TranslateError> {
    match e {
        PredicateExpr::Value(text) => match text.parse::<i64>() {
            Ok(n) => Ok(EngineValue::Integer(n)),
            Err(_) => Ok(EngineValue::Text(text.clone())),
        },
        _ => Err(TranslateError::UnsupportedFeature("not a literal".to_string())),
    }
}

fn scope() -> Scope {
    Scope { aliases: vec![("u".to_string(), "users".to_string())], known: vec![0] }
}

fn set(parts: &[&str], v: PredicateExpr) -> EngineAssignment {
    EngineAssignment {
        target: EngineAssignmentTarget::ColumnName(parts.iter().map(|p| Some(p.to_string())).collect()),
        value: v,
    }
}

fn lit(t: &str) -> PredicateExpr {
    PredicateExpr::Value(t.to_string())
}

fn feature_message(e: TranslateError) -> String {
    match e {
        TranslateError::UnsupportedFeature(m) => m,
        other => panic!("unexpected error: {:?}", other),
    }
}

#[test]
fn assignments_name_columns_and_convert_literals() {
    let items = vec![
        set(&["u", "id"], lit("6f9619ff-8b86-d011-b42d-00c04fc964ff")),
        set(&["age"], PredicateExpr::Arithmetic {
            left: Box::new(PredicateExpr::Identifier("age".to_string())),
            op: ArithmeticOperator::Plus,
            right: Box::new(lit("1")),
        }),
        set(&["doc"], lit("{\"a\": 1}")),
    ];
    let out = translate_update_assignments(&items, &scope(), &schema(), &column, &value).unwrap();
    assert_eq!(out.len(), 3);
    assert_eq!(out[0].column_index, 0);
    match &out[0].value {
        UpdateValueExpr::Value(EngineValue::Uuid(b)) => assert_eq!(b[0], 0x6f),
        other => panic!("unexpected: {:?}", other),
    }
    assert!(matches!(out[1].value, UpdateValueExpr::Add(_, _)));
    assert!(matches!(&out[2].value, UpdateValueExpr::Value(EngineValue::Json(j)) if j == "{\"a\": 1}"));
}

#[test]
fn assignment_errors() {
    let err = translate_update_assignments(&vec![set(&["height"], lit("1"))], &scope(), &schema(), &column, &value).unwrap_err();
    assert!(matches!(err, TranslateError::UnknownColumn(c) if c == "height"));
    let err = translate_update_assignments(&vec![set(&["id"], lit("not-a-uuid"))], &scope(), &schema(), &column, &value).unwrap_err();
    assert!(feature_message(err).starts_with("invalid UUID literal: "));
    let err = translate_update_assignments(&vec![set(&["doc"], lit("{oops"))], &scope(), &schema(), &column, &value).unwrap_err();
    assert_eq!(feature_message(err), "invalid JSON literal: {oops");
    let aliases = vec![("o".to_string(), "orders".to_string())];
    let err = assignment_target_column_name(&EngineAssignmentTarget::ColumnName(vec![Some("o".to_string()), Some("id".to_string())]), &aliases, "users").unwrap_err();
    assert_eq!(feature_message(err), "assignment target must reference the update table");
    let err = assignment_target_column_name(&EngineAssignmentTarget::ColumnName(vec![Some("a".to_string()), Some("b".to_string()), Some("c".to_string())]), &aliases, "users").unwrap_err();
    assert_eq!(feature_message(err), "assignment target must be column or table.column");
    let err = assignment_target_column_name(&EngineAssignmentTarget::ColumnName(vec![None]), &aliases, "users").unwrap_err();
    assert_eq!(feature_message(err), "unsupported object name part");
    let err = assignment_target_column_name(&EngineAssignmentTarget::Tuple, &aliases, "users").unwrap_err();
    assert_eq!(feature_message(err), "tuple assignment in UPDATE is not supported");
    assert_eq!(assignment_target_column_name(&EngineAssignmentTarget::ColumnName(vec![Some("users".to_string()), Some("age".to_string())]), &aliases, "users").unwrap(), "age");
}

#[test]
fn literals_keep_their_type_elsewhere() {
    assert!(matches!(convert_value_to_column_type(EngineValue::Null, &EngineType::Uuid).unwrap(), EngineValue::Null));
    assert!(matches!(convert_value_to_column_type(EngineValue::Integer(4), &EngineType::Json).unwrap(), EngineValue::Integer(4)));
    assert!(matches!(convert_value_to_column_type(EngineValue::Text("x".to_string()), &EngineType::Text).unwrap(), EngineValue::Text(t) if t == "x"));
}
