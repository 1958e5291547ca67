use aicacia_db::engine_types::EngineValue;
use aicacia_db::placeholders::{
    parse_placeholder, ParamsValueMapper, PlaceholderStyle, PlaceholderToken, SqlParams,
    TranslateError,
};
use aicacia_db::sql_ast::{SqlExpr, SqlValue};

fn placeholder(raw: &str) -> SqlExpr {
    SqlExpr::Value(SqlValue::Placeholder { raw: raw.to_string(), debug: format!("Placeholder({:?})", raw) })
}

#[test]
fn reads_positional_and_named_placeholders() {
    assert!(matches!(parse_placeholder("$1"), Ok(PlaceholderToken::Positional(1))));
    assert!(matches!(parse_placeholder("$12"), Ok(PlaceholderToken::Positional(12))));
    assert!(matches!(parse_placeholder("3"), Ok(PlaceholderToken::Positional(3))));
    assert!(matches!(parse_placeholder(":name"), Ok(PlaceholderToken::Named(n)) if n == "name"));
    assert!(matches!(parse_placeholder("@who"), Ok(PlaceholderToken::Named(n)) if n == "@who"));
}

#[test]
fn refuses_invalid_placeholders() {
    for raw in ["$0", "$", "$x", ":", "?", "0", ""] {
        match parse_placeholder(raw) {
            Err(TranslateError::InvalidParameterPlaceholder(p)) => assert_eq!(p, raw),
            other => panic!("{:?} gave {:?}", raw, other),
        }
    }
}

#[test]
fn positional_parameters_count_from_one() {
    let params = SqlParams::from_positional(vec![EngineValue::Integer(10), EngineValue::Text("b".into())]);
    assert!(matches!(params.get_positional(1), Some(EngineValue::Integer(10))));
    assert!(matches!(params.get_positional(2), Some(EngineValue::Text(t)) if t == "b"));
    assert!(params.get_positional(0).is_none());
    assert!(params.get_positional(3).is_none());
}

#[test]
fn the_latest_named_binding_wins() {
    let params = SqlParams::named(vec![
        ("a".to_string(), EngineValue::Integer(1)),
        ("b".to_string(), EngineValue::Integer(2)),
        ("a".to_string(), EngineValue::Integer(3)),
    ]);
    assert!(matches!(params.get_named("a"), Some(EngineValue::Integer(3))));
    assert!(matches!(params.get_named("b"), Some(EngineValue::Integer(2))));
    assert!(params.get_named("c").is_none());
    assert!(SqlParams::new().get_named("a").is_none());
}

#[test]
fn placeholders_resolve_against_parameters() {
    let params = SqlParams::from_positional(vec![EngineValue::Integer(7)]);
    let mut mapper = ParamsValueMapper::new(&params);
    assert!(matches!(mapper.resolve_placeholder("$1"), Ok(EngineValue::Integer(7))));
    assert_eq!(mapper.style, Some(PlaceholderStyle::Positional));
    assert!(matches!(
        mapper.resolve_placeholder("$2"),
        Err(TranslateError::MissingPositionalParameter(2))
    ));
    assert!(matches!(mapper.resolve_placeholder(":a"), Err(TranslateError::MixedParameterStyles)));
    assert_eq!(mapper.style, Some(PlaceholderStyle::Positional));

    let named = SqlParams::named(vec![("who".to_string(), EngineValue::Text("Ada".into()))]);
    let mut mapper = ParamsValueMapper::new(&named);
    assert!(matches!(mapper.resolve_placeholder(":who"), Ok(EngineValue::Text(t)) if t == "Ada"));
    assert!(matches!(
        mapper.resolve_placeholder(":nobody"),
        Err(TranslateError::MissingNamedParameter(n)) if n == "nobody"
    ));
    assert!(matches!(mapper.resolve_placeholder("$1"), Err(TranslateError::MixedParameterStyles)));
}

#[test]
fn one_statement_keeps_one_style() {
    let params = SqlParams::new();
    let mut mapper = ParamsValueMapper::new(&params);
    assert!(mapper.enforce_style(PlaceholderStyle::Named).is_ok());
    assert!(mapper.enforce_style(PlaceholderStyle::Named).is_ok());
    assert!(matches!(
        mapper.enforce_style(PlaceholderStyle::Positional),
        Err(TranslateError::MixedParameterStyles)
    ));
    assert_eq!(mapper.style, Some(PlaceholderStyle::Named));
}

#[test]
fn placeholders_are_found_through_casts() {
    let plain = placeholder("$1");
    assert_eq!(ParamsValueMapper::extract_placeholder(&plain).map(|s| s.as_str()), Some("$1"));
    let cast = SqlExpr::Cast(Box::new(SqlExpr::CastUuid(Box::new(placeholder(":id")))));
    assert_eq!(ParamsValueMapper::extract_placeholder(&cast).map(|s| s.as_str()), Some(":id"));
    let literal = SqlExpr::Value(SqlValue::Boolean(true));
    assert!(ParamsValueMapper::extract_placeholder(&literal).is_none());
}

#[test]
fn error_messages() {
    assert_eq!(TranslateError::MissingPositionalParameter(2).message(), "missing positional parameter: $2");
    assert_eq!(TranslateError::MissingNamedParameter("a".into()).message(), "missing named parameter: :a");
    assert_eq!(
        TranslateError::MixedParameterStyles.message(),
        "cannot mix positional and named parameters in one SQL statement"
    );
    assert_eq!(
        TranslateError::InvalidParameterPlaceholder("?".into()).message(),
        "invalid parameter placeholder: ?"
    );
    assert_eq!(TranslateError::UnknownTable("t".into()).message(), "unknown table: t");
}
