use aicacia_db::engine_joins::QualifiedColumn;
use aicacia_db::engine_predicates::{
    expr_to_qualified_predicate, resolve_operand, translate_binary_expr, FunctionArgs,
    PredicateExpr, QualifiedOperand, QualifiedPredicate, Scope,
};
use aicacia_db::engine_types::EngineValue;
use aicacia_db::placeholders::TranslateError;
use aicacia_db::sql_ast::SqlBinaryOperator;

/// Columns of a `users (name, age)` table.
fn column(e: &PredicateExpr, _scope: &Scope) -> Result<QualifiedColumn, TranslateError> {
    let name = match e {
        PredicateExpr::Identifier(n) => n.clone(),
        PredicateExpr::CompoundIdentifier(parts) => parts.last().unwrap().clone(),
        _ => return Err(TranslateError::UnsupportedFeature("not a column".to_string())),
    };
    match name.as_str() {
        "name" => Ok(QualifiedColumn { table: "users".to_string(), column_index: 0 }),
        "age" => Ok(QualifiedColumn { table: "users".to_string(), column_index: 1 }),
        _ => Err(TranslateError::UnknownColumn(name)),
    }
}

/// Integer literals.
fn value(e: &PredicateExpr) -> Result<EngineValue, TranslateError> {
    match e {
        PredicateExpr::Value(text) => text
            .parse::<i64>()
            .map(EngineValue::Integer)
            .map_err(|_| TranslateError::UnsupportedFeature(format!("literal {text}"))),
        PredicateExpr::Cast(inner) => value(inner),
        _ => Err(TranslateError::UnsupportedFeature("not a literal".to_string())),
    }
}

fn subquery(sql: &String) -> Result<String, TranslateError> {
    if sql.starts_with("SELECT") {
        Ok(sql.clone())
    } else {
        Err(TranslateError::SqlParse(sql.clone()))
    }
}

fn scope() -> Scope {
    Scope { aliases: Vec::new(), known: Vec::new() }
}

fn ident(n: &str) -> Box<PredicateExpr> {
    Box::new(PredicateExpr::Identifier(n.to_string()))
}

fn lit(n: &str) -> Box<PredicateExpr> {
    Box::new(PredicateExpr::Value(n.to_string()))
}

fn translate(e: &PredicateExpr) -> Result<QualifiedPredicate<String>, TranslateError> {
    expr_to_qualified_predicate(e, &column, &scope(), &value, &subquery)
}

fn feature_message(e: TranslateError) -> String {
    match e {
        TranslateError::UnsupportedFeature(m) => m,
        other => panic!("unexpected error: {:?}", other),
    }
}

#[test]
fn predicate_from_null_check_handles_is_null() {
    let pred = translate(&PredicateExpr::IsNull(ident("name"))).expect("should convert");
    assert!(matches!(pred, QualifiedPredicate::IsNull(_)));
}

#[test]
fn predicate_from_null_check_handles_is_not_null() {
    let pred = translate(&PredicateExpr::IsNotNull(ident("name"))).expect("should convert");
    assert!(matches!(pred, QualifiedPredicate::IsNotNull(_)));
}

#[test]
fn comparisons_and_connectives() {
    let age_gt = PredicateExpr::BinaryOp { left: ident("age"), op: SqlBinaryOperator::Gt, right: lit("30") };
    let not_name = PredicateExpr::UnaryOp { not: true, expr: Box::new(PredicateExpr::IsNull(ident("name"))) };
    let both = PredicateExpr::BinaryOp { left: Box::new(age_gt), op: SqlBinaryOperator::And, right: Box::new(not_name) };
    match translate(&both).unwrap() {
        QualifiedPredicate::And(a, b) => {
            match *a {
                QualifiedPredicate::GreaterThan(QualifiedOperand::Column(c), QualifiedOperand::Value(EngineValue::Integer(30))) => {
                    assert_eq!(c.column_index, 1);
                }
                other => panic!("unexpected: {:?}", other),
            }
            assert!(matches!(*b, QualifiedPredicate::Not(_)));
        }
        other => panic!("unexpected: {:?}", other),
    }
    let or = translate_binary_expr(&PredicateExpr::IsNull(ident("age")), &SqlBinaryOperator::Or, &PredicateExpr::IsNull(ident("name")), &column, &scope(), &value, &subquery).unwrap();
    assert!(matches!(or, QualifiedPredicate::Or(_, _)));
    let err = translate_binary_expr(&PredicateExpr::IsNull(ident("age")), &SqlBinaryOperator::Other("Plus".to_string()), &PredicateExpr::IsNull(ident("name")), &column, &scope(), &value, &subquery).unwrap_err();
    assert_eq!(feature_message(err), "unsupported binary operator in WHERE");
    let err = translate(&PredicateExpr::UnaryOp { not: false, expr: ident("age") }).unwrap_err();
    assert_eq!(feature_message(err), "unsupported unary operator in WHERE");
    let err = translate(&PredicateExpr::Identifier("age".to_string())).unwrap_err();
    assert_eq!(feature_message(err), "unsupported WHERE expression");
}

#[test]
fn first_failing_operand_is_reported() {
    let e = PredicateExpr::BinaryOp { left: ident("height"), op: SqlBinaryOperator::Eq, right: ident("weight") };
    assert!(matches!(translate(&e), Err(TranslateError::UnknownColumn(c)) if c == "height"));
    let e = PredicateExpr::BinaryOp { left: ident("age"), op: SqlBinaryOperator::Eq, right: ident("weight") };
    assert!(matches!(translate(&e), Err(TranslateError::UnknownColumn(c)) if c == "weight"));
}

#[test]
fn lower_operands_and_ilike() {
    let lower = PredicateExpr::Function { name: "LOWER".to_string(), args: FunctionArgs::Single(ident("name")) };
    assert!(matches!(resolve_operand(&lower, &column, &scope(), &value).unwrap(), QualifiedOperand::Lower(_)));
    let upper = PredicateExpr::Function { name: "Upper".to_string(), args: FunctionArgs::Single(ident("name")) };
    let err = resolve_operand(&upper, &column, &scope(), &value).unwrap_err();
    assert_eq!(feature_message(err), "unsupported function in operand: upper");
    let two = PredicateExpr::Function { name: "lower".to_string(), args: FunctionArgs::Other };
    assert_eq!(feature_message(resolve_operand(&two, &column, &scope(), &value).unwrap_err()), "function must have exactly one argument");
    let named = PredicateExpr::Function { name: "lower".to_string(), args: FunctionArgs::SingleNotSimple };
    assert_eq!(
        feature_message(resolve_operand(&named, &column, &scope(), &value).unwrap_err()),
        "function argument must be a simple expression"
    );
    let cast_column = PredicateExpr::Cast(ident("age"));
    assert!(matches!(resolve_operand(&cast_column, &column, &scope(), &value).unwrap(), QualifiedOperand::Column(_)));
    let cast_literal = PredicateExpr::Cast(lit("7"));
    assert!(matches!(
        resolve_operand(&cast_literal, &column, &scope(), &value).unwrap(),
        QualifiedOperand::Value(EngineValue::Integer(7))
    ));
    assert_eq!(
        feature_message(resolve_operand(&PredicateExpr::Other, &column, &scope(), &value).unwrap_err()),
        "unsupported operand in comparison"
    );
    let ilike = PredicateExpr::ILike { expr: ident("name"), pattern: lit("1"), negated: true };
    match translate(&ilike).unwrap() {
        QualifiedPredicate::Like { expr: QualifiedOperand::Lower(_), pattern: QualifiedOperand::Lower(_), negated } => {
            assert!(negated)
        }
        other => panic!("unexpected: {:?}", other),
    }
    let like = PredicateExpr::Like { expr: ident("name"), pattern: lit("1"), negated: false };
    assert!(matches!(translate(&like).unwrap(), QualifiedPredicate::Like { expr: QualifiedOperand::Column(_), .. }));
}

#[test]
fn in_lists_and_subqueries() {
    let list = PredicateExpr::InList { expr: ident("age"), list: vec![*lit("1"), PredicateExpr::Cast(lit("2"))], negated: false };
    match translate(&list).unwrap() {
        QualifiedPredicate::InList { list, negated, .. } => {
            assert_eq!(list.len(), 2);
            assert!(!negated);
        }
        other => panic!("unexpected: {:?}", other),
    }
    let bad = PredicateExpr::InList { expr: ident("age"), list: vec![*lit("1"), *ident("name")], negated: true };
    assert_eq!(feature_message(translate(&bad).unwrap_err()), "IN list only supports literal values in v1");
    let sub = PredicateExpr::InSubquery { expr: ident("age"), subquery: "SELECT age FROM users".to_string(), negated: true };
    match translate(&sub).unwrap() {
        QualifiedPredicate::InSubquery { subquery, negated, .. } => {
            assert_eq!(*subquery, "SELECT age FROM users");
            assert!(negated);
        }
        other => panic!("unexpected: {:?}", other),
    }
    let bad_sub = PredicateExpr::InSubquery { expr: ident("age"), subquery: "VALUES (1)".to_string(), negated: false };
    assert!(matches!(translate(&bad_sub), Err(TranslateError::SqlParse(_))));
}
