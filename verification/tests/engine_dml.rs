use aicacia_db::engine_ddl::{EngineColumnSchema, EngineTableSchema};
use aicacia_db::engine_dml::{
    ensure_returning_expr_uses_target, sql_expr_to_update_value_expr, translate_delete,
    translate_returning_item, translate_returning_projection, DeleteQuery, EngineDelete,
    ReturningItem, UpdateValueExpr,
};
use aicacia_db::engine_joins::{EngineJoin, EngineJoinOperator, EngineTableFactor, EngineTableWithJoins, QualifiedColumn};
use aicacia_db::engine_predicates::{
    ArithmeticOperator, PredicateExpr, QualifiedOperand, QualifiedPredicate, Scope,
};
use aicacia_db::engine_types::{EngineType, EngineValue};
use aicacia_db::placeholders::TranslateError;
use aicacia_db::sql_ast::SqlBinaryOperator;
use sqlparser::ast;
use sqlparser::dialect::GenericDialect;
use sqlparser::parser::Parser;

fn catalog() -> Vec<EngineTableSchema> {
    vec![EngineTableSchema {
        name: "users".to_string(),
        columns: vec![
            EngineColumnSchema { name: "id".to_string(), data_type: EngineType::Integer },
            EngineColumnSchema { name: "name".to_string(), data_type: EngineType::Text },
        ],
        primary_key: vec![0],
    }, EngineTableSchema {
        name: "teams".to_string(),
        columns: vec![
            EngineColumnSchema { name: "id".to_string(), data_type: EngineType::Integer },
            EngineColumnSchema { name: "name".to_string(), data_type: EngineType::Text },
        ],
        primary_key: vec![0],
    }]
}

/// Reads `column` or `alias.column` against the scope's aliases and known tables.
fn column(e: &PredicateExpr, scope: &Scope) -> Result<QualifiedColumn, TranslateError> {
    let schemas = catalog();
    let (table, name) = match e {
        PredicateExpr::Identifier(n) => {
            let known = scope.known.last().ok_or_else(|| TranslateError::UnknownColumn(n.clone()))?;
            (schemas[*known].name.clone(), n.clone())
        }
        PredicateExpr::CompoundIdentifier(parts) => {
            let table = scope
                .aliases
                .iter()
                .rev()
                .find(|(a, _)| a == &parts[0])
                .map(|(_, t)| t.clone())
                .ok_or_else(|| TranslateError::UnknownTable(parts[0].clone()))?;
            (table, parts[1].clone())
        }
        _ => return Err(TranslateError::UnsupportedFeature("not a column".to_string())),
    };
    let schema = schemas.iter().find(|s| s.name == table).ok_or_else(|| TranslateError::UnknownTable(table.clone()))?;
    let column_index = schema
        .columns
        .iter()
        .position(|c| c.name == name)
        .ok_or_else(|| TranslateError::UnknownColumn(name.clone()))?;
    Ok(QualifiedColumn { table, column_index })
}

/// Integer and string literals.
fn value(e: &PredicateExpr) -> Result<EngineValue, TranslateError> {
    match e {
        PredicateExpr::Value(text) => match text.parse::<i64>() {
            Ok(n) => Ok(EngineValue::Integer(n)),
            Err(_) => Ok(EngineValue::Text(text.trim_matches('\'').to_string())),
        },
        PredicateExpr::Cast(inner) => value(inner),
        _ => Err(TranslateError::UnsupportedFeature("not a literal".to_string())),
    }
}

fn subquery(_sql: &String) -> Result<(), TranslateError> {
    Ok(())
}

fn expr(e: &ast::Expr) -> PredicateExpr {
    match e {
        ast::Expr::Identifier(i) => PredicateExpr::Identifier(i.value.clone()),
        ast::Expr::CompoundIdentifier(parts) => PredicateExpr::CompoundIdentifier(parts.iter().map(|i| i.value.clone()).collect()),
        ast::Expr::Value(v) => PredicateExpr::Value(v.to_string()),
        ast::Expr::BinaryOp { left, op, right } => {
            let (l, r) = (Box::new(expr(left)), Box::new(expr(right)));
            match op {
                ast::BinaryOperator::Plus => PredicateExpr::Arithmetic { left: l, op: ArithmeticOperator::Plus, right: r },
                ast::BinaryOperator::Eq => PredicateExpr::BinaryOp { left: l, op: SqlBinaryOperator::Eq, right: r },
                other => PredicateExpr::BinaryOp { left: l, op: SqlBinaryOperator::Other(format!("{other:?}")), right: r },
            }
        }
        _ => PredicateExpr::Other,
    }
}

fn from_item(t: &ast::TableWithJoins) -> EngineTableWithJoins {
    let factor = |f: &ast::TableFactor| match f {
        ast::TableFactor::Table { name, alias, .. } => EngineTableFactor::Table {
            name_parts: name.0.iter().map(|p| p.as_ident().unwrap().value.clone()).collect(),
            alias: alias.as_ref().map(|a| a.name.value.clone()),
        },
        _ => EngineTableFactor::Other,
    };
    EngineTableWithJoins {
        relation: factor(&t.relation),
        joins: t.joins.iter().map(|j| EngineJoin { relation: factor(&j.relation), operator: EngineJoinOperator::Other }).collect(),
    }
}

fn returning(item: &ast::SelectItem) -> ReturningItem {
    match item {
        ast::SelectItem::Wildcard(_) => ReturningItem::Wildcard,
        ast::SelectItem::QualifiedWildcard(ast::SelectItemQualifiedWildcardKind::ObjectName(name), _) => {
            ReturningItem::QualifiedWildcard(name.0.iter().map(|p| p.as_ident().unwrap().value.clone()).collect())
        }
        ast::SelectItem::QualifiedWildcard(_, _) => ReturningItem::QualifiedWildcardOther,
        ast::SelectItem::UnnamedExpr(e) => ReturningItem::UnnamedExpr(expr(e)),
        ast::SelectItem::ExprWithAlias { expr: e, .. } => ReturningItem::ExprWithAlias(expr(e)),
        ast::SelectItem::ExprWithAliases { expr: e, .. } => ReturningItem::ExprWithAlias(expr(e)),
        _ => ReturningItem::QualifiedWildcardOther,
    }
}

fn delete(sql: &str) -> Result<DeleteQuery<()>, TranslateError> {
    let stmts = Parser::parse_sql(&GenericDialect {}, sql).unwrap();
    let d = match &stmts[0] {
        ast::Statement::Delete(d) => d,
        other => panic!("not a delete: {other:?}"),
    };
    let from = match &d.from {
        ast::FromTable::WithFromKeyword(t) | ast::FromTable::WithoutKeyword(t) => t,
    };
    let model = EngineDelete {
        has_tables: !d.tables.is_empty(),
        has_using: d.using.is_some(),
        has_order_by: !d.order_by.is_empty(),
        has_limit: d.limit.is_some(),
        from: from.iter().map(from_item).collect(),
        selection: d.selection.as_ref().map(expr),
        returning: d.returning.as_ref().map(|items| items.iter().map(returning).collect()),
    };
    translate_delete(&model, &catalog(), &column, &value, &subquery)
}

fn feature_message(e: TranslateError) -> String {
    match e {
        TranslateError::UnsupportedFeature(m) => m,
        other => panic!("unexpected error: {:?}", other),
    }
}

#[test]
fn translate_delete_order_by_is_rejected() {
    let err = delete("DELETE FROM users ORDER BY id;").expect_err("DELETE ORDER BY should be rejected");
    assert!(
        matches!(err, TranslateError::UnsupportedFeature(message) if message.contains("DELETE ORDER BY is not supported"))
    );
}

#[test]
fn translate_delete_values() {
    let q = delete("DELETE FROM users WHERE id = 2;").expect("translate delete");
    assert_eq!(q.table, "users");
    assert!(q.returning.is_none());
    match q.predicate {
        Some(QualifiedPredicate::Equals(QualifiedOperand::Column(qc), QualifiedOperand::Value(v))) => {
            assert_eq!(qc.table, "users");
            assert_eq!(qc.column_index, 0);
            assert!(matches!(v, EngineValue::Integer(2)));
        }
        other => panic!("unexpected predicate: {:?}", other),
    }
}

#[test]
fn translate_delete_returning_projection() {
    let q = delete("DELETE FROM users RETURNING id;").expect("delete returning should translate");
    assert_eq!(q.table, "users");
    assert!(q.predicate.is_none());
    let projection = q.returning.expect("returning projection");
    assert_eq!(projection.len(), 1);
    match &projection[0] {
        UpdateValueExpr::Column(QualifiedColumn { table, column_index }) => {
            assert_eq!(table, "users");
            assert_eq!(*column_index, 0);
        }
        other => panic!("unexpected projection: {:?}", other),
    }
}

#[test]
fn delete_refusals() {
    assert_eq!(feature_message(delete("DELETE FROM users LIMIT 1").unwrap_err()), "DELETE LIMIT is not supported");
    assert_eq!(
        feature_message(delete("DELETE FROM users u JOIN users v ON u.id = v.id").unwrap_err()),
        "DELETE with JOIN is not supported"
    );
    assert!(matches!(delete("DELETE FROM orders"), Err(TranslateError::UnknownTable(t)) if t == "orders"));
    assert!(matches!(delete("DELETE FROM users WHERE age = 1"), Err(TranslateError::UnknownColumn(c)) if c == "age"));
}

#[test]
fn returning_lists() {
    let q = delete("DELETE FROM users u RETURNING *, u.*, id + 1 AS next").unwrap();
    let projection = q.returning.unwrap();
    assert_eq!(projection.len(), 5);
    assert!(matches!(&projection[4], UpdateValueExpr::Add(_, _)));
    let err = delete("DELETE FROM users RETURNING v.*").unwrap_err();
    assert_eq!(feature_message(err), "RETURNING can reference only target table columns");
    let err = delete("DELETE FROM users RETURNING other.id").unwrap_err();
    assert_eq!(feature_message(err), "RETURNING can reference only target table columns");
    let err = delete("DELETE FROM users RETURNING id = 1").unwrap_err();
    assert_eq!(feature_message(err), "unsupported operator in UPDATE assignment expression");

    let scope = Scope { aliases: vec![("u".to_string(), "users".to_string())], known: vec![0] };
    let out = translate_returning_item(&ReturningItem::Wildcard, "users", &scope, 2, &column, &value).unwrap();
    assert_eq!(out.len(), 2);
    let err = translate_returning_item(&ReturningItem::QualifiedWildcardOther, "users", &scope, 2, &column, &value).unwrap_err();
    assert_eq!(feature_message(err), "RETURNING qualified wildcard expression is not supported");
    let missing = Scope { aliases: Vec::new(), known: Vec::new() };
    assert!(matches!(
        translate_returning_projection(&vec![ReturningItem::Wildcard], "users", &missing, &catalog(), &column, &value),
        Err(TranslateError::UnknownTable(t)) if t == "users"
    ));
}

#[test]
fn value_expressions() {
    let scope = Scope { aliases: Vec::new(), known: vec![0] };
    let e = PredicateExpr::Arithmetic {
        left: Box::new(PredicateExpr::Identifier("id".to_string())),
        op: ArithmeticOperator::Multiply,
        right: Box::new(PredicateExpr::Value("3".to_string())),
    };
    assert!(matches!(sql_expr_to_update_value_expr(&e, &column, &scope, &value).unwrap(), UpdateValueExpr::Multiply(_, _)));
    let err = sql_expr_to_update_value_expr(&PredicateExpr::Other, &column, &scope, &value).unwrap_err();
    assert_eq!(feature_message(err), "unsupported UPDATE assignment expression");
    let foreign = UpdateValueExpr::Subtract(
        Box::new(UpdateValueExpr::Value(EngineValue::Integer(1))),
        Box::new(UpdateValueExpr::Column(QualifiedColumn { table: "orders".to_string(), column_index: 0 })),
    );
    assert!(ensure_returning_expr_uses_target(&foreign, "users").is_err());
    assert!(ensure_returning_expr_uses_target(&foreign, "orders").is_ok());
}

#[test]
fn translate_returning_non_target_table_is_rejected() {
    let err = delete("DELETE FROM users RETURNING teams.name;").expect_err("RETURNING non-target table should be rejected");
    assert!(
        matches!(err, TranslateError::UnsupportedFeature(message) if message.contains("RETURNING can reference only target table columns"))
    );
}

#[test]
fn translate_returning_qualified_wildcard_other_table_is_rejected() {
    let err = delete("DELETE FROM users RETURNING teams.*;")
        .expect_err("RETURNING qualified wildcard on other table should be rejected");
    assert!(matches!(
        err,
        TranslateError::UnsupportedFeature(message)
        if message.contains("RETURNING can reference only target table columns")
    ));
}
