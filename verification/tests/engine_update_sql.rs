use aicacia_db::engine_ddl::{EngineColumnSchema, EngineTableSchema};
use aicacia_db::engine_dml::{ReturningItem, UpdateValueExpr};
use aicacia_db::engine_joins::{
    EngineJoin, EngineJoinConstraint, EngineJoinOperator, EngineTableFactor, EngineTableWithJoins, QualifiedColumn,
};
use aicacia_db::engine_predicates::{ArithmeticOperator, PredicateExpr, QualifiedOperand, QualifiedPredicate, Scope};
use aicacia_db::engine_types::{EngineType, EngineValue};
use aicacia_db::engine_update::{translate_update, EngineAssignment, EngineAssignmentTarget, EngineUpdate, UpdateQuery};
use aicacia_db::placeholders::TranslateError;
use aicacia_db::sql_ast::{SqlBinaryOperator, SqlExpr};
use sqlparser::ast;
use sqlparser::dialect::GenericDialect;
use sqlparser::parser::Parser;

fn table(name: &str, columns: &[&str]) -> EngineTableSchema {
    EngineTableSchema {
        name: name.to_string(),
        columns: columns
            .iter()
            .map(|c| EngineColumnSchema { name: c.to_string(), data_type: EngineType::Integer })
            .collect(),
        primary_key: vec![0],
    }
}

fn teams_catalog() -> Vec<EngineTableSchema> {
    vec![table("users", &["id", "team_id", "score"]), table("teams", &["id", "bonus"])]
}

fn lookup(schemas: &[EngineTableSchema], scope_aliases: &[(String, String)], known: &[usize], parts: &[String]) -> Result<QualifiedColumn, TranslateError> {
    let (tables, name): (Vec<String>, String) = if parts.len() == 2 {
        let t = scope_aliases
            .iter()
            .rev()
            .find(|(a, _)| a == &parts[0])
            .map(|(_, t)| t.clone())
            .unwrap_or_else(|| parts[0].clone());
        (vec![t], parts[1].clone())
    } else {
        (known.iter().map(|k| schemas[*k].name.clone()).collect(), parts[0].clone())
    };
    for t in tables {
        let schema = schemas.iter().find(|s| s.name == t).ok_or_else(|| TranslateError::UnknownTable(t.clone()))?;
        if let Some(i) = schema.columns.iter().position(|c| c.name == name) {
            return Ok(QualifiedColumn { table: t, column_index: i });
        }
    }
    Err(TranslateError::UnknownColumn(name))
}

fn value(e: &PredicateExpr) -> Result<EngineValue, TranslateError> {
    match e {
        PredicateExpr::Value(text) => text
            .parse::<i64>()
            .map(EngineValue::Integer)
            .map_err(|_| TranslateError::UnsupportedFeature(text.clone())),
        _ => Err(TranslateError::UnsupportedFeature("not a literal".to_string())),
    }
}

fn subquery(_sql: &String) -> Result<(), TranslateError> {
    Ok(())
}

fn expr(e: &ast::Expr) -> PredicateExpr {
    match e {
        ast::Expr::Identifier(i) => PredicateExpr::Identifier(i.value.clone()),
        ast::Expr::CompoundIdentifier(parts) => PredicateExpr::CompoundIdentifier(parts.iter().map(|i| i.value.clone()).collect()),
        ast::Expr::Value(v) => PredicateExpr::Value(v.to_string()),
        ast::Expr::BinaryOp { left, op, right } => {
            let (l, r) = (Box::new(expr(left)), Box::new(expr(right)));
            match op {
                ast::BinaryOperator::Plus => PredicateExpr::Arithmetic { left: l, op: ArithmeticOperator::Plus, right: r },
                ast::BinaryOperator::Eq => PredicateExpr::BinaryOp { left: l, op: SqlBinaryOperator::Eq, right: r },
                ast::BinaryOperator::And => PredicateExpr::BinaryOp { left: l, op: SqlBinaryOperator::And, right: r },
                other => PredicateExpr::BinaryOp { left: l, op: SqlBinaryOperator::Other(format!("{other:?}")), right: r },
            }
        }
        _ => PredicateExpr::Other,
    }
}

fn on_expr(e: &ast::Expr) -> SqlExpr {
    match e {
        ast::Expr::Identifier(i) => SqlExpr::Identifier(i.value.clone()),
        ast::Expr::CompoundIdentifier(parts) => SqlExpr::CompoundIdentifier {
            parts: parts.iter().map(|i| i.value.clone()).collect(),
            debug: String::new(),
            parts_debug: String::new(),
        },
        ast::Expr::BinaryOp { left, op: ast::BinaryOperator::Eq, right } => SqlExpr::BinaryOp {
            left: Box::new(on_expr(left)),
            op: SqlBinaryOperator::Eq,
            right: Box::new(on_expr(right)),
        },
        other => SqlExpr::Other(format!("{other:?}")),
    }
}

fn factor(f: &ast::TableFactor) -> EngineTableFactor {
    match f {
        ast::TableFactor::Table { name, alias, .. } => EngineTableFactor::Table {
            name_parts: name.0.iter().map(|p| p.as_ident().unwrap().value.clone()).collect(),
            alias: alias.as_ref().map(|a| a.name.value.clone()),
        },
        _ => EngineTableFactor::Other,
    }
}

fn from_item(t: &ast::TableWithJoins) -> EngineTableWithJoins {
    EngineTableWithJoins {
        relation: factor(&t.relation),
        joins: t
            .joins
            .iter()
            .map(|j| EngineJoin {
                relation: factor(&j.relation),
                operator: match &j.join_operator {
                    ast::JoinOperator::Join(ast::JoinConstraint::On(e)) | ast::JoinOperator::Inner(ast::JoinConstraint::On(e)) => {
                        EngineJoinOperator::Join(EngineJoinConstraint::On(on_expr(e)))
                    }
                    _ => EngineJoinOperator::Other,
                },
            })
            .collect(),
    }
}

fn update(sql: &str, schemas: Vec<EngineTableSchema>) -> Result<UpdateQuery<()>, TranslateError> {
    let stmts = Parser::parse_sql(&GenericDialect {}, sql).unwrap();
    let u = match &stmts[0] {
        ast::Statement::Update(u) => u,
        other => panic!("not an update: {other:?}"),
    };
    let model = EngineUpdate {
        has_limit: u.limit.is_some(),
        table: from_item(&u.table),
        from: match &u.from {
            Some(ast::UpdateTableFromKind::BeforeSet(items)) | Some(ast::UpdateTableFromKind::AfterSet(items)) => {
                items.iter().map(from_item).collect()
            }
            None => Vec::new(),
        },
        assignments: u
            .assignments
            .iter()
            .map(|a| EngineAssignment {
                target: match &a.target {
                    ast::AssignmentTarget::ColumnName(name) => EngineAssignmentTarget::ColumnName(
                        name.0.iter().map(|p| p.as_ident().map(|i| i.value.clone())).collect(),
                    ),
                    ast::AssignmentTarget::Tuple(_) => EngineAssignmentTarget::Tuple,
                },
                value: expr(&a.value),
            })
            .collect(),
        selection: u.selection.as_ref().map(expr),
        returning: u.returning.as_ref().map(|items| {
            items
                .iter()
                .map(|i| match i {
                    ast::SelectItem::UnnamedExpr(e) => ReturningItem::UnnamedExpr(expr(e)),
                    ast::SelectItem::Wildcard(_) => ReturningItem::Wildcard,
                    _ => ReturningItem::QualifiedWildcardOther,
                })
                .collect()
        }),
    };
    let column = |e: &PredicateExpr, scope: &Scope| -> Result<QualifiedColumn, TranslateError> {
        match e {
            PredicateExpr::Identifier(n) => lookup(&schemas, &scope.aliases, &scope.known, &[n.clone()]),
            PredicateExpr::CompoundIdentifier(parts) => lookup(&schemas, &scope.aliases, &scope.known, parts),
            _ => Err(TranslateError::UnsupportedFeature("not a column".to_string())),
        }
    };
    let resolve = |e: &SqlExpr, aliases: &Vec<(String, String)>, known: &Vec<usize>| -> Result<QualifiedColumn, TranslateError> {
        match e {
            SqlExpr::Identifier(n) => lookup(&schemas, aliases, known, &[n.clone()]),
            SqlExpr::CompoundIdentifier { parts, .. } => lookup(&schemas, aliases, known, parts),
            _ => Err(TranslateError::UnsupportedFeature("not a column".to_string())),
        }
    };
    translate_update(&model, &schemas, &resolve, &column, &value, &subquery)
}

fn is_column(v: &UpdateValueExpr, table: &str, index: usize) -> bool {
    matches!(v, UpdateValueExpr::Column(QualifiedColumn { table: t, column_index }) if t == table && *column_index == index)
}

#[test]
fn translate_update_limit_is_rejected() {
    let err = update("UPDATE users SET score = 1 WHERE id = 1 LIMIT 1;", vec![table("users", &["id", "score"])]).expect_err("UPDATE LIMIT should be rejected");
    assert!(
        matches!(err, TranslateError::UnsupportedFeature(message) if message.contains("UPDATE LIMIT is not supported"))
    );
}

#[test]
fn translate_update_values() {
    let q = update("UPDATE users SET score = 11 WHERE id = 1;", vec![table("users", &["id", "name", "score"])])
        .expect("translate update");
    assert_eq!(q.table, "users");
    assert_eq!(q.assignments.len(), 1);
    assert!(q.joins.is_empty());
    assert!(q.from_tables.is_empty());
    assert!(q.returning.is_none());
    assert_eq!(q.assignments[0].column_index, 2);
    assert!(matches!(q.assignments[0].value, UpdateValueExpr::Value(EngineValue::Integer(11))));
    match q.predicate {
        Some(QualifiedPredicate::Equals(QualifiedOperand::Column(qc), QualifiedOperand::Value(v))) => {
            assert_eq!(qc.table, "users");
            assert_eq!(qc.column_index, 0);
            assert!(matches!(v, EngineValue::Integer(1)));
        }
        other => panic!("unexpected predicate: {:?}", other),
    }
}

#[test]
fn translate_update_expression_value() {
    let q = update("UPDATE users SET score = score + 1 WHERE id = 1;", vec![table("users", &["id", "score"])])
        .expect("translate update expression");
    assert_eq!(q.assignments.len(), 1);
    assert_eq!(q.assignments[0].column_index, 1);
    match &q.assignments[0].value {
        UpdateValueExpr::Add(a, b) => {
            assert!(is_column(a, "users", 1));
            assert!(matches!(**b, UpdateValueExpr::Value(EngineValue::Integer(1))));
        }
        other => panic!("unexpected value: {:?}", other),
    }
}

#[test]
fn translate_update_join_expression_value() {
    let q = update("UPDATE users u JOIN teams t ON u.team_id = t.id SET score = score + t.bonus WHERE u.id = 1;", teams_catalog())
        .expect("translate update join expression");
    assert_eq!(q.joins.len(), 1);
    assert!(q.from_tables.is_empty());
    assert!(q.returning.is_none());
    assert_eq!(q.assignments.len(), 1);
    assert_eq!(q.assignments[0].column_index, 2);
    match &q.assignments[0].value {
        UpdateValueExpr::Add(a, b) => {
            assert!(is_column(a, "users", 2));
            assert!(is_column(b, "teams", 1));
        }
        other => panic!("unexpected value: {:?}", other),
    }
}

#[test]
fn translate_update_from_expression_value() {
    let q = update(
        "UPDATE users SET score = score + teams.bonus FROM teams WHERE users.team_id = teams.id AND users.id = 1;",
        teams_catalog(),
    )
    .expect("translate update from expression");
    assert!(q.joins.is_empty());
    assert_eq!(q.from_tables, vec!["teams".to_string()]);
    assert!(q.returning.is_none());
    assert_eq!(q.assignments.len(), 1);
    assert_eq!(q.assignments[0].column_index, 2);
    match &q.assignments[0].value {
        UpdateValueExpr::Add(a, b) => {
            assert!(is_column(a, "users", 2));
            assert!(is_column(b, "teams", 1));
        }
        other => panic!("unexpected value: {:?}", other),
    }
}

#[test]
fn translate_update_returning_projection() {
    let q = update("UPDATE users SET score = score + 1 RETURNING id, score;", vec![table("users", &["id", "score"])])
        .expect("update returning should translate");
    assert!(q.joins.is_empty());
    assert!(q.from_tables.is_empty());
    let projection = q.returning.expect("returning projection");
    assert_eq!(projection.len(), 2);
    assert!(is_column(&projection[0], "users", 0));
    assert!(is_column(&projection[1], "users", 1));
}

#[test]
fn update_errors() {
    assert!(matches!(update("UPDATE ghosts SET a = 1", teams_catalog()), Err(TranslateError::UnknownTable(t)) if t == "ghosts"));
    assert!(matches!(update("UPDATE users SET height = 1", teams_catalog()), Err(TranslateError::UnknownColumn(c)) if c == "height"));
}
