use aicacia_db::engine_ddl::{EngineColumnSchema, EngineTableSchema};
use aicacia_db::engine_dml::{EngineDelete, ReturningItem, UpdateValueExpr};
use aicacia_db::engine_insert::{EngineInsert, InsertSource, InsertTable};
use aicacia_db::engine_joins::{
    EngineJoin, EngineJoinConstraint, EngineJoinOperator, EngineTableFactor, EngineTableWithJoins, JoinKind, JoinOn,
    QualifiedColumn,
};
use aicacia_db::engine_having::{Comparison, HavingExpr, HavingOperand, HavingPredicate, RefOrAgg};
use aicacia_db::engine_select::{
    Aggregate, CallArg, CallArgs, EngineSelect, FunctionCall, GroupBy, LimitClause, LimitExpr, OrderByExpr,
    OrderByKind, ProjectionExpr, SelectItem, SelectQuery, SortDirection,
};
use aicacia_db::engine_predicates::{ArithmeticOperator, FunctionArgs, PredicateExpr, QualifiedOperand, QualifiedPredicate, Scope};
use aicacia_db::engine_query::{parse_and_translate, parse_and_translate_statement, CanonicalStatement, EngineQuery, EngineQueryStatement};
use aicacia_db::engine_statement::DdlOp;
use aicacia_db::engine_statement::{EngineObjectType, EngineStatement};
use aicacia_db::engine_types::{EngineType, EngineValue};
use aicacia_db::engine_update::{EngineAssignment, EngineAssignmentTarget, EngineUpdate};
use aicacia_db::placeholders::{ParamsValueMapper, SqlParams, TranslateError};
use std::cell::RefCell;
use aicacia_db::sql_ast::{SqlBinaryOperator, SqlExpr};
use sqlparser::ast;

fn table(name: &str, columns: &[(&str, EngineType)]) -> EngineTableSchema {
    EngineTableSchema {
        name: name.to_string(),
        columns: columns
            .iter()
            .map(|(c, t)| EngineColumnSchema { name: c.to_string(), data_type: *t })
            .collect(),
        primary_key: vec![0],
    }
}

fn lookup(schemas: &[EngineTableSchema], aliases: &[(String, String)], known: &[usize], parts: &[String]) -> Result<QualifiedColumn, TranslateError> {
    let (tables, name): (Vec<String>, String) = if parts.len() == 2 {
        let t = aliases
            .iter()
            .rev()
            .find(|(a, _)| a == &parts[0])
            .map(|(_, t)| t.clone())
            .unwrap_or_else(|| parts[0].clone());
        (vec![t], parts[1].clone())
    } else {
        (known.iter().map(|k| schemas[*k].name.clone()).collect(), parts[0].clone())
    };
    for t in tables {
        let schema = schemas.iter().find(|s| s.name == t).ok_or_else(|| TranslateError::UnknownTable(t.clone()))?;
        if let Some(i) = schema.columns.iter().position(|c| c.name == name) {
            return Ok(QualifiedColumn { table: t, column_index: i });
        }
    }
    Err(TranslateError::UnknownColumn(name))
}

fn value(e: &PredicateExpr) -> Result<EngineValue, TranslateError> {
    match e {
        PredicateExpr::Value(text) if text.starts_with('\'') && text.ends_with('\'') && text.len() >= 2 => {
            Ok(EngineValue::Text(text[1..text.len() - 1].to_string()))
        }
        PredicateExpr::Value(text) => text
            .parse::<i64>()
            .map(EngineValue::Integer)
            .map_err(|_| TranslateError::UnsupportedFeature(text.clone())),
        _ => Err(TranslateError::UnsupportedFeature("not a literal".to_string())),
    }
}

fn names(name: &ast::ObjectName) -> Vec<String> {
    name.0.iter().map(|p| p.as_ident().unwrap().value.clone()).collect()
}

fn expr(e: &ast::Expr) -> PredicateExpr {
    match e {
        ast::Expr::Identifier(i) => PredicateExpr::Identifier(i.value.clone()),
        ast::Expr::CompoundIdentifier(parts) => PredicateExpr::CompoundIdentifier(parts.iter().map(|i| i.value.clone()).collect()),
        ast::Expr::Value(v) => PredicateExpr::Value(v.to_string()),
        ast::Expr::Function(f) => PredicateExpr::Function { name: f.name.to_string(), args: FunctionArgs::Other },
        ast::Expr::BinaryOp { left, op, right } => {
            let (l, r) = (Box::new(expr(left)), Box::new(expr(right)));
            match op {
                ast::BinaryOperator::Plus => PredicateExpr::Arithmetic { left: l, op: ArithmeticOperator::Plus, right: r },
                ast::BinaryOperator::Eq => PredicateExpr::BinaryOp { left: l, op: SqlBinaryOperator::Eq, right: r },
                ast::BinaryOperator::And => PredicateExpr::BinaryOp { left: l, op: SqlBinaryOperator::And, right: r },
                ast::BinaryOperator::Or => PredicateExpr::BinaryOp { left: l, op: SqlBinaryOperator::Or, right: r },
                ast::BinaryOperator::Gt => PredicateExpr::BinaryOp { left: l, op: SqlBinaryOperator::Gt, right: r },
                ast::BinaryOperator::Lt => PredicateExpr::BinaryOp { left: l, op: SqlBinaryOperator::Lt, right: r },
                other => PredicateExpr::BinaryOp { left: l, op: SqlBinaryOperator::Other(format!("{other:?}")), right: r },
            }
        }
        _ => PredicateExpr::Other,
    }
}

fn factor(f: &ast::TableFactor) -> EngineTableFactor {
    match f {
        ast::TableFactor::Table { name, alias, .. } => EngineTableFactor::Table {
            name_parts: names(name),
            alias: alias.as_ref().map(|a| a.name.value.clone()),
        },
        _ => EngineTableFactor::Other,
    }
}

fn on_expr(e: &ast::Expr) -> SqlExpr {
    match e {
        ast::Expr::Identifier(i) => SqlExpr::Identifier(i.value.clone()),
        ast::Expr::CompoundIdentifier(parts) => SqlExpr::CompoundIdentifier {
            parts: parts.iter().map(|i| i.value.clone()).collect(),
            debug: String::new(),
            parts_debug: String::new(),
        },
        ast::Expr::BinaryOp { left, op: ast::BinaryOperator::Eq, right } => SqlExpr::BinaryOp {
            left: Box::new(on_expr(left)),
            op: SqlBinaryOperator::Eq,
            right: Box::new(on_expr(right)),
        },
        other => SqlExpr::Other(format!("{other:?}")),
    }
}

fn constraint(c: &ast::JoinConstraint) -> EngineJoinConstraint {
    match c {
        ast::JoinConstraint::On(e) => EngineJoinConstraint::On(on_expr(e)),
        ast::JoinConstraint::Using(cols) => EngineJoinConstraint::Using(cols.iter().map(names).collect()),
        _ => EngineJoinConstraint::Other,
    }
}

fn from_item(t: &ast::TableWithJoins) -> EngineTableWithJoins {
    EngineTableWithJoins {
        relation: factor(&t.relation),
        joins: t
            .joins
            .iter()
            .map(|j| EngineJoin {
                relation: factor(&j.relation),
                operator: match &j.join_operator {
                    ast::JoinOperator::Join(c) => EngineJoinOperator::Join(constraint(c)),
                    ast::JoinOperator::Inner(c) => EngineJoinOperator::Inner(constraint(c)),
                    ast::JoinOperator::Left(c) => EngineJoinOperator::Left(constraint(c)),
                    ast::JoinOperator::LeftOuter(c) => EngineJoinOperator::LeftOuter(constraint(c)),
                    _ => EngineJoinOperator::Other,
                },
            })
            .collect(),
    }
}

fn projection_expr(e: &ast::Expr) -> ProjectionExpr {
    match e {
        ast::Expr::Function(f) => ProjectionExpr::Call(FunctionCall {
            name: f.name.to_string(),
            args: match &f.args {
                ast::FunctionArguments::None => CallArgs::List(Vec::new()),
                ast::FunctionArguments::Subquery(_) => CallArgs::Subquery,
                ast::FunctionArguments::List(list) => CallArgs::List(
                    list.args
                        .iter()
                        .map(|a| match a {
                            ast::FunctionArg::Unnamed(ast::FunctionArgExpr::Wildcard) => CallArg::Wildcard,
                            ast::FunctionArg::Unnamed(ast::FunctionArgExpr::QualifiedWildcard(_)) => CallArg::QualifiedWildcard,
                            ast::FunctionArg::Unnamed(ast::FunctionArgExpr::Expr(e)) => CallArg::Expr(expr(e)),
                            _ => CallArg::Other,
                        })
                        .collect(),
                ),
            },
        }),
        other => ProjectionExpr::Expr(expr(other)),
    }
}

fn having_operand(e: &ast::Expr) -> HavingOperand {
    match e {
        ast::Expr::Function(_) => match projection_expr(e) {
            ProjectionExpr::Call(call) => HavingOperand::Call(call),
            ProjectionExpr::Expr(_) => HavingOperand::Other,
        },
        ast::Expr::Identifier(ident) => HavingOperand::Name(ident.value.clone()),
        ast::Expr::CompoundIdentifier(_) => HavingOperand::Compound(expr(e)),
        _ => HavingOperand::Other,
    }
}

fn having_expr(e: &ast::Expr) -> HavingExpr {
    match e {
        ast::Expr::BinaryOp { left, op, right } => {
            let compare = |op: Comparison| HavingExpr::Compare { left: having_operand(left), op, right: expr(right) };
            match op {
                ast::BinaryOperator::And => HavingExpr::Logical { and: true, left: Box::new(having_expr(left)), right: Box::new(having_expr(right)) },
                ast::BinaryOperator::Or => HavingExpr::Logical { and: false, left: Box::new(having_expr(left)), right: Box::new(having_expr(right)) },
                ast::BinaryOperator::Eq => compare(Comparison::Eq),
                ast::BinaryOperator::NotEq => compare(Comparison::NotEq),
                ast::BinaryOperator::Lt => compare(Comparison::Lt),
                ast::BinaryOperator::LtEq => compare(Comparison::LtEq),
                ast::BinaryOperator::Gt => compare(Comparison::Gt),
                ast::BinaryOperator::GtEq => compare(Comparison::GtEq),
                _ => HavingExpr::OtherBinary,
            }
        }
        ast::Expr::UnaryOp { op: ast::UnaryOperator::Not, expr: inner } => HavingExpr::Not(Box::new(having_expr(inner))),
        ast::Expr::UnaryOp { .. } => HavingExpr::OtherUnary,
        ast::Expr::IsNull(inner) => HavingExpr::IsNull(having_operand(inner)),
        ast::Expr::IsNotNull(inner) => HavingExpr::IsNotNull(having_operand(inner)),
        _ => HavingExpr::Other,
    }
}

fn limit_expr(e: &ast::Expr) -> LimitExpr {
    match e {
        ast::Expr::Value(v) => match &v.value {
            ast::Value::Number(n, _) => LimitExpr::Number(n.clone()),
            _ => LimitExpr::Value,
        },
        _ => LimitExpr::Other,
    }
}

fn select(q: &ast::Query) -> EngineQueryStatement {
    let s = match &*q.body {
        ast::SetExpr::Select(s) => s,
        _ => return EngineQueryStatement::Definition(EngineStatement::Other),
    };
    EngineQueryStatement::Select(EngineSelect {
        from: s.from.iter().map(from_item).collect(),
        projection: s
            .projection
            .iter()
            .map(|item| match item {
                ast::SelectItem::Wildcard(_) => SelectItem::Wildcard,
                ast::SelectItem::QualifiedWildcard(ast::SelectItemQualifiedWildcardKind::ObjectName(n), _) => {
                    SelectItem::QualifiedWildcard(names(n))
                }
                ast::SelectItem::UnnamedExpr(e) => SelectItem::Unnamed(projection_expr(e)),
                ast::SelectItem::ExprWithAlias { expr, alias } => SelectItem::Aliased(projection_expr(expr), alias.value.clone()),
                _ => SelectItem::QualifiedWildcardOther,
            })
            .collect(),
        group_by: match &s.group_by {
            ast::GroupByExpr::Expressions(es, _) => GroupBy::Expressions(es.iter().map(expr).collect()),
            ast::GroupByExpr::All(_) => GroupBy::All,
        },
        order_by: q.order_by.as_ref().map(|ob| match &ob.kind {
            ast::OrderByKind::Expressions(es) => {
                OrderByKind::Expressions(es.iter().map(|o| OrderByExpr { expr: expr(&o.expr), asc: sort_asc(&o.options) }).collect())
            }
            ast::OrderByKind::All(_) => OrderByKind::All,
        }),
        limit: q.limit_clause.as_ref().map(|lc| match lc {
            ast::LimitClause::LimitOffset { limit, offset, .. } => LimitClause::LimitOffset {
                limit: limit.as_ref().map(limit_expr),
                offset: offset.as_ref().map(|o| limit_expr(&o.value)),
            },
            ast::LimitClause::OffsetCommaLimit { offset, limit } => {
                LimitClause::OffsetCommaLimit { offset: limit_expr(offset), limit: limit_expr(limit) }
            }
        }),
        selection: s.selection.as_ref().map(expr),
        having: s.having.as_ref().map(having_expr),
        distinct: s.distinct.is_some(),
    })
}

fn returning(items: &Option<Vec<ast::SelectItem>>) -> Option<Vec<ReturningItem>> {
    items.as_ref().map(|items| {
        items
            .iter()
            .map(|i| match i {
                ast::SelectItem::UnnamedExpr(e) => ReturningItem::UnnamedExpr(expr(e)),
                ast::SelectItem::Wildcard(_) => ReturningItem::Wildcard,
                _ => ReturningItem::QualifiedWildcardOther,
            })
            .collect()
    })
}

fn lower(s: &ast::Statement) -> EngineQueryStatement {
    match s {
        ast::Statement::Insert(i) => EngineQueryStatement::Insert(EngineInsert {
            has_assignments: !i.assignments.is_empty(),
            on: i.on.as_ref().map(|on| format!("{on:?}")),
            table: match &i.table {
                ast::TableObject::TableName(name) => InsertTable::Name(names(name)),
                _ => InsertTable::Other,
            },
            columns: i.columns.iter().map(|c| names(c).join(".")).collect(),
            source: match &i.source {
                None => InsertSource::Missing,
                Some(q) => match &*q.body {
                    ast::SetExpr::Values(values) => {
                        InsertSource::Values(values.rows.iter().map(|row| row.iter().map(expr).collect()).collect())
                    }
                    _ => InsertSource::Other,
                },
            },
            returning: returning(&i.returning),
        }),
        ast::Statement::Update(u) => EngineQueryStatement::Update(EngineUpdate {
            has_limit: u.limit.is_some(),
            table: from_item(&u.table),
            from: Vec::new(),
            assignments: u
                .assignments
                .iter()
                .map(|a| EngineAssignment {
                    target: match &a.target {
                        ast::AssignmentTarget::ColumnName(name) => EngineAssignmentTarget::ColumnName(
                            name.0.iter().map(|p| p.as_ident().map(|i| i.value.clone())).collect(),
                        ),
                        ast::AssignmentTarget::Tuple(_) => EngineAssignmentTarget::Tuple,
                    },
                    value: expr(&a.value),
                })
                .collect(),
            selection: u.selection.as_ref().map(expr),
            returning: returning(&u.returning),
        }),
        ast::Statement::Delete(d) => {
            let from = match &d.from {
                ast::FromTable::WithFromKeyword(tables) | ast::FromTable::WithoutKeyword(tables) => tables,
            };
            EngineQueryStatement::Delete(EngineDelete {
                has_tables: !d.tables.is_empty(),
                has_using: d.using.is_some(),
                has_order_by: !d.order_by.is_empty(),
                has_limit: d.limit.is_some(),
                from: from.iter().map(from_item).collect(),
                selection: d.selection.as_ref().map(expr),
                returning: returning(&d.returning),
            })
        }
        ast::Statement::Query(q) => select(q),
        ast::Statement::Drop { object_type, names: dropped, if_exists, .. } => EngineQueryStatement::Definition(EngineStatement::Drop {
            object_type: match object_type {
                ast::ObjectType::Table => EngineObjectType::Table,
                ast::ObjectType::Index => EngineObjectType::Index,
                _ => EngineObjectType::Other,
            },
            names: dropped.iter().map(names).collect(),
            if_exists: *if_exists,
        }),
        _ => EngineQueryStatement::Definition(EngineStatement::Other),
    }
}

fn translate(sql: &str, schemas: Vec<EngineTableSchema>) -> Result<EngineQuery<String>, TranslateError> {
    translate_with(sql, schemas, &value)
}

fn translate_with<V>(sql: &str, schemas: Vec<EngineTableSchema>, value: &V) -> Result<EngineQuery<String>, TranslateError>
where
    V: Fn(&PredicateExpr) -> Result<EngineValue, TranslateError>,
{
    let column = |e: &PredicateExpr, scope: &Scope| -> Result<QualifiedColumn, TranslateError> {
        match e {
            PredicateExpr::Identifier(n) => lookup(&schemas, &scope.aliases, &scope.known, &[n.clone()]),
            PredicateExpr::CompoundIdentifier(parts) => lookup(&schemas, &scope.aliases, &scope.known, parts),
            _ => Err(TranslateError::UnsupportedFeature("not a column".to_string())),
        }
    };
    let resolve = |e: &SqlExpr, aliases: &Vec<(String, String)>, known: &Vec<usize>| -> Result<QualifiedColumn, TranslateError> {
        match e {
            SqlExpr::Identifier(n) => lookup(&schemas, aliases, known, &[n.clone()]),
            SqlExpr::CompoundIdentifier { parts, .. } => lookup(&schemas, aliases, known, parts),
            _ => Err(TranslateError::UnsupportedFeature("not a column".to_string())),
        }
    };
    let query = |text: &String| -> Result<String, TranslateError> { Ok(text.clone()) };
    parse_and_translate(sql, &schemas, lower, &resolve, &column, value, &query)
}

fn items() -> Vec<EngineTableSchema> {
    vec![table("items", &[("id", EngineType::Integer), ("name", EngineType::Text)])]
}

fn is_qc(qc: &QualifiedColumn, table: &str, index: usize) -> bool {
    qc.table == table && qc.column_index == index
}

fn is_column(v: &UpdateValueExpr, table: &str, index: usize) -> bool {
    matches!(v, UpdateValueExpr::Column(QualifiedColumn { table: t, column_index }) if t == table && *column_index == index)
}

#[test]
fn translate_insert_select_is_rejected() {
    let err = translate("INSERT INTO items (id) SELECT id FROM items;", vec![table("items", &[("id", EngineType::Integer)])])
        .expect_err("INSERT ... SELECT should be rejected");
    assert!(
        matches!(err, TranslateError::UnsupportedFeature(message) if message.contains("only INSERT ... VALUES (...) is supported"))
    );
}

#[test]
fn translate_insert_values() {
    let q = translate("INSERT INTO items (id, name) VALUES (1, 'One');", items()).expect("translate insert");
    match q {
        EngineQuery::Insert(q) => {
            assert_eq!(q.table, "items");
            assert!(q.returning.is_none());
            assert_eq!(q.row.len(), 2);
            assert!(matches!(q.row[0], EngineValue::Integer(1)));
            assert!(matches!(&q.row[1], EngineValue::Text(t) if t == "One"));
        }
        other => panic!("unexpected query kind: {:?}", other),
    }
}

#[test]
fn translate_insert_returning_projection() {
    let schemas = vec![table("items", &[("id", EngineType::Integer), ("score", EngineType::Integer)])];
    let q = translate("INSERT INTO items (id, score) VALUES (1, 9) RETURNING id, score + 1;", schemas)
        .expect("translate insert returning");
    match q {
        EngineQuery::Insert(q) => {
            assert_eq!(q.table, "items");
            assert_eq!(q.row.len(), 2);
            assert!(matches!(q.row[0], EngineValue::Integer(1)));
            assert!(matches!(q.row[1], EngineValue::Integer(9)));
            let returning = q.returning.expect("returning projection");
            assert_eq!(returning.len(), 2);
            assert!(is_column(&returning[0], "items", 0));
            match &returning[1] {
                UpdateValueExpr::Add(a, b) => {
                    assert!(is_column(a, "items", 1));
                    assert!(matches!(**b, UpdateValueExpr::Value(EngineValue::Integer(1))));
                }
                other => panic!("unexpected value: {:?}", other),
            }
        }
        other => panic!("unexpected query kind: {:?}", other),
    }
}

#[test]
fn translate_insert_returning_rejects_aggregate() {
    let error = translate("INSERT INTO items (id) VALUES (1) RETURNING COUNT(id);", vec![table("items", &[("id", EngineType::Integer)])])
        .expect_err("RETURNING aggregate should be rejected");
    assert!(matches!(
        error,
        TranslateError::UnsupportedFeature(message) if message.contains("unsupported UPDATE assignment expression")
    ));
}

#[test]
fn translate_insert_returning_rejects_subquery() {
    let error = translate("INSERT INTO items (id) VALUES (1) RETURNING (SELECT 1);", vec![table("items", &[("id", EngineType::Integer)])])
        .expect_err("RETURNING subquery should be rejected");
    assert!(matches!(
        error,
        TranslateError::UnsupportedFeature(message) if message.contains("unsupported UPDATE assignment expression")
    ));
}

#[test]
fn insert_without_columns_fills_every_column_in_order() {
    let q = translate("INSERT INTO items VALUES (7, 'Seven');", items()).expect("translate insert");
    match q {
        EngineQuery::Insert(q) => {
            assert!(matches!(q.row[0], EngineValue::Integer(7)));
            assert!(matches!(&q.row[1], EngineValue::Text(t) if t == "Seven"));
        }
        other => panic!("unexpected query kind: {:?}", other),
    }
}

#[test]
fn insert_leaves_unnamed_columns_null() {
    let q = translate("INSERT INTO items (name) VALUES ('Two');", items()).expect("translate insert");
    match q {
        EngineQuery::Insert(q) => {
            assert!(matches!(q.row[0], EngineValue::Null));
            assert!(matches!(&q.row[1], EngineValue::Text(t) if t == "Two"));
        }
        other => panic!("unexpected query kind: {:?}", other),
    }
}

#[test]
fn insert_later_value_for_same_column_wins() {
    let q = translate("INSERT INTO items (id, id) VALUES (1, 2);", items()).expect("translate insert");
    match q {
        EngineQuery::Insert(q) => assert!(matches!(q.row[0], EngineValue::Integer(2))),
        other => panic!("unexpected query kind: {:?}", other),
    }
}

#[test]
fn insert_errors() {
    assert!(matches!(translate("INSERT INTO ghosts (id) VALUES (1);", items()), Err(TranslateError::UnknownTable(t)) if t == "ghosts"));
    assert!(matches!(translate("INSERT INTO items (height) VALUES (1);", items()), Err(TranslateError::UnknownColumn(c)) if c == "height"));
    assert!(matches!(
        translate("INSERT INTO items (id, name) VALUES (1);", items()),
        Err(TranslateError::UnsupportedFeature(m)) if m == "INSERT column count does not match VALUES count"
    ));
    assert!(matches!(
        translate("INSERT INTO items (id) VALUES (1), (2);", items()),
        Err(TranslateError::UnsupportedFeature(m)) if m == "only single-row INSERT VALUES supported"
    ));
}

#[test]
fn insert_converts_text_for_uuid_and_json_columns() {
    let docs = || vec![table("docs", &[("id", EngineType::Uuid), ("body", EngineType::Json)])];
    let q = translate("INSERT INTO docs (id, body) VALUES ('550e8400-e29b-41d4-a716-446655440000', '{}');", docs())
        .expect("translate insert");
    match q {
        EngineQuery::Insert(q) => {
            match &q.row[0] {
                EngineValue::Uuid(b) => {
                    assert_eq!(b[0], 0x55);
                    assert_eq!(b[15], 0x00);
                }
                other => panic!("unexpected value: {:?}", other),
            }
            assert!(matches!(&q.row[1], EngineValue::Json(j) if j == "{}"));
        }
        other => panic!("unexpected query kind: {:?}", other),
    }
    assert!(matches!(
        translate("INSERT INTO docs (id) VALUES ('not-a-uuid');", docs()),
        Err(TranslateError::UnsupportedFeature(m)) if m.starts_with("invalid UUID literal: ")
    ));
    assert!(matches!(
        translate("INSERT INTO docs (body) VALUES ('{oops');", docs()),
        Err(TranslateError::UnsupportedFeature(m)) if m == "invalid JSON literal: {oops"
    ));
}

#[test]
fn parse_and_translate_update_values() {
    let schemas = vec![table("users", &[("id", EngineType::Integer), ("name", EngineType::Text), ("score", EngineType::Integer)])];
    let q = translate("UPDATE users SET score = 11 WHERE id = 1;", schemas).expect("translate update");
    match q {
        EngineQuery::Update(q) => {
            assert_eq!(q.table, "users");
            assert_eq!(q.assignments.len(), 1);
            assert!(q.joins.is_empty());
            assert!(q.from_tables.is_empty());
            assert!(q.returning.is_none());
            assert_eq!(q.assignments[0].column_index, 2);
            assert!(matches!(q.assignments[0].value, UpdateValueExpr::Value(EngineValue::Integer(11))));
            match q.predicate {
                Some(QualifiedPredicate::Equals(QualifiedOperand::Column(qc), QualifiedOperand::Value(v))) => {
                    assert_eq!(qc.table, "users");
                    assert_eq!(qc.column_index, 0);
                    assert!(matches!(v, EngineValue::Integer(1)));
                }
                other => panic!("unexpected predicate: {:?}", other),
            }
        }
        other => panic!("unexpected query kind: {:?}", other),
    }
}

#[test]
fn parse_and_translate_update_reads_alias() {
    let schemas = vec![table("users", &[("id", EngineType::Integer), ("score", EngineType::Integer)])];
    let q = translate("UPDATE users u SET score = 1 WHERE u.id = 1;", schemas).expect("translate update");
    match q {
        EngineQuery::Update(q) => match q.predicate {
            Some(QualifiedPredicate::Equals(QualifiedOperand::Column(qc), _)) => {
                assert_eq!(qc.table, "users");
                assert_eq!(qc.column_index, 0);
            }
            other => panic!("unexpected predicate: {:?}", other),
        },
        other => panic!("unexpected query kind: {:?}", other),
    }
}

#[test]
fn parse_and_translate_delete() {
    let q = translate("DELETE FROM items WHERE id = 3 RETURNING name;", items()).expect("translate delete");
    match q {
        EngineQuery::Delete(q) => {
            assert_eq!(q.table, "items");
            assert!(matches!(q.predicate, Some(QualifiedPredicate::Equals(_, QualifiedOperand::Value(EngineValue::Integer(3))))));
            let returning = q.returning.expect("returning");
            assert_eq!(returning.len(), 1);
            assert!(is_column(&returning[0], "items", 1));
        }
        other => panic!("unexpected query kind: {:?}", other),
    }
}

fn users_orders() -> Vec<EngineTableSchema> {
    vec![
        table("users", &[("id", EngineType::Integer), ("name", EngineType::Text)]),
        table("orders", &[("id", EngineType::Integer), ("user_id", EngineType::Integer), ("amount", EngineType::Integer)]),
    ]
}

#[test]
fn translate_simple_select() {
    let q = translate("SELECT id, name FROM users WHERE id = 42;", users_orders()).expect("translate");
    match q {
        EngineQuery::Select(SelectQuery::Simple { table, projection, predicate }) => {
            assert_eq!(table, "users");
            assert_eq!(projection, vec![0, 1]);
            match predicate {
                Some(QualifiedPredicate::Equals(QualifiedOperand::Column(qc), QualifiedOperand::Value(v))) => {
                    assert_eq!(qc.column_index, 0);
                    assert!(matches!(v, EngineValue::Integer(42)));
                }
                other => panic!("unexpected predicate: {:?}", other),
            }
        }
        other => panic!("unexpected query kind: {:?}", other),
    }
}

#[test]
fn translate_join_select() {
    let q = translate("SELECT u.name, o.amount FROM users u JOIN orders o ON u.id = o.user_id;", users_orders()).expect("translate");
    match q {
        EngineQuery::Select(SelectQuery::Full { table, projection, options, .. }) => {
            assert_eq!(table, "users");
            assert_eq!(projection.len(), 2);
            assert!(is_qc(&projection[0], "users", 1));
            assert!(is_qc(&projection[1], "orders", 2));
            assert_eq!(options.joins.len(), 1);
            let j = &options.joins[0];
            assert_eq!(j.kind, JoinKind::Inner);
            match &j.on {
                JoinOn::ColumnEq { left, right } => {
                    assert!(is_qc(left, "users", 0));
                    assert!(is_qc(right, "orders", 1));
                }
                other => panic!("unexpected join on: {:?}", other),
            }
        }
        other => panic!("unexpected query: {:?}", other),
    }
}

#[test]
fn translate_join_select_with_qualified_wildcard_projection() {
    let schemas = vec![
        table("recipes", &[("id", EngineType::Integer), ("updatedAt", EngineType::Text)]),
        table("comments", &[("id", EngineType::Integer), ("recipeId", EngineType::Integer)]),
    ];
    let q = translate(
        "SELECT t0.* FROM recipes AS t0 LEFT JOIN comments AS j1 ON t0.id = j1.recipeId ORDER BY t0.updatedAt DESC;",
        schemas,
    )
    .expect("translate");
    match q {
        EngineQuery::Select(SelectQuery::Full { table, projection, options, .. }) => {
            assert_eq!(table, "recipes");
            assert_eq!(projection.len(), 2);
            assert!(is_qc(&projection[0], "recipes", 0));
            assert!(is_qc(&projection[1], "recipes", 1));
            assert_eq!(options.joins.len(), 1);
            assert_eq!(options.joins[0].kind, JoinKind::Left);
            assert_eq!(options.order_by.len(), 1);
            assert!(is_qc(&options.order_by[0].expr, "recipes", 1));
            assert!(matches!(options.order_by[0].direction, SortDirection::Desc));
        }
        other => panic!("unexpected query: {:?}", other),
    }
}

#[test]
fn translate_select_distinct_translates() {
    let schemas = vec![table("users", &[("id", EngineType::Integer), ("city", EngineType::Text)])];
    let q = translate("SELECT DISTINCT city FROM users;", schemas).expect("translate distinct select");
    match q {
        EngineQuery::Select(SelectQuery::Full { options, .. }) => {
            assert!(options.distinct);
            assert_eq!(options.group_by.len(), 0);
        }
        other => panic!("unexpected query kind: {:?}", other),
    }
}

#[test]
fn select_group_by_aggregates_order_limit_offset() {
    let schemas = vec![table("users", &[("id", EngineType::Integer), ("city", EngineType::Text)])];
    let q = translate(
        "SELECT city, COUNT(*) AS n, SUM(id) FROM users GROUP BY city HAVING COUNT(*) > 1 AND SUM(id) <= 10 ORDER BY city DESC LIMIT 5 OFFSET 2;",
        schemas,
    )
    .expect("translate aggregate select");
    match q {
        EngineQuery::Select(SelectQuery::Full { table, projection, options, .. }) => {
            assert_eq!(table, "users");
            assert!(projection.is_empty());
            assert_eq!(options.aggregates.len(), 2);
            assert!(matches!(options.aggregates[0], Aggregate::Count(None)));
            assert!(matches!(&options.aggregates[1], Aggregate::Sum(qc) if is_qc(qc, "users", 0)));
            assert_eq!(options.group_by.len(), 1);
            assert!(is_qc(&options.group_by[0], "users", 1));
            assert_eq!(options.limit, Some(5));
            assert_eq!(options.offset, Some(2));
            match options.having {
                Some(HavingPredicate::And(a, b)) => {
                    assert!(matches!(*a, HavingPredicate::GreaterThan(RefOrAgg::AggregateIndex(0), EngineValue::Integer(1))));
                    assert!(matches!(*b, HavingPredicate::LessThanOrEquals(RefOrAgg::AggregateIndex(1), EngineValue::Integer(10))));
                }
                other => panic!("unexpected having: {:?}", other),
            }
            assert_eq!(options.order_by.len(), 1);
        }
        other => panic!("unexpected query: {:?}", other),
    }
}

#[test]
fn select_order_by_alias_of_aggregate_column() {
    let schemas = vec![table("users", &[("id", EngineType::Integer), ("city", EngineType::Text)])];
    let q = translate("SELECT MAX(id) AS top FROM users ORDER BY top", schemas).expect("translate");
    match q {
        EngineQuery::Select(SelectQuery::Full { options, .. }) => {
            assert!(matches!(&options.aggregates[0], Aggregate::Max(qc) if is_qc(qc, "users", 0)));
            assert!(is_qc(&options.order_by[0].expr, "users", 0));
            assert!(matches!(options.order_by[0].direction, SortDirection::Asc));
        }
        other => panic!("unexpected query: {:?}", other),
    }
}

#[test]
fn select_wildcard_covers_every_joined_table() {
    let q = translate("SELECT * FROM users u JOIN orders o ON u.id = o.user_id", users_orders()).expect("translate");
    match q {
        EngineQuery::Select(SelectQuery::Full { projection, .. }) => {
            assert_eq!(projection.len(), 5);
            assert!(is_qc(&projection[1], "users", 1));
            assert!(is_qc(&projection[4], "orders", 2));
        }
        other => panic!("unexpected query: {:?}", other),
    }
}

#[test]
fn select_errors() {
    let err = |sql: &str| translate(sql, users_orders()).expect_err("should fail");
    assert!(matches!(err("SELECT id FROM users, orders"), TranslateError::UnsupportedFeature(m) if m == "only single FROM with optional JOINs supported"));
    assert!(matches!(err("SELECT id FROM ghosts"), TranslateError::UnknownTable(t) if t == "ghosts"));
    assert!(matches!(err("SELECT height FROM users"), TranslateError::UnknownColumn(c) if c == "height"));
    assert!(matches!(err("SELECT LOWER(name) FROM users"), TranslateError::UnsupportedFeature(m) if m == "unsupported function: lower"));
    assert!(matches!(err("SELECT COUNT(id, name) FROM users"), TranslateError::UnsupportedFeature(m) if m == "aggregate takes one argument"));
    assert!(matches!(err("SELECT SUM(*) FROM users"), TranslateError::UnsupportedFeature(m) if m == "unsupported aggregate arg"));
    assert!(matches!(err("SELECT id FROM users LIMIT 'x'"), TranslateError::UnsupportedFeature(m) if m == "unsupported LIMIT expression"));
    assert!(matches!(err("SELECT id FROM users LIMIT 99999999999999999999999"), TranslateError::UnsupportedFeature(m) if m == "invalid LIMIT value"));
    assert!(matches!(err("SELECT id FROM users ORDER BY id + 1"), TranslateError::UnsupportedFeature(m) if m == "unsupported ORDER BY expression"));
    assert!(matches!(err("SELECT o.amount FROM users"), TranslateError::UnknownTable(t) if t == "o"));
    assert!(matches!(err("SELECT id FROM users UNION SELECT id FROM orders"), TranslateError::UnsupportedStatement));
}

#[test]
fn simple_select_rejects_column_of_other_table() {
    let err = translate("SELECT orders.id FROM users", users_orders()).expect_err("should fail");
    assert!(matches!(err, TranslateError::UnsupportedFeature(m) if m == "projection references non-base table but no JOIN present"));
}

#[test]
fn parse_and_translate_refuses_definitions() {
    assert!(matches!(translate("DROP TABLE items", items()), Err(TranslateError::UnsupportedStatement)));
    assert!(matches!(
        translate("DROP TABLE a, b", items()),
        Err(TranslateError::UnsupportedFeature(m)) if m == "DROP only supports a single object"
    ));
    assert!(matches!(translate("BEGIN", items()), Err(TranslateError::UnsupportedStatement)));
}

#[test]
fn parse_and_translate_parse_and_count_errors() {
    assert!(matches!(translate("INSERT INTO", items()), Err(TranslateError::SqlParse(_))));
    assert!(matches!(
        translate("DELETE FROM items; DELETE FROM items;", items()),
        Err(TranslateError::UnsupportedFeature(m)) if m == "only a single statement is supported"
    ));
}

/// `ASC` as `Some(true)`, `DESC` as `Some(false)`, neither as `None`.
fn sort_asc(options: &ast::OrderByOptions) -> Option<bool> {
    match options.sort {
        Some(ast::OrderBySort::Asc) => Some(true),
        Some(ast::OrderBySort::Desc) => Some(false),
        _ => None,
    }
}

#[test]
fn parse_and_translate_statement_gives_definitions_and_queries() {
    let schemas = items();
    let column = |_: &PredicateExpr, _: &Scope| -> Result<QualifiedColumn, TranslateError> { Err(TranslateError::UnsupportedStatement) };
    let resolve = |_: &SqlExpr, _: &Vec<(String, String)>, _: &Vec<usize>| -> Result<QualifiedColumn, TranslateError> {
        Err(TranslateError::UnsupportedStatement)
    };
    let query = |text: &String| -> Result<String, TranslateError> { Ok(text.clone()) };
    match parse_and_translate_statement("DROP TABLE IF EXISTS items", &schemas, lower, &resolve, &column, &value, &query) {
        Ok(CanonicalStatement::Ddl(DdlOp::DropTable(name, if_exists))) => {
            assert_eq!(name, "items");
            assert!(if_exists);
        }
        other => panic!("unexpected result: {:?}", other),
    }
    match parse_and_translate_statement("DELETE FROM items", &schemas, lower, &resolve, &column, &value, &query) {
        Ok(CanonicalStatement::Query(EngineQuery::Delete(q))) => {
            assert_eq!(q.table, "items");
            assert!(q.predicate.is_none());
        }
        other => panic!("unexpected result: {:?}", other),
    }
    assert!(matches!(
        parse_and_translate_statement("BEGIN", &schemas, lower, &resolve, &column, &value, &query),
        Err(TranslateError::UnsupportedStatement)
    ));
}

#[test]
fn having_reads_aliases_columns_and_reports_errors() {
    let schemas = || vec![table("users", &[("id", EngineType::Integer), ("city", EngineType::Text)])];
    let q = translate("SELECT city, MAX(id) AS top FROM users GROUP BY city HAVING top > 3 OR NOT city IS NULL", schemas())
        .expect("translate having");
    match q {
        EngineQuery::Select(SelectQuery::Full { options, .. }) => match options.having {
            Some(HavingPredicate::Or(a, b)) => {
                assert!(matches!(*a, HavingPredicate::GreaterThan(RefOrAgg::AggregateIndex(0), EngineValue::Integer(3))));
                match *b {
                    HavingPredicate::Not(inner) => {
                        assert!(matches!(&*inner, HavingPredicate::IsNull(RefOrAgg::Column(qc)) if is_qc(qc, "users", 1)))
                    }
                    other => panic!("unexpected having: {:?}", other),
                }
            }
            other => panic!("unexpected having: {:?}", other),
        },
        other => panic!("unexpected query: {:?}", other),
    }
    let err = |sql: &str| translate(sql, schemas()).expect_err("should fail");
    assert!(matches!(err("SELECT city FROM users GROUP BY city HAVING AVG(id) > 1"), TranslateError::UnsupportedFeature(m) if m == "unknown aggregate in HAVING"));
    assert!(matches!(err("SELECT COUNT(*) FROM users HAVING COUNT(*) > id"), TranslateError::UnsupportedFeature(m) if m == "HAVING RHS must be literal value in v1"));
    assert!(matches!(err("SELECT COUNT(*) FROM users HAVING COUNT(*) LIKE 'a'"), TranslateError::UnsupportedFeature(m) if m == "unsupported HAVING expression"));
    assert!(matches!(err("SELECT COUNT(*) FROM users HAVING COUNT(*) + 1"), TranslateError::UnsupportedFeature(m) if m == "unsupported binary operator in HAVING"));
}

fn canonical(sql: &str, schemas: Vec<EngineTableSchema>) -> Result<CanonicalStatement<String>, TranslateError> {
    let column = |e: &PredicateExpr, scope: &Scope| -> Result<QualifiedColumn, TranslateError> {
        match e {
            PredicateExpr::Identifier(n) => lookup(&schemas, &scope.aliases, &scope.known, &[n.clone()]),
            PredicateExpr::CompoundIdentifier(parts) => lookup(&schemas, &scope.aliases, &scope.known, parts),
            _ => Err(TranslateError::UnsupportedFeature("not a column".to_string())),
        }
    };
    let resolve = |e: &SqlExpr, aliases: &Vec<(String, String)>, known: &Vec<usize>| -> Result<QualifiedColumn, TranslateError> {
        match e {
            SqlExpr::Identifier(n) => lookup(&schemas, aliases, known, &[n.clone()]),
            SqlExpr::CompoundIdentifier { parts, .. } => lookup(&schemas, aliases, known, parts),
            _ => Err(TranslateError::UnsupportedFeature("not a column".to_string())),
        }
    };
    let query = |text: &String| -> Result<String, TranslateError> { Ok(text.clone()) };
    parse_and_translate_statement(sql, &schemas, lower, &resolve, &column, &value, &query)
}

#[test]
fn translate_drop_index_if_exists() {
    match canonical("DROP INDEX IF EXISTS idx_users_name;", Vec::new()).expect("drop index if exists should be accepted") {
        CanonicalStatement::Ddl(DdlOp::DropIndex(name, if_exists)) => {
            assert!(if_exists);
            assert_eq!(name, "idx_users_name");
        }
        other => panic!("unexpected statement: {:?}", other),
    }
}

#[test]
fn translate_join_select_using() {
    let q = translate("SELECT u.name, o.amount FROM users u JOIN orders o USING (id);", users_orders()).expect("translate");
    match q {
        EngineQuery::Select(SelectQuery::Full { table, projection, options, .. }) => {
            assert_eq!(table, "users");
            assert_eq!(projection.len(), 2);
            assert!(is_qc(&projection[0], "users", 1));
            assert!(is_qc(&projection[1], "orders", 2));
            assert_eq!(options.joins.len(), 1);
            let j = &options.joins[0];
            assert_eq!(j.kind, JoinKind::Inner);
            match &j.on {
                JoinOn::ColumnEq { left, right } => {
                    assert!(is_qc(left, "users", 0));
                    assert!(is_qc(right, "orders", 0));
                }
                other => panic!("unexpected join on: {:?}", other),
            }
        }
        other => panic!("unexpected query: {:?}", other),
    }
}

#[test]
fn translate_join_select_using_multiple_columns() {
    let schemas = vec![
        table("users", &[("id", EngineType::Integer), ("tenant_id", EngineType::Integer), ("name", EngineType::Text)]),
        table("orders", &[("id", EngineType::Integer), ("tenant_id", EngineType::Integer), ("amount", EngineType::Integer)]),
    ];
    let q = translate("SELECT u.name, o.amount FROM users u JOIN orders o USING (id, tenant_id);", schemas).expect("translate");
    match q {
        EngineQuery::Select(SelectQuery::Full { table, projection, options, .. }) => {
            assert_eq!(table, "users");
            assert_eq!(projection.len(), 2);
            assert!(is_qc(&projection[0], "users", 2));
            assert!(is_qc(&projection[1], "orders", 2));
            assert_eq!(options.joins.len(), 1);
            let j = &options.joins[0];
            assert_eq!(j.kind, JoinKind::Inner);
            match &j.on {
                JoinOn::ColumnEqList { pairs } => {
                    assert_eq!(pairs.len(), 2);
                    assert!(is_qc(&pairs[0].0, "users", 0));
                    assert!(is_qc(&pairs[0].1, "orders", 0));
                    assert!(is_qc(&pairs[1].0, "users", 1));
                    assert!(is_qc(&pairs[1].1, "orders", 1));
                }
                other => panic!("unexpected join on: {:?}", other),
            }
        }
        other => panic!("unexpected query: {:?}", other),
    }
}

#[test]
fn translate_group_by_aggregate_order_limit() {
    let schemas = vec![
        table("users", &[("id", EngineType::Integer), ("city", EngineType::Text)]),
        table("orders", &[("id", EngineType::Integer), ("user_id", EngineType::Integer), ("amount", EngineType::Integer)]),
    ];
    let sql = "SELECT city, COUNT(*) as cnt, SUM(o.amount) as total FROM users u JOIN orders o ON u.id = o.user_id GROUP BY city ORDER BY total DESC LIMIT 5 OFFSET 2;";
    match translate(sql, schemas).expect("translate") {
        EngineQuery::Select(SelectQuery::Full { table, projection, options, .. }) => {
            assert_eq!(table, "users");
            assert!(projection.is_empty());
            assert_eq!(options.group_by.len(), 1);
            assert_eq!(options.aggregates.len(), 2);
            assert_eq!(options.limit, Some(5));
            assert_eq!(options.offset, Some(2));
            assert!(is_qc(&options.order_by[0].expr, "orders", 2));
            assert!(matches!(options.order_by[0].direction, SortDirection::Desc));
        }
        other => panic!("unexpected query: {:?}", other),
    }
}

/// Translates with parameters: placeholders are read by the library's
/// parameter mapper, other literals as usual.
fn translate_params(sql: &str, schemas: Vec<EngineTableSchema>, params: &SqlParams) -> Result<EngineQuery<String>, TranslateError> {
    let mapper = RefCell::new(ParamsValueMapper::new(params));
    let read = |e: &PredicateExpr| -> Result<EngineValue, TranslateError> {
        match e {
            PredicateExpr::Value(text) if text.starts_with('$') || text.starts_with(':') || text.starts_with('?') => {
                mapper.borrow_mut().resolve_placeholder(text)
            }
            other => value(other),
        }
    };
    translate_with(sql, schemas, &read)
}

fn users_id_name(id: EngineType) -> Vec<EngineTableSchema> {
    vec![table("users", &[("id", id), ("name", EngineType::Text)])]
}

#[test]
fn translate_with_positional_params() {
    let params = SqlParams::from_positional(vec![EngineValue::Integer(7)]);
    match translate_params("SELECT id FROM users WHERE id = $1;", users_id_name(EngineType::Integer), &params)
        .expect("translate with positional params")
    {
        EngineQuery::Select(SelectQuery::Simple { predicate, .. }) => match predicate {
            Some(QualifiedPredicate::Equals(_, QualifiedOperand::Value(v))) => assert!(matches!(v, EngineValue::Integer(7))),
            other => panic!("unexpected predicate: {:?}", other),
        },
        other => panic!("unexpected query kind: {:?}", other),
    }
}

#[test]
fn translate_with_named_params() {
    let params = SqlParams::named(vec![("id".to_string(), EngineValue::Integer(9))]);
    match translate_params("SELECT id FROM users WHERE id = :id;", users_id_name(EngineType::Integer), &params)
        .expect("translate with named params")
    {
        EngineQuery::Select(SelectQuery::Simple { predicate, .. }) => match predicate {
            Some(QualifiedPredicate::Equals(_, QualifiedOperand::Value(v))) => assert!(matches!(v, EngineValue::Integer(9))),
            other => panic!("unexpected predicate: {:?}", other),
        },
        other => panic!("unexpected query kind: {:?}", other),
    }
}

#[test]
fn translate_insert_with_uuid_positional_param_coerces_text_to_uuid() {
    let raw_id = "550e8400-e29b-41d4-a716-446655440000";
    let params = SqlParams::from_positional(vec![EngineValue::Text(raw_id.to_string()), EngineValue::Text("Ada".to_string())]);
    match translate_params("INSERT INTO users (id, name) VALUES ($1, $2);", users_id_name(EngineType::Uuid), &params)
        .expect("translate insert with uuid params")
    {
        EngineQuery::Insert(q) => {
            let expected: [u8; 16] = [0x55, 0x0e, 0x84, 0x00, 0xe2, 0x9b, 0x41, 0xd4, 0xa7, 0x16, 0x44, 0x66, 0x55, 0x44, 0x00, 0x00];
            assert!(matches!(q.row[0], EngineValue::Uuid(b) if b == expected));
            assert!(matches!(&q.row[1], EngineValue::Text(t) if t == "Ada"));
        }
        other => panic!("unexpected query kind: {:?}", other),
    }
}

#[test]
fn translate_insert_with_invalid_uuid_positional_param_is_rejected() {
    let params = SqlParams::from_positional(vec![EngineValue::Text("not-a-uuid".to_string())]);
    let err = translate_params("INSERT INTO users (id) VALUES ($1);", users_id_name(EngineType::Uuid), &params)
        .expect_err("invalid uuid should be rejected");
    assert!(matches!(err, TranslateError::UnsupportedFeature(m) if m.contains("invalid UUID literal")));
}

#[test]
fn translate_with_mixed_param_styles_is_rejected() {
    let params = SqlParams::named(vec![("id".to_string(), EngineValue::Integer(1))]);
    let err = translate_params("SELECT id FROM users WHERE id = :id OR id = $1;", users_id_name(EngineType::Integer), &params)
        .expect_err("mixed styles should fail");
    assert!(matches!(err, TranslateError::MixedParameterStyles));
}

#[test]
fn translate_with_missing_named_param_is_rejected() {
    let err = translate_params("SELECT id FROM users WHERE id = :missing;", users_id_name(EngineType::Integer), &SqlParams::new())
        .expect_err("missing named parameter should fail");
    assert!(matches!(err, TranslateError::MissingNamedParameter(name) if name == "missing"));
}

#[test]
fn translate_with_missing_positional_param_is_rejected() {
    let err = translate_params("SELECT id FROM users WHERE id = $1;", users_id_name(EngineType::Integer), &SqlParams::new())
        .expect_err("missing positional parameter should fail");
    assert!(matches!(err, TranslateError::MissingPositionalParameter(1)));
}
