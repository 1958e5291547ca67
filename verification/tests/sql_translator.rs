use aicacia_db::query::{
    AlterIndexOperation, AlterTableOperation, DataDefinition, Query, QueryExpr, QueryExprValue,
    QueryInsertValue, QueryJoinKind, Statement, TranslateError,
};
use aicacia_db::sql_ast::{
    SqlAlterTable, SqlAlterTableOperation, SqlBinaryOperator, SqlColumnDef, SqlColumnOption,
    SqlCreateIndex, SqlCreateTable, SqlDataType, SqlDelete, SqlExpr, SqlIndexColumn, SqlInsert,
    SqlJoin, SqlJoinConstraint, SqlJoinOperator, SqlObjectName, SqlObjectNamePart, SqlObjectType,
    SqlQuery, SqlSelect, SqlSelectItem, SqlSetExpr, SqlStatement, SqlTableConstraint,
    SqlTableFactor, SqlTableObject, SqlTableWithJoins, SqlUniqueNames, SqlUpdate, SqlValue,
};
use aicacia_db::translator::SqlTranslator;
use aicacia_db::value::{Value, ValueType};
use sqlparser::ast;

// Reads sqlparser's tree into the tree the translator works on.

fn object_name(name: &ast::ObjectName) -> SqlObjectName {
    SqlObjectName {
        parts: name
            .0
            .iter()
            .map(|part| match part {
                ast::ObjectNamePart::Identifier(ident) => {
                    SqlObjectNamePart::Identifier(ident.value.clone())
                }
                ast::ObjectNamePart::Function(_) => SqlObjectNamePart::Function,
            })
            .collect(),
        debug: format!("{:?}", name),
    }
}

fn table_object(table: &ast::TableObject) -> SqlTableObject {
    match table {
        ast::TableObject::TableName(name) => SqlTableObject::TableName(object_name(name)),
        other => SqlTableObject::Other(format!("{:?}", other)),
    }
}

fn binary_operator(op: &ast::BinaryOperator) -> SqlBinaryOperator {
    match op {
        ast::BinaryOperator::Eq => SqlBinaryOperator::Eq,
        ast::BinaryOperator::NotEq => SqlBinaryOperator::NotEq,
        ast::BinaryOperator::Lt => SqlBinaryOperator::Lt,
        ast::BinaryOperator::LtEq => SqlBinaryOperator::LtEq,
        ast::BinaryOperator::Gt => SqlBinaryOperator::Gt,
        ast::BinaryOperator::GtEq => SqlBinaryOperator::GtEq,
        ast::BinaryOperator::And => SqlBinaryOperator::And,
        ast::BinaryOperator::Or => SqlBinaryOperator::Or,
        other => SqlBinaryOperator::Other(format!("{:?}", other)),
    }
}

fn value(value: &ast::Value) -> SqlValue {
    match value {
        ast::Value::Number(text, _) => SqlValue::Number {
            text: text.clone(),
            float_bits: if text.contains('.') {
                text.parse::<f64>().ok().map(f64::to_bits)
            } else {
                None
            },
        },
        ast::Value::SingleQuotedString(s) => SqlValue::SingleQuotedString(s.clone()),
        ast::Value::Boolean(b) => SqlValue::Boolean(*b),
        ast::Value::Null => SqlValue::Null,
        ast::Value::Placeholder(raw) => SqlValue::Placeholder {
            raw: raw.clone(),
            debug: format!("{:?}", value),
        },
        other => SqlValue::Other(format!("{:?}", other)),
    }
}

fn expr(e: &ast::Expr) -> SqlExpr {
    match e {
        ast::Expr::BinaryOp { left, op, right } => SqlExpr::BinaryOp {
            left: Box::new(expr(left)),
            op: binary_operator(op),
            right: Box::new(expr(right)),
        },
        ast::Expr::Identifier(ident) => SqlExpr::Identifier(ident.value.clone()),
        ast::Expr::CompoundIdentifier(idents) => SqlExpr::CompoundIdentifier {
            parts: idents.iter().map(|i| i.value.clone()).collect(),
            debug: format!("{:?}", e),
            parts_debug: format!("{:?}", idents),
        },
        ast::Expr::Nested(inner) => SqlExpr::Nested(Box::new(expr(inner))),
        ast::Expr::IsNull(inner) => SqlExpr::IsNull(Box::new(expr(inner))),
        ast::Expr::IsNotNull(inner) => SqlExpr::IsNotNull(Box::new(expr(inner))),
        ast::Expr::Value(v) => SqlExpr::Value(value(&v.value)),
        ast::Expr::Cast {
            kind: ast::CastKind::Cast,
            expr: inner,
            data_type: ast::DataType::Uuid,
            format: None,
        } => SqlExpr::CastUuid(Box::new(expr(inner))),
        ast::Expr::Cast { expr: inner, .. } => SqlExpr::Cast(Box::new(expr(inner))),
        other => SqlExpr::Other(format!("{:?}", other)),
    }
}

fn select_item(item: &ast::SelectItem) -> SqlSelectItem {
    match item {
        ast::SelectItem::UnnamedExpr(e) => SqlSelectItem::UnnamedExpr {
            expr: expr(e),
            debug: format!("{:?}", e),
        },
        ast::SelectItem::ExprWithAlias { expr: e, .. } => SqlSelectItem::ExprWithAlias {
            expr: expr(e),
            debug: format!("{:?}", e),
        },
        ast::SelectItem::Wildcard(_) => SqlSelectItem::Wildcard,
        _ => SqlSelectItem::Other,
    }
}

fn table_factor(factor: &ast::TableFactor) -> SqlTableFactor {
    match factor {
        ast::TableFactor::Table { name, alias, .. } => SqlTableFactor::Table {
            name: object_name(name),
            alias: alias.as_ref().map(|a| a.name.value.clone()),
        },
        _ => SqlTableFactor::Other,
    }
}

fn join_constraint(constraint: &ast::JoinConstraint) -> SqlJoinConstraint {
    match constraint {
        ast::JoinConstraint::On(e) => SqlJoinConstraint::On(expr(e)),
        ast::JoinConstraint::Using(_) => SqlJoinConstraint::Using,
        ast::JoinConstraint::Natural => SqlJoinConstraint::Natural,
        ast::JoinConstraint::None => SqlJoinConstraint::Missing,
    }
}

fn join(j: &ast::Join) -> SqlJoin {
    SqlJoin {
        relation: table_factor(&j.relation),
        operator: match &j.join_operator {
            ast::JoinOperator::Inner(c) => SqlJoinOperator::Inner(join_constraint(c)),
            ast::JoinOperator::Left(c) => SqlJoinOperator::Left(join_constraint(c)),
            ast::JoinOperator::Right(c) => SqlJoinOperator::Right(join_constraint(c)),
            ast::JoinOperator::FullOuter(c) => SqlJoinOperator::FullOuter(join_constraint(c)),
            _ => SqlJoinOperator::Other,
        },
    }
}

fn table_with_joins(t: &ast::TableWithJoins) -> SqlTableWithJoins {
    SqlTableWithJoins {
        relation: table_factor(&t.relation),
        joins: t.joins.iter().map(join).collect(),
    }
}

fn query(q: &ast::Query) -> SqlQuery {
    SqlQuery {
        has_with: q.with.is_some(),
        body: match q.body.as_ref() {
            ast::SetExpr::Select(select) => SqlSetExpr::Select(SqlSelect {
                from: select.from.iter().map(table_with_joins).collect(),
                projection: select.projection.iter().map(select_item).collect(),
                selection: select.selection.as_ref().map(expr),
                having: select.having.as_ref().map(expr),
            }),
            ast::SetExpr::Values(values) => SqlSetExpr::Values(
                values
                    .rows
                    .iter()
                    .map(|row| row.content.iter().map(expr).collect())
                    .collect(),
            ),
            _ => SqlSetExpr::Other,
        },
    }
}

fn data_type(t: &ast::DataType) -> SqlDataType {
    match t {
        ast::DataType::Char(_) => SqlDataType::Char,
        ast::DataType::Varchar(_) => SqlDataType::Varchar,
        ast::DataType::Text => SqlDataType::Text,
        ast::DataType::Int(_) => SqlDataType::Int,
        ast::DataType::Integer(_) => SqlDataType::Integer,
        ast::DataType::BigInt(_) => SqlDataType::BigInt,
        ast::DataType::Float(_) => SqlDataType::Float,
        ast::DataType::Double(_) => SqlDataType::Double,
        ast::DataType::Boolean => SqlDataType::Boolean,
        ast::DataType::Blob(_) => SqlDataType::Blob,
        ast::DataType::Uuid => SqlDataType::Uuid,
        ast::DataType::JSON => SqlDataType::Json,
        ast::DataType::JSONB => SqlDataType::Jsonb,
        other => SqlDataType::Other(format!("{:?}", other)),
    }
}

fn unique_names(unique: &ast::UniqueConstraint) -> SqlUniqueNames {
    SqlUniqueNames {
        name: unique.name.as_ref().map(|i| i.value.clone()),
        index_name: unique.index_name.as_ref().map(|i| i.value.clone()),
    }
}

fn column_def(column: &ast::ColumnDef) -> SqlColumnDef {
    SqlColumnDef {
        name: column.name.value.clone(),
        data_type: data_type(&column.data_type),
        options: column
            .options
            .iter()
            .map(|option| match &option.option {
                ast::ColumnOption::Default(e) => SqlColumnOption::Default(expr(e)),
                ast::ColumnOption::PrimaryKey(_) => SqlColumnOption::PrimaryKey,
                ast::ColumnOption::Unique(unique) => SqlColumnOption::Unique(unique_names(unique)),
                _ => SqlColumnOption::Other,
            })
            .collect(),
    }
}

fn index_column(column: &ast::IndexColumn) -> SqlIndexColumn {
    SqlIndexColumn {
        expr: expr(&column.column.expr),
        has_operator_class: column.operator_class.is_some(),
        has_asc: column.column.options.sort.is_some(),
        has_nulls_first: column.column.options.nulls_first.is_some(),
        has_with_fill: column.column.with_fill.is_some(),
    }
}

fn statement(s: &ast::Statement) -> SqlStatement {
    match s {
        ast::Statement::Query(q) => SqlStatement::Query(query(q)),
        ast::Statement::Insert(insert) => SqlStatement::Insert(SqlInsert {
            table: table_object(&insert.table),
            columns: insert.columns.iter().map(object_name).collect(),
            source: insert.source.as_ref().map(|q| query(q)),
            returning: insert
                .returning
                .as_ref()
                .map(|items| items.iter().map(select_item).collect()),
        }),
        ast::Statement::Update(update) => SqlStatement::Update(SqlUpdate {
            table: table_factor(&update.table.relation),
            selection: update.selection.as_ref().map(expr),
        }),
        ast::Statement::Delete(delete) => SqlStatement::Delete(SqlDelete {
            tables: delete.tables.iter().map(object_name).collect(),
            selection: delete.selection.as_ref().map(expr),
        }),
        ast::Statement::CreateTable(create) => SqlStatement::CreateTable(SqlCreateTable {
            name: object_name(&create.name),
            columns: create.columns.iter().map(column_def).collect(),
            constraints: create
                .constraints
                .iter()
                .map(|c| match c {
                    ast::TableConstraint::Unique(unique) => SqlTableConstraint::Unique {
                        names: unique_names(unique),
                        columns: unique.columns.iter().map(index_column).collect(),
                    },
                    _ => SqlTableConstraint::Other,
                })
                .collect(),
            if_not_exists: create.if_not_exists,
        }),
        ast::Statement::Drop { object_type, if_exists, names, .. } => SqlStatement::Drop {
            object_type: match object_type {
                ast::ObjectType::Table => SqlObjectType::Table,
                ast::ObjectType::Index => SqlObjectType::Index,
                other => SqlObjectType::Other(format!("{:?}", other)),
            },
            if_exists: *if_exists,
            names: names.iter().map(object_name).collect(),
        },
        ast::Statement::AlterTable(alter) => SqlStatement::AlterTable(SqlAlterTable {
            name: object_name(&alter.name),
            operations: alter
                .operations
                .iter()
                .map(|op| match op {
                    ast::AlterTableOperation::AddColumn { column_def: c, .. } => {
                        SqlAlterTableOperation::AddColumn(column_def(c))
                    }
                    _ => SqlAlterTableOperation::Other,
                })
                .collect(),
            if_exists: alter.if_exists,
        }),
        ast::Statement::CreateIndex(create) => SqlStatement::CreateIndex(SqlCreateIndex {
            name: create.name.as_ref().map(object_name),
            table_name: object_name(&create.table_name),
            columns: create.columns.iter().map(index_column).collect(),
            unique: create.unique,
            if_not_exists: create.if_not_exists,
        }),
        ast::Statement::AlterIndex { name, operation } => match operation {
            ast::AlterIndexOperation::RenameIndex { index_name } => SqlStatement::AlterIndex {
                name: object_name(name),
                new_name: object_name(index_name),
            },
        },
        other => SqlStatement::Other(format!("{:?}", other)),
    }
}

fn translate_with_params(sql: &str) -> Result<Vec<Statement>, TranslateError> {
    SqlTranslator.translate_with_params(sql, None, statement)
}

fn translate(sql: &str) -> Vec<Statement> {
    translate_with_params(sql).unwrap()
}

fn error_text(sql: &str) -> String {
    translate_with_params(sql).unwrap_err().message()
}

fn is_text(value: &Value, expected: &str) -> bool {
    matches!(value, Value::Text(text) if text == expected)
}

fn column_parts(e: &QueryExpr) -> (String, String) {
    match e {
        QueryExpr::Value(QueryExprValue::Column(column)) => {
            (column.table.clone(), column.column.clone())
        }
        other => panic!("expected a column, got {:?}", other),
    }
}

#[test]
fn translates_alter_table_add_column_with_default() {
    let statements = translate("ALTER TABLE users ADD COLUMN role TEXT DEFAULT 'member'");
    assert_eq!(statements.len(), 1);
    let Statement::DataDefinition(DataDefinition::AlterTable { table_name, operations, if_exists }) =
        &statements[0]
    else {
        panic!("expected ALTER TABLE, got {:?}", statements[0]);
    };
    assert_eq!(table_name, "users");
    assert!(!if_exists);
    assert_eq!(operations.len(), 1);
    let AlterTableOperation::AddColumn(column) = &operations[0] else {
        panic!("expected ADD COLUMN");
    };
    assert_eq!(column.name, "role");
    assert_eq!(column.value_type, ValueType::Text);
    assert!(is_text(&column.default, "member"));
    assert!(!column.primary_key);
}

#[test]
fn translates_create_index() {
    let statements = translate("CREATE UNIQUE INDEX IF NOT EXISTS users_email ON users (email)");
    assert_eq!(statements.len(), 1);
    let Statement::DataDefinition(DataDefinition::CreateIndexUnresolved {
        index_name,
        table_name,
        column_names,
        unique,
        if_not_exists,
    }) = &statements[0]
    else {
        panic!("expected CREATE INDEX, got {:?}", statements[0]);
    };
    assert_eq!(index_name, "users_email");
    assert_eq!(table_name, "users");
    assert_eq!(column_names, &vec!["email".to_string()]);
    assert!(*unique);
    assert!(*if_not_exists);
}

#[test]
fn rejects_create_index_expressions() {
    let error = error_text("CREATE INDEX users_email ON users (lower(email))");
    assert!(error.contains("bare identifier columns"));
}

#[test]
fn translates_remaining_statement_types() {
    assert!(matches!(
        translate("INSERT INTO users VALUES (1, 'Ada', TRUE, NULL) RETURNING id, *")[0],
        Statement::Query(Query::InsertValues(_))
    ));
    assert!(matches!(
        translate("UPDATE users SET name = 'Ada' WHERE id <> 1")[0],
        Statement::Query(Query::Update(_))
    ));
    let error = error_text("DELETE FROM users WHERE id <= 1");
    assert!(error.contains("No tables in DELETE"));
    assert!(matches!(
        translate("DROP INDEX IF EXISTS users_name")[0],
        Statement::DataDefinition(DataDefinition::DropIndex { .. })
    ));
    assert!(matches!(
        translate("ALTER INDEX users_name RENAME TO members_name")[0],
        Statement::DataDefinition(DataDefinition::AlterIndex { .. })
    ));
}

#[test]
fn translates_uuid_casts() {
    let uuid = uuid::Uuid::parse_str("018f0f8e-7b6d-7c4a-8f12-123456789abc").unwrap();
    let statements = translate(
        "SELECT id FROM users WHERE id = CAST('018f0f8e-7b6d-7c4a-8f12-123456789abc' AS UUID)",
    );
    let Statement::Query(Query::Select(select)) = &statements[0] else {
        panic!("expected SELECT");
    };
    let Some(QueryExpr::Equals(_, right)) = &select.predicate else {
        panic!("expected equality predicate");
    };
    match right.as_ref() {
        QueryExpr::Value(QueryExprValue::Value(Value::Uuid(bytes))) => {
            assert_eq!(bytes, uuid.as_bytes());
        }
        other => panic!("expected a UUID value, got {:?}", other),
    }
}

#[test]
fn translates_insert_columns_and_defaults() {
    let statements =
        translate("INSERT INTO users (name, id) VALUES ('Ada', DEFAULT) RETURNING id, name");
    let Statement::Query(Query::InsertValues(insert)) = &statements[0] else {
        panic!("expected INSERT VALUES");
    };
    assert_eq!(insert.columns, vec!["name", "id"]);
    assert_eq!(insert.values.len(), 2);
    assert!(matches!(&insert.values[0], QueryInsertValue::Value(v) if is_text(v, "Ada")));
    assert!(matches!(&insert.values[1], QueryInsertValue::Default));
}

#[test]
fn translates_unique_constraints_to_named_indexes() {
    let statements = translate(
        "CREATE TABLE users (id UUID PRIMARY KEY, email TEXT UNIQUE, UNIQUE (id, email))",
    );
    let Statement::DataDefinition(DataDefinition::CreateTableWithIndexes { schema, indexes, .. }) =
        &statements[0]
    else {
        panic!("expected table with indexes");
    };
    assert_eq!(schema.columns.len(), 2);
    assert_eq!(indexes.len(), 2);
    assert_eq!(indexes[0].column_indices, vec![1]);
    assert_eq!(indexes[1].column_indices, vec![0, 1]);
    assert!(indexes.iter().all(|index| index.unique));
}

#[test]
fn rejects_invalid_uuid_casts() {
    let error = error_text("SELECT id FROM users WHERE id = CAST('not-a-uuid' AS UUID)");
    assert!(error.contains("Invalid UUID literal"));
}

#[test]
fn translates_data_types_and_reports_unsupported_types() {
    assert!(matches!(
        translate(
            "CREATE TABLE values (\
                a CHAR, b VARCHAR, c TEXT, d INT, e INTEGER, f BIGINT, \
                g FLOAT, h DOUBLE, i BOOLEAN, j BLOB, k UUID, l JSON, m JSONB\
            )"
        )[0],
        Statement::DataDefinition(DataDefinition::CreateTable { .. })
    ));

    let error = error_text("CREATE TABLE values (created DATE)");
    assert!(error.contains("Unsupported column data type"));
}

#[test]
fn translates_join_kinds_and_expression_variants() {
    for sql in [
        "SELECT * FROM users u LEFT JOIN posts p ON p.user_id = u.id",
        "SELECT * FROM users u RIGHT JOIN posts p ON p.user_id = u.id",
        "SELECT * FROM users u FULL OUTER JOIN posts p ON p.user_id = u.id",
        "SELECT id, u.id, u.id + 1 FROM users u WHERE id < 1 OR id <= 2 OR id <> 3 OR id >= 4 AND active = TRUE AND name = 'Ada' AND deleted_at IS NOT NULL",
    ] {
        assert!(matches!(translate(sql)[0], Statement::Query(Query::Select(_))));
    }
}

#[test]
fn test_simple_select() {
    let sql = "SELECT u.id as user_id, u.name as username, p.created_at FROM users as u INNER JOIN posts as p ON p.user_id = u.id WHERE u.age > 30 AND p.created_at IS NULL";
    let result = translate_with_params(sql).expect("Failed to translate SQL");
    assert_eq!(result.len(), 1);

    let Statement::Query(Query::Select(select)) = &result[0] else {
        panic!("Expected SELECT statement: {:?}", result[0]);
    };
    assert_eq!(select.from.table, "users");

    assert_eq!(select.from.joins.len(), 1);
    let join = &select.from.joins[0];
    assert_eq!(join.kind, QueryJoinKind::Inner);
    assert_eq!(join.table, "posts");
    let QueryExpr::Equals(left, right) = &join.on else {
        panic!("Expected equality in JOIN condition");
    };
    assert_eq!(column_parts(left), ("posts".to_string(), "user_id".to_string()));
    assert_eq!(column_parts(right), ("users".to_string(), "id".to_string()));

    assert_eq!(select.projection.len(), 3);
    assert_eq!(select.projection[0].table, "users");
    assert_eq!(select.projection[0].column, "id");
    assert_eq!(select.projection[1].table, "users");
    assert_eq!(select.projection[1].column, "name");
    assert_eq!(select.projection[2].table, "posts");
    assert_eq!(select.projection[2].column, "created_at");

    let Some(QueryExpr::And(lhs, rhs)) = &select.predicate else {
        panic!("Expected SELECT statement with predicate: {:?}", select.predicate);
    };
    let QueryExpr::GreaterThan(age, thirty) = lhs.as_ref() else {
        panic!("Expected age > 30 in predicate");
    };
    assert_eq!(column_parts(age), ("users".to_string(), "age".to_string()));
    assert!(matches!(
        thirty.as_ref(),
        QueryExpr::Value(QueryExprValue::Value(Value::Integer(30)))
    ));
    let QueryExpr::IsNull(inner) = rhs.as_ref() else {
        panic!("Expected p.created_at IS NULL in predicate");
    };
    assert_eq!(column_parts(inner), ("posts".to_string(), "created_at".to_string()));
}

#[test]
fn uuid_casts_take_the_parsed_bytes() {
    let ok = aicacia_db::translator::uuid_cast_result(Some([5; 16]));
    assert!(matches!(ok, Ok(QueryExpr::Value(QueryExprValue::Value(Value::Uuid(b)))) if b == [5; 16]));
    let err = aicacia_db::translator::uuid_cast_result(None).unwrap_err();
    assert_eq!(err.message(), "Error: Invalid UUID literal");
}

#[test]
fn translation_stops_at_the_first_failing_statement() {
    let error = error_text("DROP INDEX a; DROP TABLE b; DROP INDEX c");
    assert!(error.contains("DROP TABLE is not supported"));
    let statements = translate("DROP INDEX a; DROP INDEX IF EXISTS c");
    assert_eq!(statements.len(), 2);
    assert!(matches!(
        &statements[1],
        Statement::DataDefinition(DataDefinition::DropIndex { index_name, if_exists: true }) if index_name == "c"
    ));
}

#[test]
fn unique_index_names_follow_table_ordinal_and_columns() {
    let statements = translate("CREATE TABLE t (a TEXT, b TEXT, UNIQUE (a, b), CONSTRAINT named UNIQUE (b))");
    let Statement::DataDefinition(DataDefinition::CreateTableWithIndexes { indexes, .. }) = &statements[0] else {
        panic!("expected table with indexes");
    };
    assert_eq!(indexes[0].name, "t_unique_0_a_b");
    assert_eq!(indexes[1].name, "named");
    assert_eq!(indexes[0].table_name, "t");
}

#[test]
fn parse_errors_carry_the_parser_message() {
    let error = error_text("SELEKT 1");
    assert!(error.starts_with("Error: sql parser error"), "{}", error);
    assert!(translate("").is_empty());
}
