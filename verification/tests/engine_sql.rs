use aicacia_db::engine_ddl::{
    sql_type_to_engine_type, translate_create_table, EngineColumnDef, EngineColumnOption,
    EngineColumnSchema, EngineCreateTable, EnginePrimaryKeyColumn, EngineTableConstraint,
    EngineTableSchema, SqlTypeName,
};
use aicacia_db::engine_joins::{
    parse_from_clause, parse_join_on, parse_joins, EngineJoin, EngineJoinConstraint,
    EngineJoinOperator, EngineTableFactor, EngineTableWithJoins, JoinKind, JoinOn,
    QualifiedColumn,
};
use aicacia_db::engine_statement::{
    parse_and_translate_definition, parse_single_statement, translate_drop_statement, DdlOp,
    EngineObjectType, EngineStatement,
};
use aicacia_db::engine_types::EngineType;
use aicacia_db::placeholders::TranslateError;
use aicacia_db::sql_ast::{SqlBinaryOperator, SqlExpr};
use sqlparser::ast;

fn parts(name: &ast::ObjectName) -> Vec<String> {
    name.0.iter().map(|p| p.as_ident().unwrap().value.clone()).collect()
}

fn column_type(t: &ast::DataType) -> SqlTypeName {
    match t {
        ast::DataType::Int(_) => SqlTypeName::Int,
        ast::DataType::Integer(_) => SqlTypeName::Integer,
        ast::DataType::Text => SqlTypeName::Text,
        ast::DataType::Uuid => SqlTypeName::Uuid,
        ast::DataType::JSON => SqlTypeName::Json,
        other => SqlTypeName::Other(format!("{other:?}")),
    }
}

fn statement(s: &ast::Statement) -> EngineStatement {
    match s {
        ast::Statement::CreateTable(ct) => EngineStatement::CreateTable(EngineCreateTable {
            name_parts: parts(&ct.name),
            columns: ct
                .columns
                .iter()
                .map(|c| EngineColumnDef {
                    name: c.name.value.clone(),
                    data_type: column_type(&c.data_type),
                    options: c
                        .options
                        .iter()
                        .map(|o| match &o.option {
                            ast::ColumnOption::PrimaryKey(_) => EngineColumnOption::PrimaryKey,
                            _ => EngineColumnOption::Other,
                        })
                        .collect(),
                })
                .collect(),
            constraints: ct
                .constraints
                .iter()
                .map(|c| match c {
                    ast::TableConstraint::PrimaryKey(pk) => EngineTableConstraint::PrimaryKey(
                        pk.columns
                            .iter()
                            .map(|col| match &col.column.expr {
                                ast::Expr::Identifier(i) => EnginePrimaryKeyColumn::Identifier(i.value.clone()),
                                other => EnginePrimaryKeyColumn::Other(format!("{other:?}")),
                            })
                            .collect(),
                    ),
                    _ => EngineTableConstraint::Other,
                })
                .collect(),
            if_not_exists: ct.if_not_exists,
        }),
        ast::Statement::Drop { object_type, names, if_exists, .. } => EngineStatement::Drop {
            object_type: match object_type {
                ast::ObjectType::Table => EngineObjectType::Table,
                ast::ObjectType::Index => EngineObjectType::Index,
                _ => EngineObjectType::Other,
            },
            names: names.iter().map(parts).collect(),
            if_exists: *if_exists,
        },
        _ => EngineStatement::Other,
    }
}

fn parse_and_translate_statement(sql: &str) -> Result<DdlOp, TranslateError> {
    parse_and_translate_definition(sql, statement)
}

fn feature_message(e: TranslateError) -> String {
    match e {
        TranslateError::UnsupportedFeature(m) => m,
        other => panic!("unexpected error: {:?}", other),
    }
}

#[test]
fn translate_create_table_requires_uuid_primary_key() {
    let err = parse_and_translate_statement("CREATE TABLE users (id INT PRIMARY KEY, name TEXT);")
        .expect_err("int primary key should be rejected");
    assert!(matches!(
        err,
        TranslateError::UnsupportedFeature(message)
        if message.contains("PRIMARY KEY column must use UUID type")
    ));
}

#[test]
fn translate_create_table_accepts_uuid_primary_key() {
    let statement = parse_and_translate_statement("CREATE TABLE users (id UUID PRIMARY KEY, name TEXT);")
        .expect("uuid primary key should be accepted");
    match statement {
        DdlOp::CreateTable(table, _) => {
            assert_eq!(table.primary_key, vec![0]);
            assert_eq!(table.columns[0].data_type, EngineType::Uuid);
        }
        other => panic!("unexpected statement: {:?}", other),
    }
}

#[test]
fn translate_create_table_preserves_unquoted_table_name() {
    let statement =
        parse_and_translate_statement(r#"CREATE TABLE "userSettings" (id UUID PRIMARY KEY, theme TEXT);"#)
            .expect("quoted table name should be accepted");
    match statement {
        DdlOp::CreateTable(table, _) => {
            assert_eq!(table.name, "userSettings");
        }
        other => panic!("unexpected statement: {:?}", other),
    }
}

#[test]
fn translate_create_table_requires_primary_key() {
    let err = parse_and_translate_statement("CREATE TABLE users (id UUID, name TEXT);")
        .expect_err("CREATE TABLE without PRIMARY KEY should be rejected");
    assert!(matches!(
        err,
        TranslateError::UnsupportedFeature(message)
        if message.contains("CREATE TABLE must define exactly one PRIMARY KEY column")
    ));
}

#[test]
fn translate_create_table_rejects_composite_primary_key() {
    let err = parse_and_translate_statement("CREATE TABLE users (id UUID, name TEXT, PRIMARY KEY (id, name));")
        .expect_err("composite primary key should be rejected");
    assert!(matches!(
        err,
        TranslateError::UnsupportedFeature(message)
        if message.contains("CREATE TABLE must define exactly one PRIMARY KEY column")
    ));
}

#[test]
fn create_table_with_table_level_key_and_if_not_exists() {
    let op = parse_and_translate_statement(
        "CREATE TABLE IF NOT EXISTS s.docs (body JSON, n INTEGER, id UUID, PRIMARY KEY (id));",
    )
    .unwrap();
    match op {
        DdlOp::CreateTable(table, if_not_exists) => {
            assert!(if_not_exists);
            assert_eq!(table.name, "s.docs");
            assert_eq!(table.columns.len(), 3);
            assert_eq!(table.columns[0].name, "body");
            assert_eq!(table.columns[0].data_type, EngineType::Json);
            assert_eq!(table.columns[1].data_type, EngineType::Integer);
            assert_eq!(table.primary_key, vec![2]);
        }
        other => panic!("unexpected statement: {:?}", other),
    }
}

#[test]
fn create_table_reports_unknown_types_and_missing_key_columns() {
    let err = parse_and_translate_statement("CREATE TABLE t (id UUID PRIMARY KEY, at TIMESTAMP);").unwrap_err();
    assert!(feature_message(err).starts_with("unsupported CREATE TABLE data type: "));
    let err = parse_and_translate_statement("CREATE TABLE t (id UUID, PRIMARY KEY (other));").unwrap_err();
    assert_eq!(feature_message(err), "CREATE TABLE primary key columns not found");
}

#[test]
fn create_table_duplicate_key_names_count_once_per_position() {
    let table = EngineCreateTable {
        name_parts: vec!["t".to_string()],
        columns: vec![EngineColumnDef {
            name: "id".to_string(),
            data_type: SqlTypeName::Uuid,
            options: vec![EngineColumnOption::PrimaryKey],
        }],
        constraints: vec![EngineTableConstraint::PrimaryKey(vec![EnginePrimaryKeyColumn::Identifier(
            "id".to_string(),
        )])],
        if_not_exists: false,
    };
    let err = translate_create_table(&table).unwrap_err();
    assert_eq!(feature_message(err), "CREATE TABLE must define exactly one PRIMARY KEY column");
}

#[test]
fn sql_types_map_to_engine_types() {
    assert_eq!(sql_type_to_engine_type(&SqlTypeName::BigInt).unwrap(), EngineType::Integer);
    assert_eq!(sql_type_to_engine_type(&SqlTypeName::UInt256).unwrap(), EngineType::Integer);
    assert_eq!(sql_type_to_engine_type(&SqlTypeName::Float64).unwrap(), EngineType::Float);
    assert_eq!(sql_type_to_engine_type(&SqlTypeName::Varchar).unwrap(), EngineType::Text);
    assert_eq!(sql_type_to_engine_type(&SqlTypeName::StringType).unwrap(), EngineType::Text);
    assert_eq!(sql_type_to_engine_type(&SqlTypeName::Json).unwrap(), EngineType::Json);
    assert_eq!(sql_type_to_engine_type(&SqlTypeName::Uuid).unwrap(), EngineType::Uuid);
    assert_eq!(sql_type_to_engine_type(&SqlTypeName::Bytes).unwrap(), EngineType::Blob);
    let err = sql_type_to_engine_type(&SqlTypeName::Other("Boolean".to_string())).unwrap_err();
    assert_eq!(feature_message(err), "unsupported CREATE TABLE data type: Boolean");
}

#[test]
fn drop_statements() {
    match parse_and_translate_statement("DROP TABLE IF EXISTS users;").unwrap() {
        DdlOp::DropTable(name, if_exists) => {
            assert_eq!(name, "users");
            assert!(if_exists);
        }
        other => panic!("unexpected statement: {:?}", other),
    }
    match parse_and_translate_statement("DROP INDEX idx_users_name;").unwrap() {
        DdlOp::DropIndex(name, if_exists) => {
            assert_eq!(name, "idx_users_name");
            assert!(!if_exists);
        }
        other => panic!("unexpected statement: {:?}", other),
    }
    let err = translate_drop_statement(&EngineObjectType::Table, &vec![vec!["a".to_string()], vec!["b".to_string()]], false)
        .unwrap_err();
    assert_eq!(feature_message(err), "DROP only supports a single object");
    assert!(matches!(
        translate_drop_statement(&EngineObjectType::Other, &vec![vec!["v".to_string()]], false),
        Err(TranslateError::UnsupportedStatement)
    ));
}

#[test]
fn parse_errors_and_statement_counts() {
    assert!(matches!(parse_single_statement("SELEC nonsense"), Err(TranslateError::SqlParse(_))));
    let err = parse_single_statement("DROP TABLE a; DROP TABLE b;").unwrap_err();
    assert_eq!(feature_message(err), "only a single statement is supported");
    let err = parse_single_statement("").unwrap_err();
    assert_eq!(feature_message(err), "only a single statement is supported");
    assert!(parse_single_statement("DROP TABLE a").is_ok());
    assert!(matches!(
        parse_and_translate_statement("SELECT 1"),
        Err(TranslateError::UnsupportedStatement)
    ));
    assert!(matches!(
        parse_and_translate_definition("DROP TABLE a", |_s: &ast::Statement| EngineStatement::Other),
        Err(TranslateError::UnsupportedStatement)
    ));
}

fn schema(name: &str, columns: &[(&str, EngineType)]) -> EngineTableSchema {
    EngineTableSchema {
        name: name.to_string(),
        columns: columns
            .iter()
            .map(|(n, t)| EngineColumnSchema { name: n.to_string(), data_type: *t })
            .collect(),
        primary_key: vec![0],
    }
}

fn catalog() -> Vec<EngineTableSchema> {
    vec![
        schema("users", &[("id", EngineType::Uuid), ("tenant_id", EngineType::Integer), ("name", EngineType::Text)]),
        schema("orders", &[("id", EngineType::Uuid), ("tenant_id", EngineType::Integer), ("amount", EngineType::Integer)]),
    ]
}

fn table(name: &str, alias: Option<&str>) -> EngineTableFactor {
    EngineTableFactor::Table { name_parts: vec![name.to_string()], alias: alias.map(|a| a.to_string()) }
}

/// Reads `alias.column` against the aliases and known tables.
fn resolve(
    e: &SqlExpr,
    aliases: &Vec<(String, String)>,
    known: &Vec<usize>,
) -> Result<QualifiedColumn, TranslateError> {
    let schemas = catalog();
    match e {
        SqlExpr::CompoundIdentifier { parts, .. } if parts.len() == 2 => {
            let table = aliases
                .iter()
                .rev()
                .find(|(a, _)| a == &parts[0])
                .map(|(_, t)| t.clone())
                .ok_or_else(|| TranslateError::UnknownTable(parts[0].clone()))?;
            let idx = known.iter().rev().find(|k| schemas[**k].name == table).unwrap();
            let column_index = schemas[*idx]
                .columns
                .iter()
                .position(|c| c.name == parts[1])
                .ok_or_else(|| TranslateError::UnknownColumn(parts[1].clone()))?;
            Ok(QualifiedColumn { table, column_index })
        }
        _ => Err(TranslateError::UnsupportedFeature("unsupported column".to_string())),
    }
}

fn qualified(alias: &str, column: &str) -> Box<SqlExpr> {
    Box::new(SqlExpr::CompoundIdentifier {
        parts: vec![alias.to_string(), column.to_string()],
        debug: String::new(),
        parts_debug: String::new(),
    })
}

#[test]
fn joins_using_and_on() {
    let schemas = catalog();
    let from = EngineTableWithJoins {
        relation: table("users", Some("u")),
        joins: vec![EngineJoin {
            relation: table("orders", Some("o")),
            operator: EngineJoinOperator::Join(EngineJoinConstraint::Using(vec![
                vec!["id".to_string()],
                vec!["tenant_id".to_string()],
            ])),
        }],
    };
    let mut aliases = Vec::new();
    let mut tables = Vec::new();
    let mut known = Vec::new();
    let base = parse_from_clause(&from, &schemas, &mut aliases, &mut tables, &mut known).unwrap();
    assert_eq!(base, "users");
    let joins = parse_joins(&from.joins, &mut aliases, &mut tables, &mut known, &schemas, &base, &resolve).unwrap();
    assert_eq!(joins.len(), 1);
    let j = &joins[0];
    assert_eq!(j.kind, JoinKind::Inner);
    assert_eq!(j.left_table, "users");
    assert_eq!(j.right_table, "orders");
    match &j.on {
        JoinOn::ColumnEqList { pairs } => {
            assert_eq!(pairs.len(), 2);
            assert_eq!((pairs[0].0.table.as_str(), pairs[0].0.column_index), ("users", 0));
            assert_eq!((pairs[0].1.table.as_str(), pairs[0].1.column_index), ("orders", 0));
            assert_eq!(pairs[1].1.column_index, 1);
        }
        other => panic!("unexpected join: {:?}", other),
    }
    assert_eq!(aliases, vec![("u".to_string(), "users".to_string()), ("o".to_string(), "orders".to_string())]);
    assert_eq!(tables, vec!["users".to_string(), "orders".to_string()]);
    assert_eq!(known, vec![0, 1]);

    let on = EngineJoinConstraint::On(SqlExpr::BinaryOp {
        left: qualified("u", "id"),
        op: SqlBinaryOperator::Eq,
        right: qualified("o", "amount"),
    });
    match parse_join_on(&on, &aliases, &schemas, &known, "users", "orders", &resolve).unwrap() {
        JoinOn::ColumnEq { left, right } => {
            assert_eq!((left.table.as_str(), left.column_index), ("users", 0));
            assert_eq!((right.table.as_str(), right.column_index), ("orders", 2));
        }
        other => panic!("unexpected join: {:?}", other),
    }
    let lt = EngineJoinConstraint::On(SqlExpr::BinaryOp {
        left: qualified("u", "id"),
        op: SqlBinaryOperator::Lt,
        right: qualified("o", "id"),
    });
    let err = parse_join_on(&lt, &aliases, &schemas, &known, "users", "orders", &resolve).unwrap_err();
    assert_eq!(feature_message(err), "only equality ON joins supported");
    let single = EngineJoinConstraint::Using(vec![vec!["id".to_string()]]);
    assert!(matches!(
        parse_join_on(&single, &aliases, &schemas, &known, "users", "orders", &resolve).unwrap(),
        JoinOn::ColumnEq { .. }
    ));
}

#[test]
fn join_errors() {
    let schemas = catalog();
    let mut aliases = Vec::new();
    let mut tables = Vec::new();
    let mut known = vec![0];
    let missing = vec![EngineJoin {
        relation: table("payments", None),
        operator: EngineJoinOperator::Left(EngineJoinConstraint::Other),
    }];
    assert!(matches!(
        parse_joins(&missing, &mut aliases, &mut tables, &mut known, &schemas, "users", &resolve),
        Err(TranslateError::UnknownTable(t)) if t == "payments"
    ));
    let mut known = vec![0];
    let bad_column = vec![EngineJoin {
        relation: table("orders", None),
        operator: EngineJoinOperator::FullOuter(EngineJoinConstraint::Using(vec![vec!["name".to_string()]])),
    }];
    assert!(matches!(
        parse_joins(&bad_column, &mut Vec::new(), &mut Vec::new(), &mut known, &schemas, "users", &resolve),
        Err(TranslateError::UnknownColumn(c)) if c == "name"
    ));
    let other = vec![EngineJoin { relation: table("orders", None), operator: EngineJoinOperator::Other }];
    let err = parse_joins(&other, &mut Vec::new(), &mut Vec::new(), &mut vec![0], &schemas, "users", &resolve)
        .unwrap_err();
    assert_eq!(feature_message(err), "unsupported join operator");
    let from = EngineTableWithJoins { relation: EngineTableFactor::Other, joins: Vec::new() };
    let err = parse_from_clause(&from, &schemas, &mut Vec::new(), &mut Vec::new(), &mut Vec::new()).unwrap_err();
    assert_eq!(feature_message(err), "unsupported table factor");
}
