use aicacia_db::engine_having::{
    aggregate_arg_matches, aggregate_name, expr_to_having_predicate, having_predicate_from_comparison, resolve_ref,
    Comparison, HavingExpr, HavingOperand, HavingPredicate, RefOrAgg,
};
use aicacia_db::engine_joins::QualifiedColumn;
use aicacia_db::engine_predicates::{PredicateExpr, Scope};
use aicacia_db::engine_select::{Aggregate, CallArg, CallArgs, FunctionCall};
use aicacia_db::engine_types::EngineValue;
use aicacia_db::placeholders::TranslateError;

fn col(index: usize) -> QualifiedColumn {
    QualifiedColumn { table: "t".to_string(), column_index: index }
}

fn empty_scope() -> Scope {
    Scope { aliases: Vec::new(), known: Vec::new() }
}

/// Reads the one column `name` of table `t`.
fn column(e: &PredicateExpr, _scope: &Scope) -> Result<QualifiedColumn, TranslateError> {
    match e {
        PredicateExpr::Identifier(n) if n == "name" || n == "value" => Ok(col(0)),
        PredicateExpr::Identifier(n) => Err(TranslateError::UnknownColumn(n.clone())),
        _ => Err(TranslateError::UnsupportedFeature("not a column".to_string())),
    }
}

fn value(e: &PredicateExpr) -> Result<EngineValue, TranslateError> {
    match e {
        PredicateExpr::Value(text) => text
            .parse::<i64>()
            .map(EngineValue::Integer)
            .map_err(|_| TranslateError::UnsupportedFeature(text.clone())),
        _ => Err(TranslateError::UnsupportedFeature("not a literal".to_string())),
    }
}

#[test]
fn having_predicate_from_comparison_builds_predicate() {
    let pred = having_predicate_from_comparison(&Comparison::Eq, RefOrAgg::Column(col(0)), EngineValue::Integer(1));
    match pred {
        HavingPredicate::Equals(r, v) => {
            match r {
                RefOrAgg::Column(qc) => assert_eq!(qc.column_index, 0),
                _ => panic!("expected column ref"),
            }
            assert!(matches!(v, EngineValue::Integer(1)));
        }
        _ => panic!("expected Equals predicate"),
    }
}

#[test]
fn expr_to_having_predicate_resolves_is_null() {
    let expr = HavingExpr::IsNull(HavingOperand::Name("name".to_string()));
    let predicate = expr_to_having_predicate(&expr, &empty_scope(), &Vec::new(), &Vec::new(), &column, &value)
        .expect("should translate HAVING expr");
    assert!(matches!(predicate, HavingPredicate::IsNull(_)));
}

#[test]
fn aggregate_name_maps_variants() {
    assert_eq!(aggregate_name(&Aggregate::Count(None)), "count");
    assert_eq!(aggregate_name(&Aggregate::Count(Some(col(0)))), "count");
    assert_eq!(aggregate_name(&Aggregate::Sum(col(0))), "sum");
    assert_eq!(aggregate_name(&Aggregate::Min(col(0))), "min");
    assert_eq!(aggregate_name(&Aggregate::Max(col(0))), "max");
    assert_eq!(aggregate_name(&Aggregate::Avg(col(0))), "avg");
}

#[test]
fn aggregate_arg_matches_covers_count_and_non_count() {
    assert!(aggregate_arg_matches(&Aggregate::Count(None), &None));
    assert!(aggregate_arg_matches(&Aggregate::Count(Some(col(0))), &Some(col(0))));
    assert!(!aggregate_arg_matches(&Aggregate::Count(Some(col(0))), &Some(col(1))));
    assert!(!aggregate_arg_matches(&Aggregate::Count(None), &Some(col(0))));
    assert!(aggregate_arg_matches(&Aggregate::Sum(col(0)), &Some(col(0))));
    assert!(!aggregate_arg_matches(&Aggregate::Sum(col(0)), &Some(col(1))));
}

#[test]
fn resolve_aggregate_ref_resolves_known_and_rejects_unknown() {
    let aggregates = vec![Aggregate::Sum(col(0))];
    let known = HavingOperand::Call(FunctionCall {
        name: "sum".to_string(),
        args: CallArgs::List(vec![CallArg::Expr(PredicateExpr::Identifier("value".to_string()))]),
    });
    let resolved = resolve_ref(&known, &empty_scope(), &aggregates, &Vec::new(), &column).expect("known aggregate should resolve");
    assert!(matches!(resolved, RefOrAgg::AggregateIndex(0)));

    let unknown = HavingOperand::Call(FunctionCall { name: "count".to_string(), args: CallArgs::List(vec![CallArg::Wildcard]) });
    let err = resolve_ref(&unknown, &empty_scope(), &aggregates, &Vec::new(), &column).expect_err("unknown aggregate should fail");
    assert!(matches!(err, TranslateError::UnsupportedFeature(_)));
}

#[test]
fn having_alias_of_aggregated_column_reads_the_aggregate() {
    let aggregates = vec![Aggregate::Count(None), Aggregate::Max(col(0))];
    let aliases = vec![("top".to_string(), col(0))];
    let r = resolve_ref(&HavingOperand::Name("top".to_string()), &empty_scope(), &aggregates, &aliases, &column).expect("alias");
    assert!(matches!(r, RefOrAgg::AggregateIndex(1)));
    let plain = vec![("n".to_string(), col(3))];
    let r = resolve_ref(&HavingOperand::Name("n".to_string()), &empty_scope(), &aggregates, &plain, &column).expect("alias");
    assert!(matches!(r, RefOrAgg::Column(qc) if qc.column_index == 3));
}
