use influxql_rewrite::ast::{
    BinaryOperator, Call, Dimension, Expr, ExprList, Field, Literal, MeasurementSelection,
    SelectStatement, VarRef, VarRefDataType,
};
use influxql_rewrite::error::Error;
use influxql_rewrite::field_checker::{select_statement_info, ProjectionType};
use influxql_rewrite::ir::Select;
use influxql_rewrite::rewriter::map_select;
use influxql_rewrite::schema::{ColumnType, Schemas, TableSchema};

fn var(name: &str) -> Expr {
    Expr::VarRef(VarRef { name: name.to_string(), data_type: None })
}

fn args(v: Vec<Expr>) -> ExprList {
    let mut list = ExprList::Empty;
    for e in v.into_iter().rev() {
        list = ExprList::Item(Box::new(e), Box::new(list));
    }
    list
}

fn call(name: &str, a: Vec<Expr>) -> Expr {
    Expr::Call(Call { name: name.to_string(), args: args(a) })
}

fn int_lit(v: i64) -> Expr {
    Expr::Literal(Literal::Integer(v))
}

fn strlit(v: &str) -> Expr {
    Expr::Literal(Literal::Str(v.to_string()))
}

fn dur(ns: i64) -> Expr {
    Expr::Literal(Literal::Duration(ns))
}

fn relit(p: &str) -> Expr {
    Expr::Literal(Literal::Regex(p.to_string()))
}

fn field(e: Expr) -> Field {
    Field { expr: e, alias: None }
}

fn schemas() -> Schemas {
    let mut s = Schemas::new();
    let mut t = TableSchema::new("cpu".to_string());
    assert!(t.add_column("host".to_string(), ColumnType::Tag));
    assert!(t.add_column("usage_idle".to_string(), ColumnType::Field(VarRefDataType::Float)));
    assert!(s.add_table(t));
    s
}

fn select(fields: Vec<Field>, group_by_time: bool) -> Select {
    let stmt = SelectStatement {
        fields,
        from: vec![MeasurementSelection::Name("cpu".to_string())],
        condition: None,
        group_by: if group_by_time {
            Some(vec![Dimension::Time { interval: Box::new(dur(10_000_000_000)), offset: None }])
        } else {
            None
        },
        fill: None,
        order_by: None,
        limit: None,
        offset: None,
        series_limit: None,
        series_offset: None,
        timezone: None,
    };
    map_select(&schemas(), &stmt).unwrap()
}

fn expect_ok(fields: Vec<Field>, group_by_time: bool) -> ProjectionType {
    select_statement_info(&select(fields, group_by_time)).unwrap().projection_type
}

fn expect_planning(fields: Vec<Field>, group_by_time: bool, msg: &str) {
    let err = select_statement_info(&select(fields, group_by_time)).unwrap_err();
    match err {
        Error::Planning(m) => assert_eq!(m, msg),
        other => panic!("wrong error category: {:?}", other),
    }
}

#[test]
fn test_select_statement_info() {
    let info = expect_ok(vec![field(var("foo")), field(var("bar"))], false);
    assert!(matches!(info, ProjectionType::Raw));

    let info = expect_ok(vec![field(call("distinct", vec![var("foo")]))], false);
    assert!(matches!(info, ProjectionType::RawDistinct));

    let info = expect_ok(vec![field(call("last", vec![var("foo")]))], false);
    assert!(matches!(info, ProjectionType::Selector { has_fields: false }));

    let info = expect_ok(vec![field(call("last", vec![var("foo")])), field(var("bar"))], false);
    assert!(matches!(info, ProjectionType::Selector { has_fields: true }));

    let info = expect_ok(vec![field(call("last", vec![var("foo")]))], true);
    assert!(matches!(info, ProjectionType::Aggregate));

    let info = expect_ok(
        vec![field(call("last", vec![var("foo")])), field(call("first", vec![var("foo")]))],
        false,
    );
    assert!(matches!(info, ProjectionType::Aggregate));

    let info = expect_ok(vec![field(call("count", vec![var("foo")]))], false);
    assert!(matches!(info, ProjectionType::Aggregate));

    let info = expect_ok(vec![field(call("top", vec![var("foo"), int_lit(3)]))], false);
    assert!(matches!(info, ProjectionType::TopBottomSelector));
}

#[test]
fn test_select_statement_info_functions() {
    // percentile
    expect_ok(vec![field(call("percentile", vec![var("foo"), int_lit(2)]))], false);
    expect_planning(
        vec![field(call("percentile", vec![var("foo")]))],
        false,
        "invalid number of arguments for percentile, expected 2, got 1",
    );
    expect_planning(
        vec![field(call("percentile", vec![strlit("foo"), relit("a")]))],
        false,
        "expected number for percentile(), got Literal(Regex(Regex(\"a\")))",
    );

    // sample
    expect_ok(vec![field(call("sample", vec![var("foo"), int_lit(2)]))], false);
    expect_planning(
        vec![field(call("sample", vec![var("foo")]))],
        false,
        "invalid number of arguments for sample, expected 2, got 1",
    );
    expect_planning(
        vec![field(call("sample", vec![var("foo"), int_lit(-2)]))],
        false,
        "sample window must be greater than 1, got -2",
    );

    // distinct
    expect_ok(vec![field(call("distinct", vec![var("foo")]))], false);
    expect_planning(
        vec![field(call("distinct", vec![var("foo"), int_lit(1)]))],
        false,
        "invalid number of arguments for distinct, expected 1, got 2",
    );
    expect_planning(
        vec![field(call("distinct", vec![call("sum", vec![var("foo")])]))],
        false,
        "expected field argument in distinct()",
    );
    expect_planning(
        vec![
            field(call("distinct", vec![var("foo")])),
            field(call("distinct", vec![var("bar")])),
        ],
        false,
        "aggregate function distinct() cannot be combined with other functions or fields",
    );

    // top and bottom
    expect_ok(vec![field(call("top", vec![var("foo"), int_lit(3)]))], false);
    expect_ok(vec![field(call("bottom", vec![var("foo"), int_lit(3)]))], false);
    expect_ok(vec![field(call("top", vec![var("foo"), int_lit(3)])), field(var("bar"))], false);
    expect_ok(vec![field(call("top", vec![var("foo"), var("bar"), int_lit(3)]))], false);
    expect_planning(
        vec![field(call("top", vec![var("foo")]))],
        false,
        "invalid number of arguments for top, expected at least 2, got 1",
    );
    expect_planning(
        vec![field(call("bottom", vec![var("foo")]))],
        false,
        "invalid number of arguments for bottom, expected at least 2, got 1",
    );
    expect_planning(
        vec![field(call("top", vec![var("foo"), int_lit(-2)]))],
        false,
        "limit (-2) for top must be greater than 0",
    );
    expect_planning(
        vec![field(call("top", vec![var("foo"), var("bar")]))],
        false,
        "expected integer as last argument for top, got VarRef(VarRef { name: Identifier(\"bar\"), data_type: None })",
    );
    expect_planning(
        vec![field(call("top", vec![strlit("foo"), int_lit(3)]))],
        false,
        "expected first argument to be a field for top",
    );
    expect_planning(
        vec![field(call("top", vec![var("foo"), int_lit(2), int_lit(3)]))],
        false,
        "only fields or tags are allow for top(), got Literal(Integer(2))",
    );
    expect_planning(
        vec![
            field(call("top", vec![var("foo"), int_lit(2)])),
            field(call("mean", vec![var("bar")])),
        ],
        false,
        "selector functions top and bottom cannot be combined with other functions",
    );

    // derivative
    expect_ok(vec![field(call("derivative", vec![var("foo")]))], false);
    expect_ok(vec![field(call("derivative", vec![var("foo"), dur(2_000_000_000)]))], false);
    expect_ok(
        vec![field(call("derivative", vec![call("mean", vec![var("foo")])]))],
        true,
    );
    expect_planning(
        vec![field(call("derivative", vec![var("foo"), int_lit(2)]))],
        false,
        "second argument to derivative must be a duration, got Literal(Integer(2))",
    );
    expect_planning(
        vec![field(call("derivative", vec![var("foo"), dur(-2_000_000_000)]))],
        false,
        "duration argument must be positive, got -2s",
    );
    expect_planning(
        vec![field(call("derivative", vec![var("foo"), dur(2_000_000_000), int_lit(1)]))],
        false,
        "invalid number of arguments for derivative, expected at least 1 but no more than 2, got 3",
    );
    expect_planning(
        vec![field(call("derivative", vec![var("foo")]))],
        true,
        "aggregate function required inside the call to derivative",
    );

    // elapsed
    expect_ok(vec![field(call("elapsed", vec![var("foo")]))], false);
    expect_ok(vec![field(call("elapsed", vec![var("foo"), dur(5_000_000_000)]))], false);
    expect_planning(
        vec![field(call("elapsed", vec![var("foo"), int_lit(2)]))],
        false,
        "second argument to elapsed must be a duration, got Literal(Integer(2))",
    );
    expect_planning(
        vec![field(call("elapsed", vec![var("foo"), dur(-2_000_000_000)]))],
        false,
        "duration argument must be positive, got -2s",
    );

    // difference and non_negative_difference
    expect_ok(vec![field(call("difference", vec![var("foo")]))], false);
    expect_ok(vec![field(call("non_negative_difference", vec![var("foo")]))], false);
    expect_planning(
        vec![field(call("difference", vec![var("foo"), int_lit(2)]))],
        false,
        "invalid number of arguments for difference, expected 1, got 2",
    );

    // cumulative_sum
    expect_ok(vec![field(call("cumulative_sum", vec![var("foo")]))], false);
    expect_planning(
        vec![field(call("cumulative_sum", vec![var("foo"), int_lit(2)]))],
        false,
        "invalid number of arguments for cumulative_sum, expected 1, got 2",
    );

    // moving_average
    expect_ok(vec![field(call("moving_average", vec![var("foo"), int_lit(2)]))], false);
    expect_planning(
        vec![field(call("moving_average", vec![var("foo"), var("bar"), int_lit(3)]))],
        false,
        "invalid number of arguments for moving_average, expected 2, got 3",
    );
    expect_planning(
        vec![field(call("moving_average", vec![var("foo"), int_lit(1)]))],
        false,
        "moving_average window must be greater than 1, got 1",
    );

    // the exponential moving average family
    expect_ok(vec![field(call("exponential_moving_average", vec![var("foo"), int_lit(2)]))], false);
    expect_ok(
        vec![field(call("exponential_moving_average", vec![var("foo"), int_lit(2), int_lit(3)]))],
        false,
    );
    expect_ok(
        vec![field(call("exponential_moving_average", vec![var("foo"), int_lit(2), int_lit(-1)]))],
        false,
    );
    expect_ok(
        vec![field(call(
            "exponential_moving_average",
            vec![var("foo"), int_lit(2), int_lit(3), strlit("exponential")],
        ))],
        false,
    );
    expect_ok(
        vec![field(call(
            "exponential_moving_average",
            vec![var("foo"), int_lit(2), int_lit(3), strlit("simple")],
        ))],
        false,
    );
    expect_ok(
        vec![field(call("double_exponential_moving_average", vec![var("foo"), int_lit(2)]))],
        false,
    );
    expect_ok(
        vec![field(call("triple_exponential_moving_average", vec![var("foo"), int_lit(2)]))],
        false,
    );
    expect_ok(vec![field(call("relative_strength_index", vec![var("foo"), int_lit(2)]))], false);
    expect_ok(
        vec![field(call("triple_exponential_derivative", vec![var("foo"), int_lit(2)]))],
        false,
    );
    expect_planning(
        vec![field(call("exponential_moving_average", vec![var("foo")]))],
        false,
        "invalid number of arguments for exponential_moving_average, expected at least 2 but no more than 4, got 1",
    );
    expect_planning(
        vec![field(call(
            "exponential_moving_average",
            vec![var("foo"), int_lit(2), int_lit(3), strlit("bad")],
        ))],
        false,
        "exponential_moving_average warmup type must be one of: 'exponential', 'simple', got bad",
    );
    expect_planning(
        vec![field(call(
            "exponential_moving_average",
            vec![var("foo"), int_lit(2), int_lit(3), int_lit(4)],
        ))],
        false,
        "expected string argument in exponential_moving_average()",
    );
    expect_planning(
        vec![field(call("exponential_moving_average", vec![var("foo"), int_lit(2), int_lit(-2)]))],
        false,
        "exponential_moving_average hold period must be greater than or equal to 0",
    );
    expect_planning(
        vec![field(call("triple_exponential_derivative", vec![var("foo"), int_lit(2), int_lit(0)]))],
        false,
        "triple_exponential_derivative hold period must be greater than or equal to 1",
    );

    // the Kaufman family
    expect_ok(vec![field(call("kaufmans_efficiency_ratio", vec![var("foo"), int_lit(2)]))], false);
    expect_ok(
        vec![field(call("kaufmans_adaptive_moving_average", vec![var("foo"), int_lit(2)]))],
        false,
    );
    expect_planning(
        vec![field(call("kaufmans_efficiency_ratio", vec![var("foo")]))],
        false,
        "invalid number of arguments for kaufmans_efficiency_ratio, expected at least 2 but no more than 3, got 1",
    );
    expect_planning(
        vec![field(call("kaufmans_efficiency_ratio", vec![var("foo"), int_lit(2), int_lit(-2)]))],
        false,
        "kaufmans_efficiency_ratio hold period must be greater than or equal to 0",
    );

    // chande_momentum_oscillator
    expect_ok(vec![field(call("chande_momentum_oscillator", vec![var("foo"), int_lit(2)]))], false);
    expect_ok(
        vec![field(call("chande_momentum_oscillator", vec![var("foo"), int_lit(2), int_lit(3)]))],
        false,
    );
    expect_ok(
        vec![field(call(
            "chande_momentum_oscillator",
            vec![var("foo"), int_lit(2), int_lit(3), strlit("none")],
        ))],
        false,
    );
    expect_ok(
        vec![field(call(
            "chande_momentum_oscillator",
            vec![var("foo"), int_lit(2), int_lit(3), strlit("exponential")],
        ))],
        false,
    );
    expect_ok(
        vec![field(call(
            "chande_momentum_oscillator",
            vec![var("foo"), int_lit(2), int_lit(3), strlit("simple")],
        ))],
        false,
    );
    expect_planning(
        vec![field(call("chande_momentum_oscillator", vec![var("foo")]))],
        false,
        "invalid number of arguments for chande_momentum_oscillator, expected at least 2 but no more than 4, got 1",
    );
    expect_planning(
        vec![field(call(
            "chande_momentum_oscillator",
            vec![var("foo"), int_lit(2), int_lit(3), strlit("bad")],
        ))],
        false,
        "chande_momentum_oscillator warmup type must be one of: 'none', 'exponential' or 'simple', got bad",
    );

    // integral
    expect_ok(vec![field(call("integral", vec![var("foo")]))], false);
    expect_ok(vec![field(call("integral", vec![var("foo"), dur(2_000_000_000)]))], false);
    expect_planning(
        vec![field(call("integral", vec![var("foo"), dur(-2_000_000_000)]))],
        false,
        "duration argument must be positive, got -2s",
    );
    expect_planning(
        vec![field(call("integral", vec![var("foo"), int_lit(2)]))],
        false,
        "second argument to integral must be a duration, got Literal(Integer(2))",
    );

    // count_hll
    let err = select_statement_info(&select(
        vec![field(call("count_hll", vec![var("foo")]))],
        false,
    ))
        .unwrap_err();
    assert!(matches!(err, Error::NotImplemented(_)));

    // holt_winters and holt_winters_with_fit
    expect_ok(
        vec![field(call(
            "holt_winters",
            vec![call("mean", vec![var("foo")]), int_lit(2), int_lit(3)],
        ))],
        true,
    );
    expect_ok(
        vec![field(call(
            "holt_winters_with_fit",
            vec![call("sum", vec![var("foo")]), int_lit(2), int_lit(3)],
        ))],
        true,
    );
    expect_planning(
        vec![field(call(
            "holt_winters",
            vec![call("sum", vec![var("foo")]), int_lit(2), int_lit(3)],
        ))],
        false,
        "holt_winters aggregate requires a GROUP BY interval",
    );
    expect_planning(
        vec![field(call("holt_winters", vec![var("foo"), int_lit(2), int_lit(3)]))],
        true,
        "must use aggregate function with holt_winters",
    );
    expect_planning(
        vec![field(call("holt_winters", vec![call("sum", vec![var("foo")]), int_lit(2)]))],
        true,
        "invalid number of arguments for holt_winters, expected 3, got 2",
    );
    expect_planning(
        vec![field(call("holt_winters", vec![var("foo"), int_lit(0), int_lit(3)]))],
        true,
        "holt_winters N argument must be greater than 0, got 0",
    );
    expect_planning(
        vec![field(call("holt_winters", vec![var("foo"), int_lit(1), int_lit(-3)]))],
        true,
        "holt_winters S argument cannot be negative, got -3",
    );

    // one-operand selectors and aggregates
    for name in [
        "max", "min", "first", "last", "count", "sum", "mean", "median", "mode", "stddev",
        "spread", "sum_hll",
    ] {
        expect_ok(vec![field(call(name, vec![var("foo")]))], false);
        let exp = format!("invalid number of arguments for {name}, expected 1, got 2");
        expect_planning(vec![field(call(name, vec![var("foo"), int_lit(2)]))], false, &exp);
    }

    // count over a nested distinct
    expect_ok(
        vec![field(call("count", vec![call("distinct", vec![var("foo")])]))],
        false,
    );
    expect_planning(
        vec![field(call("count", vec![call("distinct", vec![strlit("foo")])]))],
        false,
        "expected field argument in distinct()",
    );

    // scalar math
    expect_ok(vec![field(call("abs", vec![var("usage_idle")]))], false);
    expect_planning(
        vec![field(call("abs", vec![var("foo"), int_lit(2)]))],
        false,
        "invalid number of arguments for abs, expected 1, got 2",
    );
    expect_planning(
        vec![field(call("pow", vec![var("foo"), int_lit(2), int_lit(3)]))],
        false,
        "invalid number of arguments for pow, expected 2, got 3",
    );

    // binary expressions over literals alone
    expect_planning(
        vec![field(Expr::Binary(influxql_rewrite::ast::Binary {
            lhs: Box::new(int_lit(1)),
            op: BinaryOperator::Add,
            rhs: Box::new(int_lit(1)),
        }))],
        false,
        "cannot perform a binary expression on two literals",
    );

    // literal projections
    expect_planning(
        vec![field(var("foo")), field(int_lit(1))],
        false,
        "field must contain at least one variable",
    );

    // aggregates require a field reference
    expect_planning(
        vec![field(call("sum", vec![int_lit(1)]))],
        false,
        "expected field argument in sum(), got Literal(Integer(1))",
    );

    // unknown functions are refused
    expect_planning(
        vec![field(call("mystery", vec![var("foo")]))],
        false,
        "unsupported function mystery()",
    );
}

#[test]
fn stray_wildcards_are_internal_errors() {
    // a wildcard or regex that survives to the analysis marks a broken
    // upstream invariant, not a user fault
    let q = Select {
        fields: vec![field(Expr::Wildcard(None))],
        from: vec![],
        condition: None,
        group_by: None,
        fill: None,
        order_by: None,
        limit: None,
        offset: None,
        timezone: None,
    };
    let err = select_statement_info(&q).unwrap_err();
    match err {
        Error::Internal(m) => assert_eq!(m, "unexpected wildcard"),
        other => panic!("wrong error category: {:?}", other),
    }

    let q = Select {
        fields: vec![field(Expr::Distinct("foo".to_string()))],
        from: vec![],
        condition: None,
        group_by: None,
        fill: None,
        order_by: None,
        limit: None,
        offset: None,
        timezone: None,
    };
    let err = select_statement_info(&q).unwrap_err();
    match err {
        Error::Internal(m) => assert_eq!(m, "unexpected distinct clause"),
        other => panic!("wrong error category: {:?}", other),
    }
}

#[test]
fn fill_without_aggregates_is_refused() {
    let mut q = select(vec![field(var("foo"))], false);
    q.fill = Some(influxql_rewrite::ast::FillClause::Previous);
    let err = select_statement_info(&q).unwrap_err();
    match err {
        Error::Planning(m) => assert_eq!(m, "fill(previous) must be used with an aggregate function"),
        other => panic!("wrong error category: {:?}", other),
    }
}

#[test]
fn group_by_time_requires_aggregates() {
    let err = select_statement_info(&select(vec![field(var("foo"))], true)).unwrap_err();
    match err {
        Error::Planning(m) => assert_eq!(m, "GROUP BY requires at least one aggregate function"),
        other => panic!("wrong error category: {:?}", other),
    }
}

#[test]
fn mixing_rules() {
    expect_planning(
        vec![field(call("count", vec![var("foo")])), field(var("bar"))],
        false,
        "mixing aggregate and non-aggregate columns is not supported",
    );
    expect_planning(
        vec![
            field(call("last", vec![var("foo")])),
            field(call("first", vec![var("foo")])),
            field(var("bar")),
        ],
        false,
        "mixing multiple selector functions with tags or fields is not supported",
    );
}
