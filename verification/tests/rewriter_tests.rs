use influxql_rewrite::ast::{
    BinaryOperator, Call, Dimension, Expr, ExprList, Field, Literal, MeasurementSelection,
    SelectStatement, VarRef, VarRefDataType,
};
use influxql_rewrite::error::Error;
use influxql_rewrite::expand::has_wildcards;
use influxql_rewrite::ir::{DataSource, Select};
use influxql_rewrite::rewriter::rewrite_statement;
use influxql_rewrite::schema::{ColumnType, Schemas, TableSchema};

fn var(name: &str) -> Expr {
    Expr::VarRef(VarRef { name: name.to_string(), data_type: None })
}

fn args(v: Vec<Expr>) -> ExprList {
    let mut list = ExprList::Empty;
    for e in v.into_iter().rev() {
        list = ExprList::Item(Box::new(e), Box::new(list));
    }
    list
}

fn call(name: &str, a: Vec<Expr>) -> Expr {
    Expr::Call(Call { name: name.to_string(), args: args(a) })
}

fn int_lit(v: i64) -> Expr {
    Expr::Literal(Literal::Integer(v))
}

fn binary(l: Expr, op: BinaryOperator, r: Expr) -> Expr {
    Expr::Binary(influxql_rewrite::ast::Binary { lhs: Box::new(l), op, rhs: Box::new(r) })
}

fn field(e: Expr) -> Field {
    Field { expr: e, alias: None }
}

fn field_as(e: Expr, a: &str) -> Field {
    Field { expr: e, alias: Some(a.to_string()) }
}

fn table(n: &str) -> MeasurementSelection {
    MeasurementSelection::Name(n.to_string())
}

fn from_regex(p: &str) -> MeasurementSelection {
    MeasurementSelection::Regex(p.to_string())
}

fn stmt(fields: Vec<Field>, from: Vec<MeasurementSelection>) -> SelectStatement {
    SelectStatement {
        fields,
        from,
        condition: None,
        group_by: None,
        fill: None,
        order_by: None,
        limit: None,
        offset: None,
        series_limit: None,
        series_offset: None,
        timezone: None,
    }
}

fn stmt_group_by(
    fields: Vec<Field>,
    from: Vec<MeasurementSelection>,
    dims: Vec<Dimension>,
) -> SelectStatement {
    let mut s = stmt(fields, from);
    s.group_by = Some(dims);
    s
}

fn add_table(s: &mut Schemas, name: &str, tags: &[&str], fields: &[(&str, VarRefDataType)]) {
    let mut t = TableSchema::new(name.to_string());
    for tag in tags {
        assert!(t.add_column(tag.to_string(), ColumnType::Tag));
    }
    for (fname, ftype) in fields {
        assert!(t.add_column(fname.to_string(), ColumnType::Field(*ftype)));
    }
    assert!(s.add_table(t));
}

fn schemas() -> Schemas {
    let mut s = Schemas::new();
    add_table(
        &mut s,
        "cpu",
        &["cpu", "host", "region"],
        &[
            ("usage_idle", VarRefDataType::Float),
            ("usage_system", VarRefDataType::Float),
            ("usage_user", VarRefDataType::Float),
        ],
    );
    add_table(
        &mut s,
        "disk",
        &["device", "host", "region"],
        &[("bytes_free", VarRefDataType::Integer), ("bytes_used", VarRefDataType::Integer)],
    );
    add_table(
        &mut s,
        "diskio",
        &["host", "region"],
        &[("bytes_read", VarRefDataType::Integer), ("bytes_written", VarRefDataType::Integer)],
    );
    add_table(&mut s, "merge_00", &["col0"], &[
        ("col1", VarRefDataType::Float),
        ("col3", VarRefDataType::String),
    ]);
    add_table(&mut s, "merge_01", &["col1"], &[
        ("col0", VarRefDataType::Float),
        ("col2", VarRefDataType::String),
    ]);
    add_table(
        &mut s,
        "temp_01",
        &["shared_tag0", "shared_tag1"],
        &[
            ("field_f64", VarRefDataType::Float),
            ("field_i64", VarRefDataType::Integer),
            ("field_str", VarRefDataType::String),
            ("field_u64", VarRefDataType::Unsigned),
            ("shared_field0", VarRefDataType::Float),
        ],
    );
    s
}

fn type_text(dt: VarRefDataType) -> &'static str {
    match dt {
        VarRefDataType::Float => "float",
        VarRefDataType::Integer => "integer",
        VarRefDataType::Unsigned => "unsigned",
        VarRefDataType::String => "string",
        VarRefDataType::Boolean => "boolean",
        VarRefDataType::Tag => "tag",
        VarRefDataType::Timestamp => "timestamp",
    }
}

fn op_text(op: BinaryOperator) -> &'static str {
    match op {
        BinaryOperator::Add => "+",
        BinaryOperator::Sub => "-",
        BinaryOperator::Mul => "*",
        BinaryOperator::Div => "/",
        BinaryOperator::Mod => "%",
        BinaryOperator::BitwiseAnd => "&",
        BinaryOperator::BitwiseOr => "|",
        BinaryOperator::BitwiseXor => "^",
    }
}

fn list_exprs(l: &ExprList) -> Vec<&Expr> {
    let mut out = Vec::new();
    let mut cur = l;
    while let ExprList::Item(head, rest) = cur {
        out.push(&**head);
        cur = rest;
    }
    out
}

fn expr_text(e: &Expr) -> String {
    match e {
        Expr::VarRef(v) => match v.data_type {
            Some(dt) => format!("{}::{}", v.name, type_text(dt)),
            None => v.name.clone(),
        },
        Expr::Literal(Literal::Integer(v)) => format!("{v}"),
        Expr::Literal(Literal::Unsigned(v)) => format!("{v}"),
        Expr::Literal(Literal::Float(t)) => t.clone(),
        Expr::Literal(Literal::Str(t)) => format!("'{t}'"),
        Expr::Literal(Literal::Boolean(v)) => format!("{v}"),
        Expr::Literal(Literal::Duration(ns)) => format!("{ns}ns"),
        Expr::Literal(Literal::Regex(t)) => format!("/{t}/"),
        Expr::Call(c) => {
            let parts: Vec<String> = list_exprs(&c.args).iter().map(|a| expr_text(a)).collect();
            format!("{}({})", c.name, parts.join(", "))
        },
        Expr::Binary(b) => {
            format!("{} {} {}", expr_text(&b.lhs), op_text(b.op), expr_text(&b.rhs))
        },
        Expr::Nested(inner) => format!("({})", expr_text(inner)),
        Expr::Wildcard(None) => "*".to_string(),
        Expr::Wildcard(Some(influxql_rewrite::ast::WildcardType::Tag)) => "*::tag".to_string(),
        Expr::Wildcard(Some(influxql_rewrite::ast::WildcardType::Field)) => "*::field".to_string(),
        Expr::Distinct(n) => format!("DISTINCT {n}"),
        Expr::BindParameter(n) => format!("${n}"),
    }
}

fn ident_text(name: &str) -> String {
    let bare = !name.is_empty()
        && name.chars().next().unwrap().is_ascii_alphabetic()
        && name.chars().all(|c| c.is_ascii_alphanumeric() || c == '_')
        && name != "distinct";
    if bare {
        name.to_string()
    } else {
        format!("\"{}\"", name.replace('\\', "\\\\").replace('"', "\\\""))
    }
}

fn field_text(f: &Field) -> String {
    match &f.alias {
        Some(a) => format!("{} AS {}", expr_text(&f.expr), ident_text(a)),
        None => expr_text(&f.expr),
    }
}

fn render(sel: &Select) -> String {
    let fields: Vec<String> = sel.fields.iter().map(field_text).collect();
    let mut out = format!("SELECT {}", fields.join(", "));
    if !sel.from.is_empty() {
        let from: Vec<String> = sel
            .from
            .iter()
            .map(|ds| match ds {
                DataSource::Table(t) => t.clone(),
                DataSource::Subquery(q) => format!("({})", render(q)),
            })
            .collect();
        out.push_str(&format!(" FROM {}", from.join(", ")));
    }
    if let Some(dims) = &sel.group_by {
        let parts: Vec<String> = dims
            .iter()
            .map(|d| match d {
                Dimension::Tag(t) => t.clone(),
                Dimension::Regex(p) => format!("/{p}/"),
                Dimension::Wildcard => "*".to_string(),
                Dimension::Time { interval, .. } => format!("TIME({})", expr_text(interval)),
            })
            .collect();
        out.push_str(&format!(" GROUP BY {}", parts.join(", ")));
    }
    out
}

fn rewrite_text(s: &Schemas, q: &SelectStatement) -> String {
    let out = rewrite_statement(s, q).unwrap();
    render(&out.select)
}

#[test]
fn projection_simple() {
    let namespace = schemas();

    let q = stmt(vec![field(var("usage_user"))], vec![table("cpu")]);
    assert_eq!(
        rewrite_text(&namespace, &q),
        "SELECT time::timestamp AS time, usage_user::float AS usage_user FROM cpu"
    );

    let q = stmt(vec![field(var("usage_user")), field(var("usage_user"))], vec![table("cpu")]);
    assert_eq!(
        rewrite_text(&namespace, &q),
        "SELECT time::timestamp AS time, usage_user::float AS usage_user, usage_user::float AS usage_user_1 FROM cpu"
    );

    let q = stmt(
        vec![field_as(var("usage_user"), "usage_user_1"), field(var("usage_user"))],
        vec![table("cpu")],
    );
    assert_eq!(
        rewrite_text(&namespace, &q),
        "SELECT time::timestamp AS time, usage_user::float AS usage_user_1, usage_user::float AS usage_user FROM cpu"
    );

    let q = stmt(
        vec![
            field_as(var("usage_user"), "usage_user_1"),
            field(var("usage_user")),
            field(var("usage_user")),
            field_as(var("usage_user"), "usage_user_2"),
            field(var("usage_user")),
            field(var("usage_user_2")),
        ],
        vec![table("cpu")],
    );
    assert_eq!(
        rewrite_text(&namespace, &q),
        "SELECT time::timestamp AS time, usage_user::float AS usage_user_1, usage_user::float AS usage_user, usage_user::float AS usage_user_3, usage_user::float AS usage_user_2, usage_user::float AS usage_user_4, usage_user_2 AS usage_user_2_1 FROM cpu"
    );

    let q = stmt(vec![field(var("usage_idle"))], vec![table("cpu"), table("disk")]);
    assert_eq!(
        rewrite_text(&namespace, &q),
        "SELECT time::timestamp AS time, usage_idle::float AS usage_idle FROM cpu"
    );

    let q = stmt(vec![field(var("usage_idle")), field(var("bytes_free"))], vec![table("cpu")]);
    assert_eq!(
        rewrite_text(&namespace, &q),
        "SELECT time::timestamp AS time, usage_idle::float AS usage_idle, bytes_free AS bytes_free FROM cpu"
    );

    let q = stmt(
        vec![field(var("usage_idle")), field(var("bytes_free"))],
        vec![table("cpu"), table("disk")],
    );
    assert_eq!(
        rewrite_text(&namespace, &q),
        "SELECT time::timestamp AS time, usage_idle::float AS usage_idle, bytes_free::integer AS bytes_free FROM cpu, disk"
    );
}

#[test]
fn from_expand_wildcards() {
    let namespace = schemas();

    let q = stmt(vec![field(var("bytes_free")), field(var("bytes_read"))], vec![from_regex("d")]);
    assert_eq!(
        rewrite_text(&namespace, &q),
        "SELECT time::timestamp AS time, bytes_free::integer AS bytes_free, bytes_read::integer AS bytes_read FROM disk, diskio"
    );

    let q = stmt(vec![field(var("bytes_free"))], vec![from_regex("d")]);
    assert_eq!(
        rewrite_text(&namespace, &q),
        "SELECT time::timestamp AS time, bytes_free::integer AS bytes_free FROM disk"
    );

    let q = stmt(vec![field(var("usage_idle"))], vec![table("foo")]);
    let out = rewrite_statement(&namespace, &q).unwrap();
    assert!(out.select.from.is_empty());

    let q = stmt(vec![field(var("bytes_free"))], vec![from_regex("^d$")]);
    let out = rewrite_statement(&namespace, &q).unwrap();
    assert!(out.select.from.is_empty());
}

#[test]
fn projection_expand_wildcards() {
    let namespace = schemas();

    let q = stmt(vec![field(Expr::Wildcard(None))], vec![table("cpu")]);
    assert_eq!(
        rewrite_text(&namespace, &q),
        "SELECT time::timestamp AS time, cpu::tag AS cpu, host::tag AS host, region::tag AS region, usage_idle::float AS usage_idle, usage_system::float AS usage_system, usage_user::float AS usage_user FROM cpu"
    );

    let q = stmt(vec![field(Expr::Wildcard(None))], vec![table("cpu"), table("disk")]);
    assert_eq!(
        rewrite_text(&namespace, &q),
        "SELECT time::timestamp AS time, bytes_free::integer AS bytes_free, bytes_used::integer AS bytes_used, cpu::tag AS cpu, device::tag AS device, host::tag AS host, region::tag AS region, usage_idle::float AS usage_idle, usage_system::float AS usage_system, usage_user::float AS usage_user FROM cpu, disk"
    );

    let q = stmt(
        vec![field(Expr::Literal(Literal::Regex("usage|bytes".to_string())))],
        vec![table("cpu"), table("disk")],
    );
    assert_eq!(
        rewrite_text(&namespace, &q),
        "SELECT time::timestamp AS time, bytes_free::integer AS bytes_free, bytes_used::integer AS bytes_used, usage_idle::float AS usage_idle, usage_system::float AS usage_system, usage_user::float AS usage_user FROM cpu, disk"
    );

    let tag_wc = Expr::Wildcard(Some(influxql_rewrite::ast::WildcardType::Tag));
    let field_wc = Expr::Wildcard(Some(influxql_rewrite::ast::WildcardType::Field));

    let q = stmt(vec![field(tag_wc.clone()), field(var("usage_idle"))], vec![table("cpu")]);
    assert_eq!(
        rewrite_text(&namespace, &q),
        "SELECT time::timestamp AS time, cpu::tag AS cpu, host::tag AS host, region::tag AS region, usage_idle::float AS usage_idle FROM cpu"
    );

    let q = stmt(vec![field(tag_wc.clone())], vec![table("cpu")]);
    let out = rewrite_statement(&namespace, &q).unwrap();
    assert!(out.select.from.is_empty());

    let q = stmt(vec![field(field_wc.clone())], vec![table("cpu")]);
    assert_eq!(
        rewrite_text(&namespace, &q),
        "SELECT time::timestamp AS time, usage_idle::float AS usage_idle, usage_system::float AS usage_system, usage_user::float AS usage_user FROM cpu"
    );

    let q = stmt(vec![field(var("usage_idle")), field(tag_wc.clone())], vec![table("cpu")]);
    assert_eq!(
        rewrite_text(&namespace, &q),
        "SELECT time::timestamp AS time, usage_idle::float AS usage_idle, cpu::tag AS cpu, host::tag AS host, region::tag AS region FROM cpu"
    );

    let q = stmt(vec![field(Expr::Wildcard(None))], vec![table("merge_00"), table("merge_01")]);
    assert_eq!(
        rewrite_text(&namespace, &q),
        "SELECT time::timestamp AS time, col0::float AS col0, col0::tag AS col0_1, col1::float AS col1, col1::tag AS col1_1, col2::string AS col2, col3::string AS col3 FROM merge_00, merge_01"
    );

    let q = stmt(
        vec![field(Expr::Literal(Literal::Regex("col0".to_string())))],
        vec![table("merge_00"), table("merge_01")],
    );
    assert_eq!(
        rewrite_text(&namespace, &q),
        "SELECT time::timestamp AS time, col0::float AS col0, col0::tag AS col0_1 FROM merge_01"
    );
}

#[test]
fn group_by() {
    let namespace = schemas();

    let q = stmt_group_by(
        vec![field(var("usage_idle"))],
        vec![table("cpu")],
        vec![Dimension::Tag("host".to_string())],
    );
    assert_eq!(
        rewrite_text(&namespace, &q),
        "SELECT time::timestamp AS time, usage_idle::float AS usage_idle FROM cpu GROUP BY host"
    );

    let q = stmt_group_by(
        vec![field(var("usage_idle"))],
        vec![table("cpu")],
        vec![Dimension::Wildcard],
    );
    assert_eq!(
        rewrite_text(&namespace, &q),
        "SELECT time::timestamp AS time, usage_idle::float AS usage_idle FROM cpu GROUP BY cpu, host, region"
    );

    let q = stmt_group_by(
        vec![field(Expr::Wildcard(None))],
        vec![table("cpu")],
        vec![Dimension::Wildcard],
    );
    assert_eq!(
        rewrite_text(&namespace, &q),
        "SELECT time::timestamp AS time, usage_idle::float AS usage_idle, usage_system::float AS usage_system, usage_user::float AS usage_user FROM cpu GROUP BY cpu, host, region"
    );

    let q = stmt_group_by(
        vec![field(var("host")), field(Expr::Wildcard(None))],
        vec![table("cpu")],
        vec![Dimension::Wildcard],
    );
    assert_eq!(
        rewrite_text(&namespace, &q),
        "SELECT time::timestamp AS time, host::tag AS host, usage_idle::float AS usage_idle, usage_system::float AS usage_system, usage_user::float AS usage_user FROM cpu GROUP BY cpu, host, region"
    );
}

#[test]
fn fallible() {
    let namespace = schemas();

    let q = stmt(vec![field(var("usage_idle"))], vec![from_regex("(not")]);
    let err = rewrite_statement(&namespace, &q).unwrap_err();
    assert!(err.text().contains("invalid regular expression"));

    let tag_wc = Expr::Wildcard(Some(influxql_rewrite::ast::WildcardType::Tag));
    let field_wc = Expr::Wildcard(Some(influxql_rewrite::ast::WildcardType::Field));
    let q = stmt(
        vec![field(binary(field_wc, BinaryOperator::Add, tag_wc))],
        vec![table("cpu")],
    );
    let err = rewrite_statement(&namespace, &q).unwrap_err();
    assert_eq!(
        err.text(),
        "Error during planning: unsupported expression: contains a wildcard or regular expression"
    );

    let q = stmt(
        vec![field(call(
            "count",
            vec![Expr::Wildcard(Some(influxql_rewrite::ast::WildcardType::Tag))],
        ))],
        vec![table("cpu")],
    );
    let err = rewrite_statement(&namespace, &q).unwrap_err();
    assert_eq!(err.text(), "Error during planning: unable to use tag as wildcard in count()");

    let mut q = stmt(vec![field(var("usage_idle"))], vec![table("cpu")]);
    q.series_limit = Some(1);
    let err = rewrite_statement(&namespace, &q).unwrap_err();
    assert_eq!(err.text(), "This feature is not implemented: SLIMIT or SOFFSET");

    let mut q = stmt(vec![field(var("usage_idle"))], vec![table("cpu")]);
    q.series_offset = Some(1);
    let err = rewrite_statement(&namespace, &q).unwrap_err();
    assert_eq!(err.text(), "This feature is not implemented: SLIMIT or SOFFSET");
}

#[test]
fn subqueries() {
    let namespace = schemas();

    let inner = stmt(vec![field(var("usage_idle"))], vec![table("cpu")]);
    let q = stmt(
        vec![field(var("usage_idle"))],
        vec![MeasurementSelection::Subquery(Box::new(inner))],
    );
    assert_eq!(
        rewrite_text(&namespace, &q),
        "SELECT time::timestamp AS time, usage_idle::float AS usage_idle FROM (SELECT time::timestamp AS time, usage_idle::float FROM cpu)"
    );

    let inner = stmt(
        vec![field(var("bytes_free")), field(var("bytes_read"))],
        vec![from_regex("d")],
    );
    let q = stmt(
        vec![field(var("bytes_free"))],
        vec![MeasurementSelection::Subquery(Box::new(inner))],
    );
    assert_eq!(
        rewrite_text(&namespace, &q),
        "SELECT time::timestamp AS time, bytes_free::integer AS bytes_free FROM (SELECT time::timestamp AS time, bytes_free::integer, bytes_read::integer FROM disk, diskio)"
    );

    let inner = stmt(vec![field(var("usage_idle"))], vec![table("foo")]);
    let q = stmt(
        vec![field(var("usage_idle"))],
        vec![MeasurementSelection::Subquery(Box::new(inner))],
    );
    let out = rewrite_statement(&namespace, &q).unwrap();
    assert!(out.select.from.is_empty());

    let inner = stmt(vec![field(var("bytes_free"))], vec![from_regex("^d$")]);
    let q = stmt(
        vec![field(var("bytes_free"))],
        vec![MeasurementSelection::Subquery(Box::new(inner))],
    );
    let out = rewrite_statement(&namespace, &q).unwrap();
    assert!(out.select.from.is_empty());

    let inner = stmt(
        vec![field(binary(var("usage_system"), BinaryOperator::Add, var("usage_idle")))],
        vec![table("cpu")],
    );
    let q = stmt(
        vec![field(Expr::Wildcard(Some(influxql_rewrite::ast::WildcardType::Field)))],
        vec![MeasurementSelection::Subquery(Box::new(inner))],
    );
    assert_eq!(
        rewrite_text(&namespace, &q),
        "SELECT time::timestamp AS time, usage_system_usage_idle::float AS usage_system_usage_idle FROM (SELECT time::timestamp AS time, usage_system::float + usage_idle::float FROM cpu)"
    );

    let inner = stmt(vec![field(var("usage_system"))], vec![table("cpu")]);
    let q = stmt(
        vec![field(var("usage_idle"))],
        vec![table("cpu"), MeasurementSelection::Subquery(Box::new(inner))],
    );
    assert_eq!(
        rewrite_text(&namespace, &q),
        "SELECT time::timestamp AS time, usage_idle::float AS usage_idle FROM cpu"
    );

    let inner = stmt(vec![field(var("cpu")), field(var("usage_system"))], vec![table("cpu")]);
    let q = stmt(
        vec![field(var("cpu"))],
        vec![MeasurementSelection::Subquery(Box::new(inner))],
    );
    assert_eq!(
        rewrite_text(&namespace, &q),
        "SELECT time::timestamp AS time, cpu::tag AS cpu FROM (SELECT time::timestamp AS time, cpu::tag, usage_system::float FROM cpu)"
    );

    let inner = stmt(vec![field(var("cpu"))], vec![table("cpu")]);
    let q = stmt(
        vec![field(var("cpu"))],
        vec![MeasurementSelection::Subquery(Box::new(inner))],
    );
    let out = rewrite_statement(&namespace, &q).unwrap();
    assert!(out.select.from.is_empty());
}

#[test]
fn projection_distinct() {
    let namespace = schemas();

    let q = stmt(
        vec![field(call("count", vec![Expr::Distinct("bytes_free".to_string())]))],
        vec![table("disk")],
    );
    assert_eq!(
        rewrite_text(&namespace, &q),
        "SELECT time::timestamp AS time, count(distinct(bytes_free::integer)) AS count FROM disk"
    );

    let q = stmt(vec![field(Expr::Distinct("bytes_free".to_string()))], vec![table("disk")]);
    assert_eq!(
        rewrite_text(&namespace, &q),
        "SELECT time::timestamp AS time, distinct(bytes_free::integer) AS \"distinct\" FROM disk"
    );
}

#[test]
fn projection_unary_binary_expr() {
    let namespace = schemas();

    let q = stmt(
        vec![field(binary(var("bytes_free"), BinaryOperator::Add, var("bytes_used")))],
        vec![table("disk")],
    );
    assert_eq!(
        rewrite_text(&namespace, &q),
        "SELECT time::timestamp AS time, bytes_free::integer + bytes_used::integer AS bytes_free_bytes_used FROM disk"
    );

    let q = stmt(
        vec![field(binary(int_lit(-1), BinaryOperator::Mul, var("bytes_free")))],
        vec![table("disk")],
    );
    assert_eq!(
        rewrite_text(&namespace, &q),
        "SELECT time::timestamp AS time, -1 * bytes_free::integer AS bytes_free FROM disk"
    );
}

#[test]
fn projection_call_expr() {
    let namespace = schemas();

    let q = stmt(vec![field(call("count", vec![var("field_i64")]))], vec![table("temp_01")]);
    assert_eq!(
        rewrite_text(&namespace, &q),
        "SELECT time::timestamp AS time, count(field_i64::integer) AS count FROM temp_01"
    );

    let q = stmt(
        vec![
            field(call("count", vec![var("field_i64")])),
            field(call("count", vec![var("field_i64")])),
        ],
        vec![table("temp_01")],
    );
    assert_eq!(
        rewrite_text(&namespace, &q),
        "SELECT time::timestamp AS time, count(field_i64::integer) AS count, count(field_i64::integer) AS count_1 FROM temp_01"
    );

    let q = stmt(vec![field(call("count", vec![var("field_f64")]))], vec![table("temp_01")]);
    assert_eq!(
        rewrite_text(&namespace, &q),
        "SELECT time::timestamp AS time, count(field_f64::float) AS count FROM temp_01"
    );

    let q = stmt(
        vec![field(call("count", vec![Expr::Wildcard(None)]))],
        vec![table("temp_01")],
    );
    assert_eq!(
        rewrite_text(&namespace, &q),
        "SELECT time::timestamp AS time, count(field_f64::float) AS count_field_f64, count(field_i64::integer) AS count_field_i64, count(field_str::string) AS count_field_str, count(field_u64::unsigned) AS count_field_u64, count(shared_field0::float) AS count_shared_field0 FROM temp_01"
    );

    let q = stmt(
        vec![field(call("count", vec![Expr::Literal(Literal::Regex("64$".to_string()))]))],
        vec![table("temp_01")],
    );
    assert_eq!(
        rewrite_text(&namespace, &q),
        "SELECT time::timestamp AS time, count(field_f64::float) AS count_field_f64, count(field_i64::integer) AS count_field_i64, count(field_u64::unsigned) AS count_field_u64 FROM temp_01"
    );

    let q = stmt(
        vec![field(call("sum", vec![Expr::Wildcard(None)]))],
        vec![table("temp_01")],
    );
    assert_eq!(
        rewrite_text(&namespace, &q),
        "SELECT time::timestamp AS time, sum(field_f64::float) AS sum_field_f64, sum(field_i64::integer) AS sum_field_i64, sum(field_u64::unsigned) AS sum_field_u64, sum(shared_field0::float) AS sum_shared_field0 FROM temp_01"
    );
}

#[test]
fn test_has_wildcards() {
    let q = stmt(vec![field(var("a"))], vec![table("b")]);
    let res = has_wildcards(&q);
    assert!(!res.0);
    assert!(!res.1);

    let q = stmt_group_by(
        vec![field(var("a"))],
        vec![table("b")],
        vec![Dimension::Tag("c".to_string())],
    );
    let res = has_wildcards(&q);
    assert!(!res.0);
    assert!(!res.1);

    let q = stmt_group_by(
        vec![field(Expr::Wildcard(None))],
        vec![table("b")],
        vec![Dimension::Tag("c".to_string())],
    );
    let res = has_wildcards(&q);
    assert!(res.0);
    assert!(!res.1);

    let q = stmt_group_by(
        vec![field(Expr::Literal(Literal::Regex("a".to_string())))],
        vec![table("b")],
        vec![Dimension::Tag("c".to_string())],
    );
    let res = has_wildcards(&q);
    assert!(res.0);
    assert!(!res.1);

    let q = stmt_group_by(vec![field(var("a"))], vec![table("b")], vec![Dimension::Wildcard]);
    let res = has_wildcards(&q);
    assert!(!res.0);
    assert!(res.1);

    let q = stmt_group_by(
        vec![field(var("a"))],
        vec![table("b")],
        vec![Dimension::Regex("a".to_string())],
    );
    let res = has_wildcards(&q);
    assert!(!res.0);
    assert!(res.1);

    let q = stmt_group_by(
        vec![field(Expr::Wildcard(None))],
        vec![table("b")],
        vec![Dimension::Wildcard],
    );
    let res = has_wildcards(&q);
    assert!(res.0);
    assert!(res.1);

    let q = stmt_group_by(
        vec![field(Expr::Literal(Literal::Regex("a".to_string())))],
        vec![table("b")],
        vec![Dimension::Regex("b".to_string())],
    );
    let res = has_wildcards(&q);
    assert!(res.0);
    assert!(res.1);

    let q = stmt_group_by(
        vec![field(call("COUNT", vec![Expr::Wildcard(None)]))],
        vec![table("b")],
        vec![Dimension::Wildcard],
    );
    let res = has_wildcards(&q);
    assert!(res.0);
    assert!(res.1);

    let inner = stmt_group_by(
        vec![field(Expr::Wildcard(None))],
        vec![table("c")],
        vec![Dimension::Wildcard],
    );
    let q = stmt_group_by(
        vec![field(var("a"))],
        vec![MeasurementSelection::Subquery(Box::new(inner))],
        vec![Dimension::Tag("c".to_string())],
    );
    let res = has_wildcards(&q);
    assert!(!res.0);
    assert!(!res.1);
}

#[test]
fn multiple_measurement_flag() {
    let namespace = schemas();

    let q = stmt(
        vec![field(var("usage_idle")), field(var("bytes_free"))],
        vec![table("cpu"), table("disk")],
    );
    let out = rewrite_statement(&namespace, &q).unwrap();
    assert!(out.has_multiple_measurements);

    let q = stmt(vec![field(var("usage_idle"))], vec![table("cpu")]);
    let out = rewrite_statement(&namespace, &q).unwrap();
    assert!(!out.has_multiple_measurements);
}

#[test]
fn rewrite_is_stable_on_its_own_output() {
    let namespace = schemas();

    // running the rewrite again over an already rewritten statement keeps the
    // projections, sources and aliases
    let q = stmt(vec![field(Expr::Wildcard(None))], vec![table("cpu")]);
    let once = rewrite_statement(&namespace, &q).unwrap();
    let text_once = render(&once.select);

    let again = stmt(
        once.select.fields.clone(),
        once
            .select
            .from
            .iter()
            .map(|ds| match ds {
                DataSource::Table(t) => table(t),
                DataSource::Subquery(_) => unreachable!(),
            })
            .collect(),
    );
    let twice = rewrite_statement(&namespace, &again).unwrap();
    assert_eq!(render(&twice.select), text_once);
}

#[test]
fn planning_error_has_planning_category() {
    let namespace = schemas();
    let q = stmt(vec![field(var("usage_idle"))], vec![from_regex("(not")]);
    let err = rewrite_statement(&namespace, &q).unwrap_err();
    assert!(matches!(err, Error::Planning(_)));
}

#[test]
fn group_by_invalid_regex_is_refused() {
    let namespace = schemas();
    let q = stmt_group_by(
        vec![field(var("usage_idle"))],
        vec![table("cpu")],
        vec![Dimension::Regex("(bad".to_string())],
    );
    let err = rewrite_statement(&namespace, &q).unwrap_err();
    assert!(err.text().contains("invalid regular expression"));
}

#[test]
fn nested_series_limit_is_refused() {
    let namespace = schemas();
    let mut inner = stmt(vec![field(var("usage_idle"))], vec![table("cpu")]);
    inner.series_limit = Some(1);
    let q = stmt(
        vec![field(var("usage_idle"))],
        vec![MeasurementSelection::Subquery(Box::new(inner))],
    );
    let err = rewrite_statement(&namespace, &q).unwrap_err();
    assert_eq!(err.text(), "This feature is not implemented: SLIMIT or SOFFSET");
}
