use vstd::prelude::*;

use crate::ast::{spec_field_name, Call, Expr, ExprList, Field, Literal, VarRef, VarRefDataType};
use crate::ir::DataSource;
use crate::schema::{ColumnType, Schemas};
use crate::text::{str_eq, str_eq_string};

verus! {

broadcast use vstd::std_specs::vec::axiom_vec_index_decreases;

/// The merge of two optional types: the smaller in the unification order
/// wins, and a known type beats an unknown one.
pub open spec fn merge_opt(a: Option<VarRefDataType>, b: Option<VarRefDataType>) -> Option<
    VarRefDataType,
> {
    match (a, b) {
        (Option::Some(x), Option::Some(y)) => Option::Some(x.spec_merge_min(y)),
        (Option::Some(_), Option::None) => a,
        (Option::None, _) => b,
    }
}

/// The first projection of a statement whose output name matches.
pub open spec fn spec_field_by_name(fields: Seq<Field>, name: Seq<char>) -> Option<Field>
    decreases fields.len(),
{
    if fields.len() == 0 {
        Option::None
    } else if spec_field_name(fields[0]) == name {
        Option::Some(fields[0])
    } else {
        spec_field_by_name(fields.skip(1), name)
    }
}

/// What one data source says the named column's type is.
pub open spec fn spec_source_contribution(
    s: Schemas,
    ds: DataSource,
    name: Seq<char>,
) -> Option<VarRefDataType>
    decreases ds, 3int, ds, 0int,
{
    match ds {
        DataSource::Table(t) => match s.spec_table(t@) {
            Option::Some(tbl) => match tbl.spec_column_type(name) {
                Option::Some(ColumnType::Field(ft)) => Option::Some(ft),
                Option::Some(ColumnType::Tag) => Option::Some(VarRefDataType::Tag),
                Option::None => Option::None,
            },
            Option::None => Option::None,
        },
        DataSource::Subquery(q) => match spec_field_by_name(q.fields@, name) {
            Option::Some(f) => spec_eval_type(s, q.from, f.expr),
            Option::None => Option::None,
        },
    }
}

/// The named column's type over the sources from position `i` on, merged by
/// the unification order.
pub open spec fn spec_eval_name_from(
    s: Schemas,
    from: Vec<DataSource>,
    i: nat,
    name: Seq<char>,
) -> Option<VarRefDataType>
    decreases from, 2int, from, from@.len() - i,
{
    if i >= from@.len() {
        Option::None
    } else {
        merge_opt(
            spec_source_contribution(s, from@[i as int], name),
            spec_eval_name_from(s, from, i + 1, name),
        )
    }
}

/// The resolved type of a column reference: an explicit annotation is kept,
/// `time` is the timestamp, and everything else is looked up in the sources.
pub open spec fn spec_eval_var_ref(
    s: Schemas,
    from: Vec<DataSource>,
    v: VarRef,
) -> Option<VarRefDataType>
    decreases from, 4int, from, 0int,
{
    if v.data_type is Some {
        v.data_type
    } else if v.name@ == "time"@ {
        Option::Some(VarRefDataType::Timestamp)
    } else {
        spec_eval_name_from(s, from, 0, v.name@)
    }
}

/// The type a call yields, by the per-function table: counting yields an
/// integer, averaging and rate functions yield floats, selectors keep their
/// operand's type, and scalar math keeps it for the rounding functions.
pub open spec fn spec_eval_call(s: Schemas, from: Vec<DataSource>, c: Call) -> Option<
    VarRefDataType,
>
    decreases from, 3int, c, 0int,
{
    let name = c.name@;
    let operand = match c.args {
        ExprList::Item(first, _) => spec_eval_type(s, from, *first),
        ExprList::Empty => Option::None,
    };
    if name == "count"@ || name == "elapsed"@ {
        Option::Some(VarRefDataType::Integer)
    } else if name == "mean"@ || name == "median"@ || name == "stddev"@ || name == "spread"@
        || name == "derivative"@ || name == "non_negative_derivative"@ || name == "integral"@
        || name == "moving_average"@ || name == "exponential_moving_average"@ || name
        == "double_exponential_moving_average"@ || name == "triple_exponential_moving_average"@
        || name == "relative_strength_index"@ || name == "triple_exponential_derivative"@ || name
        == "kaufmans_efficiency_ratio"@ || name == "kaufmans_adaptive_moving_average"@ || name
        == "chande_momentum_oscillator"@ || name == "holt_winters"@ || name
        == "holt_winters_with_fit"@ || name == "sin"@ || name == "cos"@ || name == "tan"@ || name
        == "asin"@ || name == "acos"@ || name == "atan"@ || name == "atan2"@ || name == "exp"@
        || name == "log"@ || name == "ln"@ || name == "log2"@ || name == "log10"@ || name
        == "sqrt"@ || name == "pow"@ {
        Option::Some(VarRefDataType::Float)
    } else if name == "sum"@ || name == "first"@ || name == "last"@ || name == "min"@ || name
        == "max"@ || name == "percentile"@ || name == "sample"@ || name == "top"@ || name
        == "bottom"@ || name == "distinct"@ || name == "mode"@ || name == "difference"@ || name
        == "non_negative_difference"@ || name == "cumulative_sum"@ || name == "abs"@ || name
        == "floor"@ || name == "ceil"@ || name == "round"@ {
        operand
    } else {
        Option::None
    }
}

/// The effective type of a projection expression against a `FROM` list.
///
/// A binary expression takes the smaller of its two operand types in the
/// unification order whenever both are known, and no type when either side is
/// unknown; no known pair is refused outright, the order itself settling
/// every clash.
pub open spec fn spec_eval_type(s: Schemas, from: Vec<DataSource>, e: Expr) -> Option<
    VarRefDataType,
>
    decreases from, 3int, e, 0int,
{
    match e {
        Expr::VarRef(v) => if v.data_type is Some {
            v.data_type
        } else if v.name@ == "time"@ {
            Option::Some(VarRefDataType::Timestamp)
        } else {
            spec_eval_name_from(s, from, 0, v.name@)
        },
        Expr::Call(c) => spec_eval_call(s, from, c),
        Expr::Binary(b) => match (
            spec_eval_type(s, from, *b.lhs),
            spec_eval_type(s, from, *b.rhs),
        ) {
            (Option::Some(x), Option::Some(y)) => Option::Some(x.spec_merge_min(y)),
            _ => Option::None,
        },
        Expr::Nested(inner) => spec_eval_type(s, from, *inner),
        Expr::Literal(Literal::Integer(_)) => Option::Some(VarRefDataType::Integer),
        Expr::Literal(Literal::Unsigned(_)) => Option::Some(VarRefDataType::Unsigned),
        Expr::Literal(Literal::Float(_)) => Option::Some(VarRefDataType::Float),
        Expr::Literal(Literal::Str(_)) => Option::Some(VarRefDataType::String),
        Expr::Literal(Literal::Boolean(_)) => Option::Some(VarRefDataType::Boolean),
        _ => Option::None,
    }
}

/// The first projection of a statement whose output name matches.
#[verifier::loop_isolation(false)]
pub fn field_by_name<'a>(fields: &'a Vec<Field>, name: &str) -> (r: Option<&'a Field>)
    ensures
        match r {
            Option::Some(f) => spec_field_by_name(fields@, name@) == Option::Some(*f),
            Option::None => spec_field_by_name(fields@, name@) is None,
        },
{
    let mut i: usize = 0;
    proof {
        assert(fields@.skip(0) =~= fields@);
    }
    while i < fields.len()
        invariant
            i <= fields@.len(),
            spec_field_by_name(fields@, name@) == spec_field_by_name(
                fields@.skip(i as int),
                name@,
            ),
        decreases fields@.len() - i,
    {
        proof {
            assert(fields@.skip(i as int)[0] == fields@[i as int]);
            assert(fields@.skip(i as int).skip(1) =~= fields@.skip(i + 1));
        }
        let fname = crate::ast::field_name(&fields[i]);
        if str_eq(fname.as_str(), name) {
            return Some(&fields[i]);
        }
        i = i + 1;
    }
    None
}

/// The named column's type over the sources from position `i` on.
fn eval_name_from(s: &Schemas, from: &Vec<DataSource>, i: usize, name: &str) -> (r: Option<
    VarRefDataType,
>)
    ensures
        r == spec_eval_name_from(*s, *from, i as nat, name@),
    decreases from, 2int, from, from@.len() - i,
{
    if i >= from.len() {
        None
    } else {
        let contribution: Option<VarRefDataType> = match &from[i] {
            DataSource::Table(t) => match s.table_schema(t.as_str()) {
                Option::Some(tbl) => match tbl.field_type_by_name(name) {
                    Option::Some(ColumnType::Field(ft)) => Some(ft),
                    Option::Some(ColumnType::Tag) => Some(VarRefDataType::Tag),
                    Option::None => None,
                },
                Option::None => None,
            },
            DataSource::Subquery(q) => match field_by_name(&q.fields, name) {
                Option::Some(f) => eval_type(s, &q.from, &f.expr),
                Option::None => None,
            },
        };
        let rest = eval_name_from(s, from, i + 1, name);
        proof {
            assert(spec_eval_name_from(*s, *from, i as nat, name@) == merge_opt(
                spec_source_contribution(*s, from@[i as int], name@),
                spec_eval_name_from(*s, *from, (i as nat) + 1, name@),
            ));
            assert(contribution == spec_source_contribution(*s, from@[i as int], name@));
        }
        match (contribution, rest) {
            (Some(x), Some(y)) => Some(x.merge_min(y)),
            (Some(x), None) => Some(x),
            (None, y) => y,
        }
    }
}

/// The resolved type of a column reference against a `FROM` list.
pub fn eval_var_ref(s: &Schemas, from: &Vec<DataSource>, v: &VarRef) -> (r: Option<
    VarRefDataType,
>)
    ensures
        r == spec_eval_var_ref(*s, *from, *v),
{
    if let Option::Some(dt) = v.data_type {
        return Some(dt);
    }
    if str_eq_string("time", &v.name) {
        return Some(VarRefDataType::Timestamp);
    }
    eval_name_from(s, from, 0, v.name.as_str())
}

/// The effective type of a projection expression against a `FROM` list.
pub fn eval_type(s: &Schemas, from: &Vec<DataSource>, e: &Expr) -> (r: Option<VarRefDataType>)
    ensures
        r == spec_eval_type(*s, *from, *e),
    decreases from, 3int, e, 0int,
{
    match e {
        Expr::VarRef(v) => {
            if let Option::Some(dt) = v.data_type {
                return Some(dt);
            }
            if str_eq_string("time", &v.name) {
                return Some(VarRefDataType::Timestamp);
            }
            eval_name_from(s, from, 0, v.name.as_str())
        },
        Expr::Call(c) => eval_call(s, from, c),
        Expr::Binary(b) => {
            let lt = eval_type(s, from, &b.lhs);
            let rt = eval_type(s, from, &b.rhs);
            match (lt, rt) {
                (Some(x), Some(y)) => Some(x.merge_min(y)),
                _ => None,
            }
        },
        Expr::Nested(inner) => eval_type(s, from, inner),
        Expr::Literal(Literal::Integer(_)) => Some(VarRefDataType::Integer),
        Expr::Literal(Literal::Unsigned(_)) => Some(VarRefDataType::Unsigned),
        Expr::Literal(Literal::Float(_)) => Some(VarRefDataType::Float),
        Expr::Literal(Literal::Str(_)) => Some(VarRefDataType::String),
        Expr::Literal(Literal::Boolean(_)) => Some(VarRefDataType::Boolean),
        _ => None,
    }
}

/// The type a call yields.
fn eval_call(s: &Schemas, from: &Vec<DataSource>, c: &Call) -> (r: Option<VarRefDataType>)
    ensures
        r == spec_eval_call(*s, *from, *c),
    decreases from, 3int, c, 0int,
{
    let operand: Option<VarRefDataType> = match &c.args {
        ExprList::Item(first, _) => eval_type(s, from, first),
        ExprList::Empty => None,
    };
    let name = c.name.as_str();
    if str_eq(name, "count") || str_eq(name, "elapsed") {
        Some(VarRefDataType::Integer)
    } else if str_eq(name, "mean") || str_eq(name, "median") || str_eq(name, "stddev") || str_eq(
        name,
        "spread",
    ) || str_eq(name, "derivative") || str_eq(name, "non_negative_derivative") || str_eq(
        name,
        "integral",
    ) || str_eq(name, "moving_average") || str_eq(name, "exponential_moving_average") || str_eq(
        name,
        "double_exponential_moving_average",
    ) || str_eq(name, "triple_exponential_moving_average") || str_eq(
        name,
        "relative_strength_index",
    ) || str_eq(name, "triple_exponential_derivative") || str_eq(name, "kaufmans_efficiency_ratio")
        || str_eq(name, "kaufmans_adaptive_moving_average") || str_eq(
        name,
        "chande_momentum_oscillator",
    ) || str_eq(name, "holt_winters") || str_eq(name, "holt_winters_with_fit") || str_eq(
        name,
        "sin",
    ) || str_eq(name, "cos") || str_eq(name, "tan") || str_eq(name, "asin") || str_eq(name, "acos")
        || str_eq(name, "atan") || str_eq(name, "atan2") || str_eq(name, "exp") || str_eq(
        name,
        "log",
    ) || str_eq(name, "ln") || str_eq(name, "log2") || str_eq(name, "log10") || str_eq(
        name,
        "sqrt",
    ) || str_eq(name, "pow") {
        Some(VarRefDataType::Float)
    } else if str_eq(name, "sum") || str_eq(name, "first") || str_eq(name, "last") || str_eq(
        name,
        "min",
    ) || str_eq(name, "max") || str_eq(name, "percentile") || str_eq(name, "sample") || str_eq(
        name,
        "top",
    ) || str_eq(name, "bottom") || str_eq(name, "distinct") || str_eq(name, "mode") || str_eq(
        name,
        "difference",
    ) || str_eq(name, "non_negative_difference") || str_eq(name, "cumulative_sum") || str_eq(
        name,
        "abs",
    ) || str_eq(name, "floor") || str_eq(name, "ceil") || str_eq(name, "round") {
        operand
    } else {
        None
    }
}

} // verus!
