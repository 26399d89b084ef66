use vstd::prelude::*;

use crate::ast::{Call, Expr, ExprList, Field, Literal};
use crate::error::Error;
use crate::ir::{spec_has_time_dimension, Select};
use crate::messages::{
    err_aggregate_required, err_duration_positive, err_exp_args, err_exp_args_min,
    err_exp_args_range, err_expected_field_arg, err_expected_first_field, err_expected_integer,
    err_expected_integer_last, err_expected_string, err_fill_requires_aggregate, err_hold_period,
    err_must_use_aggregate, err_n_argument, err_only_fields, err_percentile_number, err_period,
    err_moving_average_window, err_requires_group_by, err_s_argument, err_sample_window,
    err_selector_combined, err_top_bottom_limit, err_second_duration, err_unsupported_function,
    err_warmup2, err_warmup3, internal_const, msg_aggregate_required, msg_duration_positive,
    msg_exp_args, msg_exp_args_min, msg_exp_args_range, msg_expected_field_arg,
    msg_expected_first_field, msg_expected_integer, msg_expected_integer_last,
    msg_expected_string, msg_fill_requires_aggregate, msg_hold_period, msg_moving_average_window,
    msg_must_use_aggregate, msg_n_argument, msg_only_fields, msg_percentile_number, msg_period,
    msg_requires_group_by, msg_s_argument, msg_sample_window, msg_selector_combined,
    msg_second_duration, msg_top_bottom_limit, msg_unsupported_function, msg_warmup2, msg_warmup3,
    not_implemented_const, planning_const, planning_with, internal_with, not_implemented_with,
};
use crate::text::{str_eq, str_eq_string};

verus! {

/// The outcome of one semantic check, at the specification level.
pub ghost enum CheckOutcome {
    Accepted,
    Planning(Seq<char>),
    NotImplemented(Seq<char>),
    Internal(Seq<char>),
}

/// The executable result carries exactly the outcome the specification names.
pub open spec fn outcome_matches(r: Result<(), Error>, o: CheckOutcome) -> bool {
    match r {
        Result::Ok(_) => o is Accepted,
        Result::Err(e) => match o {
            CheckOutcome::Accepted => false,
            CheckOutcome::Planning(m) => planning_with(e, m),
            CheckOutcome::NotImplemented(m) => not_implemented_with(e, m),
            CheckOutcome::Internal(m) => internal_with(e, m),
        },
    }
}

/// A counter incremented by one, held at the machine limit.
pub open spec fn sat_inc(n: usize) -> usize {
    if n < usize::MAX {
        (n + 1) as usize
    } else {
        n
    }
}

/// The length of an argument list, capped at the machine limit; what the
/// executable counterpart observes.
pub open spec fn capped_len(l: ExprList) -> nat {
    if l.spec_len() <= usize::MAX {
        l.spec_len()
    } else {
        usize::MAX as nat
    }
}

/// Walks the projections of a statement and checks the per-function argument
/// rules, keeping per-statement counters.
pub struct FieldChecker {
    /// The statement has a `GROUP BY TIME` clause.
    pub has_group_by_time: bool,
    /// The interval was inherited from a parent statement.
    pub inherited_group_by_time: bool,
    /// A `top` or `bottom` call was seen.
    pub has_top_bottom: bool,
    /// Some projection holds a bare column reference.
    pub has_non_aggregate_fields: bool,
    /// A `distinct` call or unary `DISTINCT` was seen.
    pub has_distinct: bool,
    /// Number of aggregate and window calls seen.
    pub aggregate_count: usize,
    /// Number of selector calls seen.
    pub selector_count: usize,
}

impl FieldChecker {
    /// Total number of functions seen.
    pub open spec fn spec_function_count(self) -> nat {
        (self.aggregate_count + self.selector_count) as nat
    }

    /// The state with one more aggregate call.
    pub open spec fn with_agg_inc(self) -> Self {
        FieldChecker { aggregate_count: sat_inc(self.aggregate_count), ..self }
    }

    /// The state with one more selector call.
    pub open spec fn with_sel_inc(self) -> Self {
        FieldChecker { selector_count: sat_inc(self.selector_count), ..self }
    }

    /// The state with non-aggregate fields noted.
    pub open spec fn with_non_aggregate(self) -> Self {
        FieldChecker { has_non_aggregate_fields: true, ..self }
    }

    /// The state with a distinct call noted.
    pub open spec fn with_distinct(self) -> Self {
        FieldChecker { has_distinct: true, ..self }
    }

    /// The state with a top or bottom call noted.
    pub open spec fn with_top_bottom(self) -> Self {
        FieldChecker { has_top_bottom: true, ..self }
    }
}

/// Functions that compute a scalar over each row rather than a group.
pub open spec fn spec_is_scalar_math(name: Seq<char>) -> bool {
    ||| name == "abs"@
    ||| name == "sin"@
    ||| name == "cos"@
    ||| name == "tan"@
    ||| name == "asin"@
    ||| name == "acos"@
    ||| name == "atan"@
    ||| name == "atan2"@
    ||| name == "exp"@
    ||| name == "log"@
    ||| name == "ln"@
    ||| name == "log2"@
    ||| name == "log10"@
    ||| name == "sqrt"@
    ||| name == "pow"@
    ||| name == "floor"@
    ||| name == "ceil"@
    ||| name == "round"@
}

/// Functions that compute a scalar over each row rather than a group.
pub fn is_scalar_math_function(name: &str) -> (r: bool)
    ensures
        r == spec_is_scalar_math(name@),
{
    str_eq(name, "abs") || str_eq(name, "sin") || str_eq(name, "cos") || str_eq(name, "tan")
        || str_eq(name, "asin") || str_eq(name, "acos") || str_eq(name, "atan") || str_eq(
        name,
        "atan2",
    ) || str_eq(name, "exp") || str_eq(name, "log") || str_eq(name, "ln") || str_eq(name, "log2")
        || str_eq(name, "log10") || str_eq(name, "sqrt") || str_eq(name, "pow") || str_eq(
        name,
        "floor",
    ) || str_eq(name, "ceil") || str_eq(name, "round")
}

/// The integer payload of an integer literal.
pub open spec fn as_integer_lit(e: Expr) -> Option<i64> {
    match e {
        Expr::Literal(Literal::Integer(v)) => Option::Some(v),
        _ => Option::None,
    }
}

/// The text payload of a string literal.
pub open spec fn as_string_lit(e: Expr) -> Option<Seq<char>> {
    match e {
        Expr::Literal(Literal::Str(t)) => Option::Some(t@),
        _ => Option::None,
    }
}

/// A numeric literal: an integer or a float.
pub open spec fn is_number_lit(e: Expr) -> bool {
    e matches Expr::Literal(l) && (l is Integer || l is Float)
}

/// The operand is a plain column reference; a stray wildcard or regex is an
/// internal fault at this stage.
pub open spec fn spec_check_symbol(name: Seq<char>, e: Expr) -> CheckOutcome {
    match e {
        Expr::VarRef(_) => CheckOutcome::Accepted,
        Expr::Wildcard(_) => CheckOutcome::Internal("unexpected wildcard or regex"@),
        Expr::Literal(Literal::Regex(_)) => CheckOutcome::Internal("unexpected wildcard or regex"@),
        _ => CheckOutcome::Planning(msg_expected_field_arg(name, e)),
    }
}

/// `percentile(field, n)`: the second argument is a number.
pub open spec fn spec_check_percentile(st: FieldChecker, args: ExprList) -> (
    FieldChecker,
    CheckOutcome,
) {
    let st1 = st.with_sel_inc();
    if capped_len(args) != 2 {
        (st1, CheckOutcome::Planning(msg_exp_args("percentile"@, 2, capped_len(args))))
    } else if !is_number_lit(args.spec_get(1)->0) {
        (st1, CheckOutcome::Planning(msg_percentile_number(args.spec_get(1)->0)))
    } else {
        (st1, spec_check_symbol("percentile"@, args.spec_get(0)->0))
    }
}

/// `sample(field, n)`: the window is an integer greater than one.
pub open spec fn spec_check_sample(st: FieldChecker, args: ExprList) -> (
    FieldChecker,
    CheckOutcome,
) {
    let st1 = st.with_sel_inc();
    if capped_len(args) != 2 {
        (st1, CheckOutcome::Planning(msg_exp_args("sample"@, 2, capped_len(args))))
    } else {
        match as_integer_lit(args.spec_get(1)->0) {
            Option::None => (st1, CheckOutcome::Planning(msg_expected_integer("sample"@))),
            Option::Some(v) => if v <= 1 {
                (st1, CheckOutcome::Planning(msg_sample_window(v as int)))
            } else {
                (st1, spec_check_symbol("sample"@, args.spec_get(0)->0))
            },
        }
    }
}

/// `distinct(field)`: one plain column; sets the distinct flag unless the call
/// is nested inside `count`.
pub open spec fn spec_check_distinct(st: FieldChecker, args: ExprList, nested: bool) -> (
    FieldChecker,
    CheckOutcome,
) {
    let st1 = st.with_agg_inc();
    if capped_len(args) != 1 {
        (st1, CheckOutcome::Planning(msg_exp_args("distinct"@, 1, capped_len(args))))
    } else if !(args.spec_get(0)->0 is VarRef) {
        (st1, CheckOutcome::Planning("expected field argument in distinct()"@))
    } else if !nested {
        (st1.with_distinct(), CheckOutcome::Accepted)
    } else {
        (st1, CheckOutcome::Accepted)
    }
}

/// The first middle argument of `top`/`bottom` that is not a column
/// reference, scanning positions `i .. len - 1`.
pub open spec fn spec_first_non_varref_mid(args: ExprList, i: nat) -> Option<Expr>
    decreases capped_len(args) - i,
{
    if i + 1 >= capped_len(args) {
        Option::None
    } else if !(args.spec_get(i)->0 is VarRef) {
        Option::Some(args.spec_get(i)->0)
    } else {
        spec_first_non_varref_mid(args, i + 1)
    }
}

/// `top(field, [dims...], n)` and `bottom(...)`: a trailing positive integer
/// limit, a leading column, and only columns in between.
pub open spec fn spec_check_top_bottom(st: FieldChecker, name: Seq<char>, args: ExprList) -> (
    FieldChecker,
    CheckOutcome,
) {
    let st1 = st.with_sel_inc().with_top_bottom();
    let n = capped_len(args);
    if n < 2 {
        (st1, CheckOutcome::Planning(msg_exp_args_min(name, 2, n)))
    } else {
        let last = args.spec_get((n - 1) as nat)->0;
        match as_integer_lit(last) {
            Option::None => (st1, CheckOutcome::Planning(msg_expected_integer_last(name, last))),
            Option::Some(limit) => if limit <= 0 {
                (st1, CheckOutcome::Planning(msg_top_bottom_limit(limit as int, name)))
            } else if !(args.spec_get(0)->0 is VarRef) {
                (st1, CheckOutcome::Planning(msg_expected_first_field(name)))
            } else {
                match spec_first_non_varref_mid(args, 1) {
                    Option::Some(bad) => (st1, CheckOutcome::Planning(msg_only_fields(name, bad))),
                    Option::None => if n > 2 {
                        (st1.with_non_aggregate(), CheckOutcome::Accepted)
                    } else {
                        (st1, CheckOutcome::Accepted)
                    },
                }
            },
        }
    }
}

/// The optional second argument is a positive duration; `Accepted` when the
/// argument is absent or in order.
pub open spec fn spec_check_optional_duration(name: Seq<char>, args: ExprList) -> CheckOutcome {
    match args.spec_get(1) {
        Option::None => CheckOutcome::Accepted,
        Option::Some(a) => match a {
            Expr::Literal(Literal::Duration(d)) => if d <= 0 {
                CheckOutcome::Planning(msg_duration_positive(d as int))
            } else {
                CheckOutcome::Accepted
            },
            _ => CheckOutcome::Planning(msg_second_duration(name, a)),
        },
    }
}

/// `derivative` and `elapsed` style calls: one operand under the nested-symbol
/// rule and an optional positive duration.
pub open spec fn spec_check_derivative(st: FieldChecker, name: Seq<char>, args: ExprList) -> (
    FieldChecker,
    CheckOutcome,
)
    decreases args, 3int,
{
    let st1 = st.with_agg_inc();
    let n = capped_len(args);
    if !(1 <= n <= 2) {
        (st1, CheckOutcome::Planning(msg_exp_args_range(name, 1, 2, n)))
    } else if !(spec_check_optional_duration(name, args) is Accepted) {
        (st1, spec_check_optional_duration(name, args))
    } else {
        match args {
            ExprList::Item(first, _) => spec_check_nested_symbol(st1, name, *first),
            ExprList::Empty => (st1, CheckOutcome::Accepted),
        }
    }
}

/// Window calls of one operand under the nested-symbol rule.
pub open spec fn spec_check_window1(st: FieldChecker, name: Seq<char>, args: ExprList) -> (
    FieldChecker,
    CheckOutcome,
)
    decreases args, 3int,
{
    let st1 = st.with_agg_inc();
    if capped_len(args) != 1 {
        (st1, CheckOutcome::Planning(msg_exp_args(name, 1, capped_len(args))))
    } else {
        match args {
            ExprList::Item(first, _) => spec_check_nested_symbol(st1, name, *first),
            ExprList::Empty => (st1, CheckOutcome::Accepted),
        }
    }
}

/// `moving_average(operand, window)`: an integer window greater than one.
pub open spec fn spec_check_moving_average(st: FieldChecker, args: ExprList) -> (
    FieldChecker,
    CheckOutcome,
)
    decreases args, 3int,
{
    let st1 = st.with_agg_inc();
    if capped_len(args) != 2 {
        (st1, CheckOutcome::Planning(msg_exp_args("moving_average"@, 2, capped_len(args))))
    } else {
        match as_integer_lit(args.spec_get(1)->0) {
            Option::None => (st1, CheckOutcome::Planning(msg_expected_integer("moving_average"@))),
            Option::Some(v) => if v <= 1 {
                (st1, CheckOutcome::Planning(msg_moving_average_window(v as int)))
            } else {
                match args {
                    ExprList::Item(first, _) => spec_check_nested_symbol(
                        st1,
                        "moving_average"@,
                        *first,
                    ),
                    ExprList::Empty => (st1, CheckOutcome::Accepted),
                }
            },
        }
    }
}

/// The optional hold-period argument: an integer that is `-1` or at least the
/// named bound.
pub open spec fn spec_check_hold_period(name: Seq<char>, args: ExprList, least_one: bool)
    -> CheckOutcome {
    match args.spec_get(2) {
        Option::None => CheckOutcome::Accepted,
        Option::Some(a) => match as_integer_lit(a) {
            Option::None => CheckOutcome::Planning(msg_expected_integer(name)),
            Option::Some(v) => if least_one && v < 1 && v != -1 {
                CheckOutcome::Planning(msg_hold_period(name, true))
            } else if !least_one && v < 0 && v != -1 {
                CheckOutcome::Planning(msg_hold_period(name, false))
            } else {
                CheckOutcome::Accepted
            },
        },
    }
}

/// The exponential moving average family: period, optional hold period and
/// optional warmup type.
pub open spec fn spec_check_exponential_moving_average(
    st: FieldChecker,
    name: Seq<char>,
    args: ExprList,
) -> (FieldChecker, CheckOutcome)
    decreases args, 3int,
{
    let st1 = st.with_agg_inc();
    let n = capped_len(args);
    if !(2 <= n <= 4) {
        (st1, CheckOutcome::Planning(msg_exp_args_range(name, 2, 4, n)))
    } else {
        match as_integer_lit(args.spec_get(1)->0) {
            Option::None => (st1, CheckOutcome::Planning(msg_expected_integer(name))),
            Option::Some(v) => if v < 1 {
                (st1, CheckOutcome::Planning(msg_period(name, v as int)))
            } else {
                let least_one = name == "triple_exponential_derivative"@;
                if !(spec_check_hold_period(name, args, least_one) is Accepted) {
                    (st1, spec_check_hold_period(name, args, least_one))
                } else {
                    match args.spec_get(3) {
                        Option::Some(a) => match as_string_lit(a) {
                            Option::None => (
                                st1,
                                CheckOutcome::Planning(msg_expected_string(name)),
                            ),
                            Option::Some(w) => if w == "exponential"@ || w == "simple"@ {
                                match args {
                                    ExprList::Item(first, _) => spec_check_nested_symbol(
                                        st1,
                                        name,
                                        *first,
                                    ),
                                    ExprList::Empty => (st1, CheckOutcome::Accepted),
                                }
                            } else {
                                (st1, CheckOutcome::Planning(msg_warmup2(name, w)))
                            },
                        },
                        Option::None => match args {
                            ExprList::Item(first, _) => spec_check_nested_symbol(
                                st1,
                                name,
                                *first,
                            ),
                            ExprList::Empty => (st1, CheckOutcome::Accepted),
                        },
                    }
                }
            },
        }
    }
}

/// The Kaufman family: period and optional hold period.
pub open spec fn spec_check_kaufmans(st: FieldChecker, name: Seq<char>, args: ExprList) -> (
    FieldChecker,
    CheckOutcome,
)
    decreases args, 3int,
{
    let st1 = st.with_agg_inc();
    let n = capped_len(args);
    if !(2 <= n <= 3) {
        (st1, CheckOutcome::Planning(msg_exp_args_range(name, 2, 3, n)))
    } else {
        match as_integer_lit(args.spec_get(1)->0) {
            Option::None => (st1, CheckOutcome::Planning(msg_expected_integer(name))),
            Option::Some(v) => if v < 1 {
                (st1, CheckOutcome::Planning(msg_period(name, v as int)))
            } else if !(spec_check_hold_period(name, args, false) is Accepted) {
                (st1, spec_check_hold_period(name, args, false))
            } else {
                match args {
                    ExprList::Item(first, _) => spec_check_nested_symbol(st1, name, *first),
                    ExprList::Empty => (st1, CheckOutcome::Accepted),
                }
            },
        }
    }
}

/// `chande_momentum_oscillator`: period, optional hold period, optional
/// warmup type of three names.
pub open spec fn spec_check_chande_momentum_oscillator(
    st: FieldChecker,
    name: Seq<char>,
    args: ExprList,
) -> (FieldChecker, CheckOutcome)
    decreases args, 3int,
{
    let st1 = st.with_agg_inc();
    let n = capped_len(args);
    if !(2 <= n <= 4) {
        (st1, CheckOutcome::Planning(msg_exp_args_range(name, 2, 4, n)))
    } else {
        match as_integer_lit(args.spec_get(1)->0) {
            Option::None => (st1, CheckOutcome::Planning(msg_expected_integer(name))),
            Option::Some(v) => if v < 1 {
                (st1, CheckOutcome::Planning(msg_period(name, v as int)))
            } else if !(spec_check_hold_period(name, args, false) is Accepted) {
                (st1, spec_check_hold_period(name, args, false))
            } else {
                match args.spec_get(3) {
                    Option::Some(a) => match as_string_lit(a) {
                        Option::None => (st1, CheckOutcome::Planning(msg_expected_string(name))),
                        Option::Some(w) => if w == "none"@ || w == "exponential"@ || w
                            == "simple"@ {
                            match args {
                                ExprList::Item(first, _) => spec_check_nested_symbol(
                                    st1,
                                    name,
                                    *first,
                                ),
                                ExprList::Empty => (st1, CheckOutcome::Accepted),
                            }
                        } else {
                            (st1, CheckOutcome::Planning(msg_warmup3(name, w)))
                        },
                    },
                    Option::None => match args {
                        ExprList::Item(first, _) => spec_check_nested_symbol(st1, name, *first),
                        ExprList::Empty => (st1, CheckOutcome::Accepted),
                    },
                }
            },
        }
    }
}

/// `integral(field, [duration])`: the plain symbol rule and an optional
/// positive duration.
pub open spec fn spec_check_integral(st: FieldChecker, name: Seq<char>, args: ExprList) -> (
    FieldChecker,
    CheckOutcome,
) {
    let st1 = st.with_agg_inc();
    let n = capped_len(args);
    if !(1 <= n <= 2) {
        (st1, CheckOutcome::Planning(msg_exp_args_range(name, 1, 2, n)))
    } else if !(spec_check_optional_duration(name, args) is Accepted) {
        (st1, spec_check_optional_duration(name, args))
    } else {
        (st1, spec_check_symbol(name, args.spec_get(0)->0))
    }
}

/// `holt_winters(call, N, S)`: a nested aggregate under `GROUP BY time`.
pub open spec fn spec_check_holt_winters(st: FieldChecker, name: Seq<char>, args: ExprList) -> (
    FieldChecker,
    CheckOutcome,
)
    decreases args, 3int,
{
    let st1 = st.with_agg_inc();
    let n = capped_len(args);
    if n != 3 {
        (st1, CheckOutcome::Planning(msg_exp_args(name, 3, n)))
    } else {
        match as_integer_lit(args.spec_get(1)->0) {
            Option::None => (st1, CheckOutcome::Planning(msg_expected_integer(name))),
            Option::Some(v) => if v < 1 {
                (st1, CheckOutcome::Planning(msg_n_argument(name, v as int)))
            } else {
                match as_integer_lit(args.spec_get(2)->0) {
                    Option::None => (st1, CheckOutcome::Planning(msg_expected_integer(name))),
                    Option::Some(s) => if s < 0 {
                        (st1, CheckOutcome::Planning(msg_s_argument(name, s as int)))
                    } else {
                        match args {
                            ExprList::Item(first, _) => match *first {
                                Expr::Call(_) => if !st1.has_group_by_time {
                                    (st1, CheckOutcome::Planning(msg_requires_group_by(name)))
                                } else {
                                    spec_check_nested_expr(st1, *first)
                                },
                                _ => (st1, CheckOutcome::Planning(msg_must_use_aggregate(name))),
                            },
                            ExprList::Empty => (st1, CheckOutcome::Accepted),
                        }
                    },
                }
            },
        }
    }
}

/// One-operand selectors: `max`, `min`, `first`, `last`.
pub open spec fn spec_check_selector1(st: FieldChecker, name: Seq<char>, args: ExprList) -> (
    FieldChecker,
    CheckOutcome,
) {
    let st1 = st.with_sel_inc();
    if capped_len(args) != 1 {
        (st1, CheckOutcome::Planning(msg_exp_args(name, 1, capped_len(args))))
    } else {
        (st1, spec_check_symbol(name, args.spec_get(0)->0))
    }
}

/// One-operand aggregates: `count`, `sum`, `mean`, `median`, `mode`,
/// `stddev`, `spread`, `sum_hll`; `count` admits a nested `distinct`.
pub open spec fn spec_check_aggregate1(st: FieldChecker, name: Seq<char>, args: ExprList) -> (
    FieldChecker,
    CheckOutcome,
)
    decreases args, 3int,
{
    let st1 = st.with_agg_inc();
    if capped_len(args) != 1 {
        (st1, CheckOutcome::Planning(msg_exp_args(name, 1, capped_len(args))))
    } else {
        match args {
            ExprList::Item(first, _) => {
                if name == "count"@ {
                    match *first {
                        Expr::Call(c) => if c.name@ == "distinct"@ {
                            spec_check_distinct(st1, c.args, true)
                        } else {
                            (st1, spec_check_symbol(name, *first))
                        },
                        Expr::Distinct(_) => (
                            st1,
                            CheckOutcome::Internal("unexpected distinct clause in count"@),
                        ),
                        _ => (st1, spec_check_symbol(name, *first)),
                    }
                } else {
                    (st1, spec_check_symbol(name, *first))
                }
            },
            ExprList::Empty => (st1, CheckOutcome::Accepted),
        }
    }
}

/// Dispatch over the aggregate, selector and window functions.
pub open spec fn spec_check_aggregate_function(st: FieldChecker, c: Call) -> (
    FieldChecker,
    CheckOutcome,
)
    decreases c, 4int,
{
    let name = c.name@;
    if name == "percentile"@ {
        spec_check_percentile(st, c.args)
    } else if name == "sample"@ {
        spec_check_sample(st, c.args)
    } else if name == "distinct"@ {
        spec_check_distinct(st, c.args, false)
    } else if (name == "top"@ || name == "bottom"@) && st.has_top_bottom {
        (st, CheckOutcome::Planning(msg_selector_combined(name)))
    } else if name == "top"@ || name == "bottom"@ {
        spec_check_top_bottom(st, name, c.args)
    } else if name == "derivative"@ || name == "non_negative_derivative"@ || name == "elapsed"@ {
        spec_check_derivative(st, name, c.args)
    } else if name == "difference"@ || name == "non_negative_difference"@ || name
        == "cumulative_sum"@ {
        spec_check_window1(st, name, c.args)
    } else if name == "moving_average"@ {
        spec_check_moving_average(st, c.args)
    } else if name == "exponential_moving_average"@ || name == "double_exponential_moving_average"@
        || name == "triple_exponential_moving_average"@ || name == "relative_strength_index"@
        || name == "triple_exponential_derivative"@ {
        spec_check_exponential_moving_average(st, name, c.args)
    } else if name == "kaufmans_efficiency_ratio"@ || name == "kaufmans_adaptive_moving_average"@ {
        spec_check_kaufmans(st, name, c.args)
    } else if name == "chande_momentum_oscillator"@ {
        spec_check_chande_momentum_oscillator(st, name, c.args)
    } else if name == "integral"@ {
        spec_check_integral(st, name, c.args)
    } else if name == "count_hll"@ {
        (st.with_agg_inc(), CheckOutcome::NotImplemented("count_hll"@))
    } else if name == "holt_winters"@ || name == "holt_winters_with_fit"@ {
        spec_check_holt_winters(st, name, c.args)
    } else if name == "max"@ || name == "min"@ || name == "first"@ || name == "last"@ {
        spec_check_selector1(st, name, c.args)
    } else if name == "count"@ || name == "sum"@ || name == "mean"@ || name == "median"@ || name
        == "mode"@ || name == "stddev"@ || name == "spread"@ || name == "sum_hll"@ {
        spec_check_aggregate1(st, name, c.args)
    } else {
        (st, CheckOutcome::Planning(msg_unsupported_function(name)))
    }
}

/// The arguments of a scalar math call: numeric literals pass, everything
/// else is checked as an expression.
pub open spec fn spec_check_math_args(st: FieldChecker, args: ExprList) -> (
    FieldChecker,
    CheckOutcome,
)
    decreases args, 1int,
{
    match args {
        ExprList::Empty => (st, CheckOutcome::Accepted),
        ExprList::Item(head, rest) => {
            if is_number_lit(*head) {
                spec_check_math_args(st, *rest)
            } else {
                let (st1, o) = spec_check_expr(st, *head);
                if o is Accepted {
                    spec_check_math_args(st1, *rest)
                } else {
                    (st1, o)
                }
            }
        },
    }
}

/// A scalar math call: fixed arity, then each non-literal argument checked.
pub open spec fn spec_check_math_function(st: FieldChecker, c: Call) -> (
    FieldChecker,
    CheckOutcome,
)
    decreases c, 4int,
{
    let name = c.name@;
    let exp: nat = if name == "atan2"@ || name == "pow"@ || name == "log"@ {
        2
    } else {
        1
    };
    if capped_len(c.args) != exp {
        (st, CheckOutcome::Planning(msg_exp_args(name, exp, capped_len(c.args))))
    } else {
        spec_check_math_args(st, c.args)
    }
}

/// The nested-expression rule: a nested `distinct` is checked as such, and
/// everything else as an expression.
pub open spec fn spec_check_nested_expr(st: FieldChecker, e: Expr) -> (FieldChecker, CheckOutcome)
    decreases e, 1int,
{
    match e {
        Expr::Call(c) => if c.name@ == "distinct"@ {
            spec_check_distinct(st, c.args, true)
        } else {
            spec_check_expr(st, e)
        },
        _ => spec_check_expr(st, e),
    }
}

/// The nested-symbol rule: a call operand needs `GROUP BY time`, and a plain
/// operand under an uninherited `GROUP BY time` needs an aggregate.
pub open spec fn spec_check_nested_symbol(st: FieldChecker, name: Seq<char>, e: Expr) -> (
    FieldChecker,
    CheckOutcome,
)
    decreases e, 2int,
{
    match e {
        Expr::Call(_) => if !st.has_group_by_time {
            (st, CheckOutcome::Planning(msg_requires_group_by(name)))
        } else {
            spec_check_nested_expr(st, e)
        },
        _ => if st.has_group_by_time && !st.inherited_group_by_time {
            (st, CheckOutcome::Planning(msg_aggregate_required(name)))
        } else {
            (st, spec_check_symbol(name, e))
        },
    }
}

/// One projection expression.
pub open spec fn spec_check_expr(st: FieldChecker, e: Expr) -> (FieldChecker, CheckOutcome)
    decreases e, 0int,
{
    match e {
        Expr::VarRef(v) => if v.name@ == "time"@ {
            (st, CheckOutcome::Accepted)
        } else {
            (st.with_non_aggregate(), CheckOutcome::Accepted)
        },
        Expr::Call(c) => if spec_is_scalar_math(c.name@) {
            spec_check_math_function(st, c)
        } else {
            spec_check_aggregate_function(st, c)
        },
        Expr::Binary(b) => {
            if (*b.lhs is Literal) && (*b.rhs is Literal) {
                (st, CheckOutcome::Planning("cannot perform a binary expression on two literals"@))
            } else if *b.lhs is Literal {
                spec_check_expr(st, *b.rhs)
            } else if *b.rhs is Literal {
                spec_check_expr(st, *b.lhs)
            } else {
                let (st1, o) = spec_check_expr(st, *b.lhs);
                if o is Accepted {
                    spec_check_expr(st1, *b.rhs)
                } else {
                    (st1, o)
                }
            }
        },
        Expr::Nested(inner) => spec_check_expr(st, *inner),
        Expr::BindParameter(_) => (st, CheckOutcome::Internal("unexpected bind parameter"@)),
        Expr::Wildcard(_) => (st, CheckOutcome::Internal("unexpected wildcard"@)),
        Expr::Literal(Literal::Regex(_)) => (st, CheckOutcome::Internal("unexpected regex"@)),
        Expr::Distinct(_) => (st, CheckOutcome::Internal("unexpected distinct clause"@)),
        Expr::Literal(_) => (
            st,
            CheckOutcome::Planning("field must contain at least one variable"@),
        ),
    }
}

/// Every projection of the list, in order, stopping at the first fault.
pub open spec fn spec_check_fields_list(st: FieldChecker, fields: Seq<Field>) -> (
    FieldChecker,
    CheckOutcome,
)
    decreases fields.len(),
{
    if fields.len() == 0 {
        (st, CheckOutcome::Accepted)
    } else {
        let (st1, o) = spec_check_expr(st, fields[0].expr);
        if o is Accepted {
            spec_check_fields_list(st1, fields.skip(1))
        } else {
            (st1, o)
        }
    }
}


/// What a query projects: plain columns, one distinct call, aggregates, one
/// selector, or the top/bottom selector.
#[derive(Debug, Clone, Copy, PartialEq, Eq, Structural)]
pub enum ProjectionType {
    /// No aggregate or selector functions.
    Raw,
    /// A single `distinct(field)` projection.
    RawDistinct,
    /// One or more aggregate functions, or two or more selector functions.
    Aggregate,
    /// A single selector function.
    Selector {
        /// The projection also holds tags or fields.
        has_fields: bool,
    },
    /// The `top` or `bottom` selector.
    TopBottomSelector,
}

/// The outcome of analysing a `SELECT` statement.
#[derive(Debug, Clone, Copy)]
pub struct SelectStatementInfo {
    /// The shape of the projection.
    pub projection_type: ProjectionType,
}

/// The projection type that the counters decide, in the order the rules fire.
pub open spec fn spec_projection_type(st: FieldChecker) -> ProjectionType {
    if st.has_top_bottom {
        ProjectionType::TopBottomSelector
    } else if st.has_group_by_time {
        ProjectionType::Aggregate
    } else if st.has_distinct {
        ProjectionType::RawDistinct
    } else if st.selector_count == 1 && st.aggregate_count == 0 {
        ProjectionType::Selector { has_fields: st.has_non_aggregate_fields }
    } else if st.selector_count > 1 || st.aggregate_count > 0 {
        ProjectionType::Aggregate
    } else {
        ProjectionType::Raw
    }
}

/// The whole walk over a statement's projections, with the cross-cutting
/// rules that follow it; the projection type is meaningful only on acceptance.
pub open spec fn spec_check_fields(st: FieldChecker, q: Select) -> (
    FieldChecker,
    CheckOutcome,
    ProjectionType,
) {
    let (st1, o) = spec_check_fields_list(st, q.fields@);
    if !(o is Accepted) {
        (st1, o, ProjectionType::Raw)
    } else if st1.spec_function_count() == 0 && q.fill is Some {
        (
            st1,
            CheckOutcome::Planning(msg_fill_requires_aggregate(q.fill->0)),
            ProjectionType::Raw,
        )
    } else if st1.spec_function_count() == 0 && st1.has_group_by_time
        && !st1.inherited_group_by_time {
        (
            st1,
            CheckOutcome::Planning("GROUP BY requires at least one aggregate function"@),
            ProjectionType::Raw,
        )
    } else if st1.spec_function_count() >= 2 && st1.has_top_bottom {
        (
            st1,
            CheckOutcome::Planning(
                "selector functions top and bottom cannot be combined with other functions"@,
            ),
            ProjectionType::Raw,
        )
    } else if st1.has_distinct && (st1.spec_function_count() != 1
        || st1.has_non_aggregate_fields) {
        (
            st1,
            CheckOutcome::Planning(
                "aggregate function distinct() cannot be combined with other functions or fields"@,
            ),
            ProjectionType::Raw,
        )
    } else if st1.has_non_aggregate_fields && st1.aggregate_count > 0 {
        (
            st1,
            CheckOutcome::Planning("mixing aggregate and non-aggregate columns is not supported"@),
            ProjectionType::Raw,
        )
    } else if st1.has_non_aggregate_fields && st1.selector_count > 1 {
        (
            st1,
            CheckOutcome::Planning(
                "mixing multiple selector functions with tags or fields is not supported"@,
            ),
            ProjectionType::Raw,
        )
    } else {
        (st1, CheckOutcome::Accepted, spec_projection_type(st1))
    }
}

/// The checker state for a fresh statement.
pub open spec fn spec_initial_checker(has_group_by_time: bool) -> FieldChecker {
    FieldChecker {
        has_group_by_time: has_group_by_time,
        inherited_group_by_time: false,
        has_top_bottom: false,
        has_non_aggregate_fields: false,
        has_distinct: false,
        aggregate_count: 0,
        selector_count: 0,
    }
}

impl FieldChecker {
    /// Notes one more aggregate or window call.
    pub fn inc_aggregate_count(&mut self)
        ensures
            *final(self) == old(self).with_agg_inc(),
    {
        if self.aggregate_count < usize::MAX {
            self.aggregate_count = self.aggregate_count + 1;
        }
    }

    /// Notes one more selector call.
    pub fn inc_selector_count(&mut self)
        ensures
            *final(self) == old(self).with_sel_inc(),
    {
        if self.selector_count < usize::MAX {
            self.selector_count = self.selector_count + 1;
        }
    }

    /// Total number of functions seen, held at the machine limit.
    pub fn function_count(&self) -> (r: usize)
        ensures
            r as nat == if self.spec_function_count() <= usize::MAX {
                self.spec_function_count()
            } else {
                usize::MAX as nat
            },
    {
        if self.aggregate_count <= usize::MAX - self.selector_count {
            self.aggregate_count + self.selector_count
        } else {
            usize::MAX
        }
    }

    /// The operand must be a plain column reference.
    fn check_symbol(&mut self, name: &str, e: &Expr) -> (r: Result<(), Error>)
        ensures
            *final(self) == *old(self),
            outcome_matches(r, spec_check_symbol(name@, *e)),
    {
        match e {
            Expr::VarRef(_) => Ok(()),
            Expr::Wildcard(_) => Err(internal_const("unexpected wildcard or regex")),
            Expr::Literal(Literal::Regex(_)) => Err(
                internal_const("unexpected wildcard or regex"),
            ),
            _ => Err(err_expected_field_arg(name, e)),
        }
    }

    /// `percentile(field, n)`.
    fn check_percentile(&mut self, args: &ExprList) -> (r: Result<(), Error>)
        ensures
            ({
                let (st, o) = spec_check_percentile(*old(self), *args);
                *final(self) == st && outcome_matches(r, o)
            }),
    {
        self.inc_selector_count();
        let n = args.len_capped();
        if n != 2 {
            return Err(err_exp_args("percentile", 2, n));
        }
        proof {
            args.lemma_get_is_some(1);
            args.lemma_get_is_some(0);
        }
        let a1 = args.get(1).unwrap();
        if !matches!(a1, Expr::Literal(Literal::Integer(_)) | Expr::Literal(Literal::Float(_))) {
            return Err(err_percentile_number(a1));
        }
        let a0 = args.get(0).unwrap();
        self.check_symbol("percentile", a0)
    }

    /// `sample(field, n)`.
    fn check_sample(&mut self, args: &ExprList) -> (r: Result<(), Error>)
        ensures
            ({
                let (st, o) = spec_check_sample(*old(self), *args);
                *final(self) == st && outcome_matches(r, o)
            }),
    {
        self.inc_selector_count();
        let n = args.len_capped();
        if n != 2 {
            return Err(err_exp_args("sample", 2, n));
        }
        proof {
            args.lemma_get_is_some(1);
            args.lemma_get_is_some(0);
        }
        let v: i64 = match args.get(1).unwrap() {
            Expr::Literal(Literal::Integer(v)) => *v,
            _ => {
                return Err(err_expected_integer("sample"));
            },
        };
        if v <= 1 {
            return Err(err_sample_window(v));
        }
        let a0 = args.get(0).unwrap();
        self.check_symbol("sample", a0)
    }

    /// `distinct(field)`, possibly nested inside `count`.
    fn check_distinct(&mut self, args: &ExprList, nested: bool) -> (r: Result<(), Error>)
        ensures
            ({
                let (st, o) = spec_check_distinct(*old(self), *args, nested);
                *final(self) == st && outcome_matches(r, o)
            }),
    {
        self.inc_aggregate_count();
        let n = args.len_capped();
        if n != 1 {
            return Err(err_exp_args("distinct", 1, n));
        }
        proof {
            args.lemma_get_is_some(0);
        }
        if !matches!(args.get(0).unwrap(), Expr::VarRef(_)) {
            return Err(planning_const("expected field argument in distinct()"));
        }
        if !nested {
            self.has_distinct = true;
        }
        Ok(())
    }

    /// `top(...)` or `bottom(...)`.
    #[verifier::loop_isolation(false)]
    fn check_top_bottom(&mut self, name: &str, args: &ExprList) -> (r: Result<(), Error>)
        ensures
            ({
                let (st, o) = spec_check_top_bottom(*old(self), name@, *args);
                *final(self) == st && outcome_matches(r, o)
            }),
    {
        self.inc_selector_count();
        self.has_top_bottom = true;
        let n = args.len_capped();
        if n < 2 {
            return Err(err_exp_args_min(name, 2, n));
        }
        proof {
            args.lemma_get_is_some((n - 1) as nat);
            args.lemma_get_is_some(0);
        }
        let last = args.get(n - 1).unwrap();
        let limit: i64 = match last {
            Expr::Literal(Literal::Integer(v)) => *v,
            _ => {
                return Err(err_expected_integer_last(name, last));
            },
        };
        if limit <= 0 {
            return Err(err_top_bottom_limit(limit, name));
        }
        if !matches!(args.get(0).unwrap(), Expr::VarRef(_)) {
            return Err(err_expected_first_field(name));
        }
        let mut i: usize = 1;
        while i + 1 < n
            invariant
                1 <= i,
                i + 1 <= n,
                n == capped_len(*args),
                spec_first_non_varref_mid(*args, 1) == spec_first_non_varref_mid(*args, i as nat),
            decreases n - i,
        {
            proof {
                args.lemma_get_is_some(i as nat);
            }
            let a = args.get(i).unwrap();
            if !matches!(a, Expr::VarRef(_)) {
                return Err(err_only_fields(name, a));
            }
            i = i + 1;
        }
        if n > 2 {
            self.has_non_aggregate_fields = true;
        }
        Ok(())
    }

    /// The optional trailing duration of `derivative`, `elapsed` and
    /// `integral`.
    fn check_optional_duration(&mut self, name: &str, args: &ExprList) -> (r: Result<(), Error>)
        ensures
            *final(self) == *old(self),
            outcome_matches(r, spec_check_optional_duration(name@, *args)),
    {
        match args.get(1) {
            Option::None => Ok(()),
            Option::Some(a) => match a {
                Expr::Literal(Literal::Duration(d)) => {
                    if *d <= 0 {
                        Err(err_duration_positive(*d))
                    } else {
                        Ok(())
                    }
                },
                _ => Err(err_second_duration(name, a)),
            },
        }
    }

    /// `derivative` and `non_negative_derivative`.
    fn check_derivative(&mut self, name: &str, args: &ExprList) -> (r: Result<(), Error>)
        ensures
            ({
                let (st, o) = spec_check_derivative(*old(self), name@, *args);
                *final(self) == st && outcome_matches(r, o)
            }),
        decreases args, 5int,
    {
        self.inc_aggregate_count();
        let n = args.len_capped();
        if !(1 <= n && n <= 2) {
            return Err(err_exp_args_range(name, 1, 2, n));
        }
        let dur = self.check_optional_duration(name, args);
        if let Err(e) = dur {
            return Err(e);
        }
        match args {
            ExprList::Item(first, _) => self.check_nested_symbol(name, first),
            ExprList::Empty => Ok(()),
        }
    }

    /// `elapsed`, whose rules match the derivative family.
    fn check_elapsed(&mut self, name: &str, args: &ExprList) -> (r: Result<(), Error>)
        ensures
            ({
                let (st, o) = spec_check_derivative(*old(self), name@, *args);
                *final(self) == st && outcome_matches(r, o)
            }),
        decreases args, 6int,
    {
        self.check_derivative(name, args)
    }

    /// `difference`, `non_negative_difference` and `cumulative_sum`.
    fn check_difference(&mut self, name: &str, args: &ExprList) -> (r: Result<(), Error>)
        ensures
            ({
                let (st, o) = spec_check_window1(*old(self), name@, *args);
                *final(self) == st && outcome_matches(r, o)
            }),
        decreases args, 5int,
    {
        self.inc_aggregate_count();
        let n = args.len_capped();
        if n != 1 {
            return Err(err_exp_args(name, 1, n));
        }
        match args {
            ExprList::Item(first, _) => self.check_nested_symbol(name, first),
            ExprList::Empty => Ok(()),
        }
    }

    /// `cumulative_sum`.
    fn check_cumulative_sum(&mut self, args: &ExprList) -> (r: Result<(), Error>)
        ensures
            ({
                let (st, o) = spec_check_window1(*old(self), "cumulative_sum"@, *args);
                *final(self) == st && outcome_matches(r, o)
            }),
        decreases args, 6int,
    {
        self.check_difference("cumulative_sum", args)
    }

    /// `moving_average(operand, window)`.
    fn check_moving_average(&mut self, args: &ExprList) -> (r: Result<(), Error>)
        ensures
            ({
                let (st, o) = spec_check_moving_average(*old(self), *args);
                *final(self) == st && outcome_matches(r, o)
            }),
        decreases args, 5int,
    {
        self.inc_aggregate_count();
        let n = args.len_capped();
        if n != 2 {
            return Err(err_exp_args("moving_average", 2, n));
        }
        proof {
            args.lemma_get_is_some(1);
        }
        let v: i64 = match args.get(1).unwrap() {
            Expr::Literal(Literal::Integer(v)) => *v,
            _ => {
                return Err(err_expected_integer("moving_average"));
            },
        };
        if v <= 1 {
            return Err(err_moving_average_window(v));
        }
        match args {
            ExprList::Item(first, _) => self.check_nested_symbol("moving_average", first),
            ExprList::Empty => Ok(()),
        }
    }

    /// The optional hold-period argument of the moving-average families.
    fn check_hold_period(&mut self, name: &str, args: &ExprList, least_one: bool) -> (r: Result<
        (),
        Error,
    >)
        ensures
            *final(self) == *old(self),
            outcome_matches(r, spec_check_hold_period(name@, *args, least_one)),
    {
        match args.get(2) {
            Option::None => Ok(()),
            Option::Some(a) => {
                let v: i64 = match a {
                    Expr::Literal(Literal::Integer(v)) => *v,
                    _ => {
                        return Err(err_expected_integer(name));
                    },
                };
                if least_one && v < 1 && v != -1 {
                    Err(err_hold_period(name, true))
                } else if !least_one && v < 0 && v != -1 {
                    Err(err_hold_period(name, false))
                } else {
                    Ok(())
                }
            },
        }
    }

    /// The exponential moving average family.
    fn check_exponential_moving_average(&mut self, name: &str, args: &ExprList) -> (r: Result<
        (),
        Error,
    >)
        ensures
            ({
                let (st, o) = spec_check_exponential_moving_average(*old(self), name@, *args);
                *final(self) == st && outcome_matches(r, o)
            }),
        decreases args, 5int,
    {
        self.inc_aggregate_count();
        let n = args.len_capped();
        if !(2 <= n && n <= 4) {
            return Err(err_exp_args_range(name, 2, 4, n));
        }
        proof {
            args.lemma_get_is_some(1);
        }
        let v: i64 = match args.get(1).unwrap() {
            Expr::Literal(Literal::Integer(v)) => *v,
            _ => {
                return Err(err_expected_integer(name));
            },
        };
        if v < 1 {
            return Err(err_period(name, v));
        }
        let least_one = str_eq(name, "triple_exponential_derivative");
        let hold = self.check_hold_period(name, args, least_one);
        if let Err(e) = hold {
            return Err(e);
        }
        match args.get(3) {
            Option::Some(a) => {
                let w: &String = match a {
                    Expr::Literal(Literal::Str(t)) => t,
                    _ => {
                        return Err(err_expected_string(name));
                    },
                };
                if !(str_eq_string("exponential", w) || str_eq_string("simple", w)) {
                    return Err(err_warmup2(name, w.as_str()));
                }
            },
            Option::None => {},
        }
        match args {
            ExprList::Item(first, _) => self.check_nested_symbol(name, first),
            ExprList::Empty => Ok(()),
        }
    }

    /// The Kaufman family.
    fn check_kaufmans(&mut self, name: &str, args: &ExprList) -> (r: Result<(), Error>)
        ensures
            ({
                let (st, o) = spec_check_kaufmans(*old(self), name@, *args);
                *final(self) == st && outcome_matches(r, o)
            }),
        decreases args, 5int,
    {
        self.inc_aggregate_count();
        let n = args.len_capped();
        if !(2 <= n && n <= 3) {
            return Err(err_exp_args_range(name, 2, 3, n));
        }
        proof {
            args.lemma_get_is_some(1);
        }
        let v: i64 = match args.get(1).unwrap() {
            Expr::Literal(Literal::Integer(v)) => *v,
            _ => {
                return Err(err_expected_integer(name));
            },
        };
        if v < 1 {
            return Err(err_period(name, v));
        }
        let hold = self.check_hold_period(name, args, false);
        if let Err(e) = hold {
            return Err(e);
        }
        match args {
            ExprList::Item(first, _) => self.check_nested_symbol(name, first),
            ExprList::Empty => Ok(()),
        }
    }

    /// `chande_momentum_oscillator`.
    fn check_chande_momentum_oscillator(&mut self, name: &str, args: &ExprList) -> (r: Result<
        (),
        Error,
    >)
        ensures
            ({
                let (st, o) = spec_check_chande_momentum_oscillator(*old(self), name@, *args);
                *final(self) == st && outcome_matches(r, o)
            }),
        decreases args, 5int,
    {
        self.inc_aggregate_count();
        let n = args.len_capped();
        if !(2 <= n && n <= 4) {
            return Err(err_exp_args_range(name, 2, 4, n));
        }
        proof {
            args.lemma_get_is_some(1);
        }
        let v: i64 = match args.get(1).unwrap() {
            Expr::Literal(Literal::Integer(v)) => *v,
            _ => {
                return Err(err_expected_integer(name));
            },
        };
        if v < 1 {
            return Err(err_period(name, v));
        }
        let hold = self.check_hold_period(name, args, false);
        if let Err(e) = hold {
            return Err(e);
        }
        match args.get(3) {
            Option::Some(a) => {
                let w: &String = match a {
                    Expr::Literal(Literal::Str(t)) => t,
                    _ => {
                        return Err(err_expected_string(name));
                    },
                };
                if !(str_eq_string("none", w) || str_eq_string("exponential", w) || str_eq_string(
                    "simple",
                    w,
                )) {
                    return Err(err_warmup3(name, w.as_str()));
                }
            },
            Option::None => {},
        }
        match args {
            ExprList::Item(first, _) => self.check_nested_symbol(name, first),
            ExprList::Empty => Ok(()),
        }
    }

    /// `integral(field, [duration])`.
    fn check_integral(&mut self, name: &str, args: &ExprList) -> (r: Result<(), Error>)
        ensures
            ({
                let (st, o) = spec_check_integral(*old(self), name@, *args);
                *final(self) == st && outcome_matches(r, o)
            }),
    {
        self.inc_aggregate_count();
        let n = args.len_capped();
        if !(1 <= n && n <= 2) {
            return Err(err_exp_args_range(name, 1, 2, n));
        }
        let dur = self.check_optional_duration(name, args);
        if let Err(e) = dur {
            return Err(e);
        }
        proof {
            args.lemma_get_is_some(0);
        }
        let a0 = args.get(0).unwrap();
        self.check_symbol(name, a0)
    }

    /// `count_hll`, which this planner does not support.
    fn check_count_hll(&mut self, _args: &ExprList) -> (r: Result<(), Error>)
        ensures
            *final(self) == old(self).with_agg_inc(),
            outcome_matches(r, CheckOutcome::NotImplemented("count_hll"@)),
    {
        self.inc_aggregate_count();
        Err(not_implemented_const("count_hll"))
    }

    /// `holt_winters` and `holt_winters_with_fit`.
    fn check_holt_winters(&mut self, name: &str, args: &ExprList) -> (r: Result<(), Error>)
        ensures
            ({
                let (st, o) = spec_check_holt_winters(*old(self), name@, *args);
                *final(self) == st && outcome_matches(r, o)
            }),
        decreases args, 5int,
    {
        self.inc_aggregate_count();
        let n = args.len_capped();
        if n != 3 {
            return Err(err_exp_args(name, 3, n));
        }
        proof {
            args.lemma_get_is_some(1);
            args.lemma_get_is_some(2);
        }
        let v: i64 = match args.get(1).unwrap() {
            Expr::Literal(Literal::Integer(v)) => *v,
            _ => {
                return Err(err_expected_integer(name));
            },
        };
        if v < 1 {
            return Err(err_n_argument(name, v));
        }
        let sv: i64 = match args.get(2).unwrap() {
            Expr::Literal(Literal::Integer(v)) => *v,
            _ => {
                return Err(err_expected_integer(name));
            },
        };
        if sv < 0 {
            return Err(err_s_argument(name, sv));
        }
        match args {
            ExprList::Item(first, _) => match &**first {
                Expr::Call(_) => {
                    if !self.has_group_by_time {
                        Err(err_requires_group_by(name))
                    } else {
                        self.check_nested_expr(first)
                    }
                },
                _ => Err(err_must_use_aggregate(name)),
            },
            ExprList::Empty => Ok(()),
        }
    }

    /// One-operand selectors and aggregates, and the dispatch over every
    /// recognized function name.
    fn check_aggregate_function(&mut self, c: &Call) -> (r: Result<(), Error>)
        ensures
            ({
                let (st, o) = spec_check_aggregate_function(*old(self), *c);
                *final(self) == st && outcome_matches(r, o)
            }),
        decreases c, 7int,
    {
        let name = c.name.as_str();
        if str_eq(name, "percentile") {
            self.check_percentile(&c.args)
        } else if str_eq(name, "sample") {
            self.check_sample(&c.args)
        } else if str_eq(name, "distinct") {
            self.check_distinct(&c.args, false)
        } else if str_eq(name, "top") || str_eq(name, "bottom") {
            if self.has_top_bottom {
                Err(err_selector_combined(name))
            } else {
                self.check_top_bottom(name, &c.args)
            }
        } else if str_eq(name, "derivative") || str_eq(name, "non_negative_derivative") {
            self.check_derivative(name, &c.args)
        } else if str_eq(name, "elapsed") {
            self.check_elapsed(name, &c.args)
        } else if str_eq(name, "difference") || str_eq(name, "non_negative_difference") {
            self.check_difference(name, &c.args)
        } else if str_eq(name, "cumulative_sum") {
            self.check_cumulative_sum(&c.args)
        } else if str_eq(name, "moving_average") {
            self.check_moving_average(&c.args)
        } else if str_eq(name, "exponential_moving_average") || str_eq(
            name,
            "double_exponential_moving_average",
        ) || str_eq(name, "triple_exponential_moving_average") || str_eq(
            name,
            "relative_strength_index",
        ) || str_eq(name, "triple_exponential_derivative") {
            self.check_exponential_moving_average(name, &c.args)
        } else if str_eq(name, "kaufmans_efficiency_ratio") || str_eq(
            name,
            "kaufmans_adaptive_moving_average",
        ) {
            self.check_kaufmans(name, &c.args)
        } else if str_eq(name, "chande_momentum_oscillator") {
            self.check_chande_momentum_oscillator(name, &c.args)
        } else if str_eq(name, "integral") {
            self.check_integral(name, &c.args)
        } else if str_eq(name, "count_hll") {
            self.check_count_hll(&c.args)
        } else if str_eq(name, "holt_winters") || str_eq(name, "holt_winters_with_fit") {
            self.check_holt_winters(name, &c.args)
        } else if str_eq(name, "max") || str_eq(name, "min") || str_eq(name, "first") || str_eq(
            name,
            "last",
        ) {
            self.inc_selector_count();
            let n = c.args.len_capped();
            if n != 1 {
                return Err(err_exp_args(name, 1, n));
            }
            match &c.args {
                ExprList::Item(first, _) => self.check_symbol(name, first),
                ExprList::Empty => Ok(()),
            }
        } else if str_eq(name, "count") || str_eq(name, "sum") || str_eq(name, "mean") || str_eq(
            name,
            "median",
        ) || str_eq(name, "mode") || str_eq(name, "stddev") || str_eq(name, "spread") || str_eq(
            name,
            "sum_hll",
        ) {
            self.inc_aggregate_count();
            let n = c.args.len_capped();
            if n != 1 {
                return Err(err_exp_args(name, 1, n));
            }
            match &c.args {
                ExprList::Item(first, _) => {
                    if str_eq(name, "count") {
                        match &**first {
                            Expr::Call(c2) => {
                                if str_eq_string("distinct", &c2.name) {
                                    return self.check_distinct(&c2.args, true);
                                }
                                self.check_symbol(name, first)
                            },
                            Expr::Distinct(_) => Err(
                                internal_const("unexpected distinct clause in count"),
                            ),
                            _ => self.check_symbol(name, first),
                        }
                    } else {
                        self.check_symbol(name, first)
                    }
                },
                ExprList::Empty => Ok(()),
            }
        } else {
            Err(err_unsupported_function(name))
        }
    }

    /// The arguments of a scalar math call.
    fn check_math_args(&mut self, l: &ExprList) -> (r: Result<(), Error>)
        ensures
            ({
                let (st, o) = spec_check_math_args(*old(self), *l);
                *final(self) == st && outcome_matches(r, o)
            }),
        decreases l, 1int,
    {
        match l {
            ExprList::Empty => Ok(()),
            ExprList::Item(head, rest) => {
                if !matches!(
                    &**head,
                    Expr::Literal(Literal::Integer(_)) | Expr::Literal(Literal::Float(_)),
                ) {
                    let one = self.check_expr(head);
                    if let Err(e) = one {
                        return Err(e);
                    }
                }
                self.check_math_args(rest)
            },
        }
    }

    /// A scalar math call.
    fn check_math_function(&mut self, c: &Call) -> (r: Result<(), Error>)
        ensures
            ({
                let (st, o) = spec_check_math_function(*old(self), *c);
                *final(self) == st && outcome_matches(r, o)
            }),
        decreases c, 7int,
    {
        let name = c.name.as_str();
        let exp: usize = if str_eq(name, "atan2") || str_eq(name, "pow") || str_eq(name, "log") {
            2
        } else {
            1
        };
        let n = c.args.len_capped();
        if n != exp {
            return Err(err_exp_args(name, exp, n));
        }
        self.check_math_args(&c.args)
    }

    /// The nested-expression rule.
    fn check_nested_expr(&mut self, e: &Expr) -> (r: Result<(), Error>)
        ensures
            ({
                let (st, o) = spec_check_nested_expr(*old(self), *e);
                *final(self) == st && outcome_matches(r, o)
            }),
        decreases e, 1int,
    {
        match e {
            Expr::Call(c) => {
                if str_eq_string("distinct", &c.name) {
                    self.check_distinct(&c.args, true)
                } else {
                    self.check_expr(e)
                }
            },
            _ => self.check_expr(e),
        }
    }

    /// The nested-symbol rule.
    fn check_nested_symbol(&mut self, name: &str, e: &Expr) -> (r: Result<(), Error>)
        ensures
            ({
                let (st, o) = spec_check_nested_symbol(*old(self), name@, *e);
                *final(self) == st && outcome_matches(r, o)
            }),
        decreases e, 2int,
    {
        match e {
            Expr::Call(_) => {
                if !self.has_group_by_time {
                    Err(err_requires_group_by(name))
                } else {
                    self.check_nested_expr(e)
                }
            },
            _ => {
                if self.has_group_by_time && !self.inherited_group_by_time {
                    Err(err_aggregate_required(name))
                } else {
                    self.check_symbol(name, e)
                }
            },
        }
    }

    /// One projection expression.
    fn check_expr(&mut self, e: &Expr) -> (r: Result<(), Error>)
        ensures
            ({
                let (st, o) = spec_check_expr(*old(self), *e);
                *final(self) == st && outcome_matches(r, o)
            }),
        decreases e, 0int,
    {
        match e {
            Expr::VarRef(v) => {
                if !str_eq_string("time", &v.name) {
                    self.has_non_aggregate_fields = true;
                }
                Ok(())
            },
            Expr::Call(c) => {
                if is_scalar_math_function(c.name.as_str()) {
                    self.check_math_function(c)
                } else {
                    self.check_aggregate_function(c)
                }
            },
            Expr::Binary(b) => {
                let lhs_lit = matches!(&*b.lhs, Expr::Literal(_));
                let rhs_lit = matches!(&*b.rhs, Expr::Literal(_));
                if lhs_lit && rhs_lit {
                    Err(planning_const("cannot perform a binary expression on two literals"))
                } else if lhs_lit {
                    self.check_expr(&b.rhs)
                } else if rhs_lit {
                    self.check_expr(&b.lhs)
                } else {
                    let one = self.check_expr(&b.lhs);
                    if let Err(e2) = one {
                        return Err(e2);
                    }
                    self.check_expr(&b.rhs)
                }
            },
            Expr::Nested(inner) => self.check_expr(inner),
            Expr::BindParameter(_) => Err(internal_const("unexpected bind parameter")),
            Expr::Wildcard(_) => Err(internal_const("unexpected wildcard")),
            Expr::Literal(Literal::Regex(_)) => Err(internal_const("unexpected regex")),
            Expr::Distinct(_) => Err(internal_const("unexpected distinct clause")),
            Expr::Literal(_) => Err(planning_const("field must contain at least one variable")),
        }
    }

    /// The whole walk, with the cross-cutting rules and the projection type.
    #[verifier::loop_isolation(false)]
    pub fn check_fields(&mut self, q: &Select) -> (r: Result<ProjectionType, Error>)
        ensures
            ({
                let (st, o, pt) = spec_check_fields(*old(self), *q);
                *final(self) == st && (match r {
                    Result::Ok(p) => o is Accepted && p == pt,
                    Result::Err(e) => outcome_matches(Result::<(), Error>::Err(e), o),
                })
            }),
    {
        let ghost st0 = *self;
        let mut i: usize = 0;
        proof {
            assert(q.fields@.skip(0) =~= q.fields@);
        }
        while i < q.fields.len()
            invariant
                i <= q.fields@.len(),
                spec_check_fields_list(st0, q.fields@) == spec_check_fields_list(
                    *self,
                    q.fields@.skip(i as int),
                ),
            decreases q.fields@.len() - i,
        {
            let one = self.check_expr(&q.fields[i].expr);
            proof {
                assert(q.fields@.skip(i as int)[0] == q.fields@[i as int]);
                assert(q.fields@.skip(i as int).skip(1) =~= q.fields@.skip(i + 1));
            }
            if let Err(e) = one {
                return Err(e);
            }
            i = i + 1;
        }
        proof {
            assert(q.fields@.skip(q.fields@.len() as int) =~= Seq::<Field>::empty());
        }
        let fc = self.function_count();
        if fc == 0 {
            if let Option::Some(fill) = &q.fill {
                return Err(err_fill_requires_aggregate(fill));
            }
            if self.has_group_by_time && !self.inherited_group_by_time {
                return Err(planning_const("GROUP BY requires at least one aggregate function"));
            }
        } else if fc >= 2 && self.has_top_bottom {
            return Err(
                planning_const(
                    "selector functions top and bottom cannot be combined with other functions",
                ),
            );
        }
        if self.has_distinct && (fc != 1 || self.has_non_aggregate_fields) {
            return Err(
                planning_const(
                    "aggregate function distinct() cannot be combined with other functions or fields",
                ),
            );
        }
        if self.has_non_aggregate_fields {
            if self.aggregate_count > 0 {
                return Err(
                    planning_const("mixing aggregate and non-aggregate columns is not supported"),
                );
            } else if self.selector_count > 1 {
                return Err(
                    planning_const(
                        "mixing multiple selector functions with tags or fields is not supported",
                    ),
                );
            }
        }
        if self.has_top_bottom {
            Ok(ProjectionType::TopBottomSelector)
        } else if self.has_group_by_time {
            Ok(ProjectionType::Aggregate)
        } else if self.has_distinct {
            Ok(ProjectionType::RawDistinct)
        } else if self.selector_count == 1 && self.aggregate_count == 0 {
            Ok(ProjectionType::Selector { has_fields: self.has_non_aggregate_fields })
        } else if self.selector_count > 1 || self.aggregate_count > 0 {
            Ok(ProjectionType::Aggregate)
        } else {
            Ok(ProjectionType::Raw)
        }
    }
}

/// Analyses a rewritten statement: validates the projection list and names
/// its projection type.
pub fn select_statement_info(q: &Select) -> (r: Result<SelectStatementInfo, Error>)
    ensures
        ({
            let (st, o, pt) = spec_check_fields(
                spec_initial_checker(spec_has_time_dimension(q.group_by)),
                *q,
            );
            match r {
                Result::Ok(info) => o is Accepted && info.projection_type == pt,
                Result::Err(e) => outcome_matches(Result::<(), Error>::Err(e), o),
            }
        }),
{
    let has_group_by_time = q.has_time_dimension();
    let mut fc = FieldChecker {
        has_group_by_time,
        inherited_group_by_time: false,
        has_top_bottom: false,
        has_non_aggregate_fields: false,
        has_distinct: false,
        aggregate_count: 0,
        selector_count: 0,
    };
    let projection_type = match fc.check_fields(q) {
        Result::Ok(pt) => pt,
        Result::Err(e) => {
            return Err(e);
        },
    };
    Ok(SelectStatementInfo { projection_type })
}


/// How one checking step may change the state: counters only grow, flags are
/// only set, and the `GROUP BY time` facts stay put.
pub open spec fn evolves(a: FieldChecker, b: FieldChecker) -> bool {
    &&& b.aggregate_count >= a.aggregate_count
    &&& b.selector_count >= a.selector_count
    &&& (a.has_top_bottom ==> b.has_top_bottom)
    &&& (a.has_non_aggregate_fields ==> b.has_non_aggregate_fields)
    &&& (a.has_distinct ==> b.has_distinct)
    &&& b.has_group_by_time == a.has_group_by_time
    &&& b.inherited_group_by_time == a.inherited_group_by_time
    &&& (b.has_top_bottom ==> a.has_top_bottom || b.selector_count >= 1)
}

/// A top or bottom call was counted when it was noted.
pub open spec fn checker_inv(st: FieldChecker) -> bool {
    st.has_top_bottom ==> st.selector_count >= 1
}

/// A step that evolves the state keeps the invariant.
proof fn lemma_evolves_inv(a: FieldChecker, b: FieldChecker)
    requires
        checker_inv(a),
        evolves(a, b),
    ensures
        checker_inv(b),
{
}

/// The non-recursive argument checks evolve the state.
proof fn lemma_evolves_flat(st: FieldChecker, args: ExprList, name: Seq<char>, nested: bool)
    ensures
        evolves(st, spec_check_percentile(st, args).0),
        evolves(st, spec_check_sample(st, args).0),
        evolves(st, spec_check_distinct(st, args, nested).0),
        evolves(st, spec_check_top_bottom(st, name, args).0),
        evolves(st, spec_check_integral(st, name, args).0),
        evolves(st, spec_check_selector1(st, name, args).0),
{
}

/// Every recursive check evolves the state.
proof fn lemma_evolves_expr(st: FieldChecker, e: Expr)
    ensures
        evolves(st, spec_check_expr(st, e).0),
    decreases e, 0int,
{
    match e {
        Expr::Call(c) => {
            if spec_is_scalar_math(c.name@) {
                lemma_evolves_math_function(st, c);
            } else {
                lemma_evolves_aggregate_function(st, c);
            }
        },
        Expr::Binary(b) => {
            if (*b.lhs is Literal) && (*b.rhs is Literal) {
            } else if *b.lhs is Literal {
                lemma_evolves_expr(st, *b.rhs);
            } else if *b.rhs is Literal {
                lemma_evolves_expr(st, *b.lhs);
            } else {
                lemma_evolves_expr(st, *b.lhs);
                let (st1, o) = spec_check_expr(st, *b.lhs);
                if o is Accepted {
                    lemma_evolves_expr(st1, *b.rhs);
                }
            }
        },
        Expr::Nested(inner) => {
            lemma_evolves_expr(st, *inner);
        },
        _ => {},
    }
}

proof fn lemma_evolves_math_args(st: FieldChecker, args: ExprList)
    ensures
        evolves(st, spec_check_math_args(st, args).0),
    decreases args, 1int,
{
    match args {
        ExprList::Empty => {},
        ExprList::Item(head, rest) => {
            if is_number_lit(*head) {
                lemma_evolves_math_args(st, *rest);
            } else {
                lemma_evolves_expr(st, *head);
                let (st1, o) = spec_check_expr(st, *head);
                if o is Accepted {
                    lemma_evolves_math_args(st1, *rest);
                }
            }
        },
    }
}

proof fn lemma_evolves_math_function(st: FieldChecker, c: Call)
    ensures
        evolves(st, spec_check_math_function(st, c).0),
    decreases c, 4int,
{
    let name = c.name@;
    let exp: nat = if name == "atan2"@ || name == "pow"@ || name == "log"@ {
        2
    } else {
        1
    };
    if capped_len(c.args) == exp {
        lemma_evolves_math_args(st, c.args);
    }
}

proof fn lemma_evolves_nested_expr(st: FieldChecker, e: Expr)
    ensures
        evolves(st, spec_check_nested_expr(st, e).0),
    decreases e, 1int,
{
    match e {
        Expr::Call(c) => {
            if c.name@ == "distinct"@ {
            } else {
                lemma_evolves_expr(st, e);
            }
        },
        _ => {
            lemma_evolves_expr(st, e);
        },
    }
}

proof fn lemma_evolves_nested_symbol(st: FieldChecker, name: Seq<char>, e: Expr)
    ensures
        evolves(st, spec_check_nested_symbol(st, name, e).0),
    decreases e, 2int,
{
    match e {
        Expr::Call(_) => {
            if st.has_group_by_time {
                lemma_evolves_nested_expr(st, e);
            }
        },
        _ => {},
    }
}

proof fn lemma_evolves_with_first(st: FieldChecker, name: Seq<char>, args: ExprList)
    ensures
        evolves(st, spec_check_derivative(st, name, args).0),
        evolves(st, spec_check_window1(st, name, args).0),
        evolves(st, spec_check_moving_average(st, args).0),
        evolves(st, spec_check_exponential_moving_average(st, name, args).0),
        evolves(st, spec_check_kaufmans(st, name, args).0),
        evolves(st, spec_check_chande_momentum_oscillator(st, name, args).0),
        evolves(st, spec_check_holt_winters(st, name, args).0),
        evolves(st, spec_check_aggregate1(st, name, args).0),
    decreases args, 4int,
{
    match args {
        ExprList::Item(first, _) => {
            lemma_evolves_nested_symbol(st.with_agg_inc(), name, *first);
            match *first {
                Expr::Call(c) => {
                    lemma_evolves_nested_expr(st.with_agg_inc(), *first);
                },
                _ => {},
            }
        },
        ExprList::Empty => {},
    }
}

proof fn lemma_evolves_aggregate_function(st: FieldChecker, c: Call)
    ensures
        evolves(st, spec_check_aggregate_function(st, c).0),
    decreases c, 4int,
{
    lemma_evolves_flat(st, c.args, c.name@, false);
    lemma_evolves_flat(st, c.args, c.name@, true);
    lemma_evolves_with_first(st, c.name@, c.args);
}

/// The whole projection walk evolves the state.
pub proof fn lemma_evolves_fields_list(st: FieldChecker, fields: Seq<Field>)
    ensures
        evolves(st, spec_check_fields_list(st, fields).0),
    decreases fields.len(),
{
    if fields.len() > 0 {
        lemma_evolves_expr(st, fields[0].expr);
        let (st1, o) = spec_check_expr(st, fields[0].expr);
        if o is Accepted {
            lemma_evolves_fields_list(st1, fields.skip(1));
        }
    }
}

/// A projection of a bare column other than `time` marks the state as holding
/// non-aggregate fields.
proof fn lemma_bare_ref_marks(st: FieldChecker, fields: Seq<Field>, i: int)
    requires
        0 <= i < fields.len(),
        fields[i].expr matches Expr::VarRef(v) && v.name@ != "time"@,
        spec_check_fields_list(st, fields).1 is Accepted,
    ensures
        spec_check_fields_list(st, fields).0.has_non_aggregate_fields,
    decreases fields.len(),
{
    let (st1, o) = spec_check_expr(st, fields[0].expr);
    if i == 0 {
        lemma_evolves_fields_list(st1, fields.skip(1));
    } else {
        lemma_bare_ref_marks(st1, fields.skip(1), i - 1);
    }
}

/// When a statement is accepted with the top or bottom selector as its
/// projection type, that call is the only function in the projection list.
pub proof fn lemma_top_bottom_alone(q: Select)
    requires
        ({
            let (st, o, pt) = spec_check_fields(
                spec_initial_checker(spec_has_time_dimension(q.group_by)),
                q,
            );
            o is Accepted && pt == ProjectionType::TopBottomSelector
        }),
    ensures
        spec_check_fields(
            spec_initial_checker(spec_has_time_dimension(q.group_by)),
            q,
        ).0.spec_function_count() == 1,
{
    let init = spec_initial_checker(spec_has_time_dimension(q.group_by));
    let (st1, o1) = spec_check_fields_list(init, q.fields@);
    lemma_evolves_fields_list(init, q.fields@);
}

/// When a statement is accepted as a selector query without extra fields, the
/// projection holds exactly one selector call, no aggregate call, and no bare
/// column reference other than `time`.
pub proof fn lemma_lone_selector(q: Select)
    requires
        ({
            let (st, o, pt) = spec_check_fields(
                spec_initial_checker(spec_has_time_dimension(q.group_by)),
                q,
            );
            o is Accepted && pt == (ProjectionType::Selector { has_fields: false })
        }),
    ensures
        ({
            let st = spec_check_fields(
                spec_initial_checker(spec_has_time_dimension(q.group_by)),
                q,
            ).0;
            st.selector_count == 1 && st.aggregate_count == 0 && !st.has_non_aggregate_fields
        }),
        forall|i: int|
            0 <= i < q.fields@.len() ==> !(#[trigger] q.fields@[i].expr matches Expr::VarRef(v)
                && v.name@ != "time"@),
{
    let init = spec_initial_checker(spec_has_time_dimension(q.group_by));
    let (st1, o1) = spec_check_fields_list(init, q.fields@);
    assert forall|i: int|
        0 <= i < q.fields@.len() implies !(#[trigger] q.fields@[i].expr matches Expr::VarRef(v)
        && v.name@ != "time"@) by {
        if q.fields@[i].expr matches Expr::VarRef(v) && v.name@ != "time"@ {
            lemma_bare_ref_marks(init, q.fields@, i);
        }
    }
}

} // verus!
