use vstd::prelude::*;

use crate::ast::{Expr, FillClause};
use crate::error::Error;
use crate::render::{push_debug_expr, push_duration, spec_debug_expr, spec_duration_text};
use crate::text::{push_i64, push_usize, spec_dec, spec_udec};

verus! {

/// The error is a planning error with exactly this message.
pub open spec fn planning_with(e: Error, m: Seq<char>) -> bool {
    e matches Error::Planning(s) && s@ == m
}

/// The error is an internal error with exactly this message.
pub open spec fn internal_with(e: Error, m: Seq<char>) -> bool {
    e matches Error::Internal(s) && s@ == m
}

/// The error is a not-implemented error with exactly this message.
pub open spec fn not_implemented_with(e: Error, m: Seq<char>) -> bool {
    e matches Error::NotImplemented(s) && s@ == m
}

/// A planning error with a fixed message.
pub fn planning_const(m: &str) -> (e: Error)
    ensures
        planning_with(e, m@),
{
    Error::Planning(m.to_owned())
}

/// An internal error with a fixed message.
pub fn internal_const(m: &str) -> (e: Error)
    ensures
        internal_with(e, m@),
{
    Error::Internal(m.to_owned())
}

/// A not-implemented error with a fixed message.
pub fn not_implemented_const(m: &str) -> (e: Error)
    ensures
        not_implemented_with(e, m@),
{
    Error::NotImplemented(m.to_owned())
}

/// "invalid number of arguments for {name}, expected {exp}, got {got}"
pub open spec fn msg_exp_args(name: Seq<char>, exp: nat, got: nat) -> Seq<char> {
    "invalid number of arguments for "@ + name + ", expected "@ + spec_udec(exp) + ", got "@
        + spec_udec(got)
}

pub fn err_exp_args(name: &str, exp: usize, got: usize) -> (e: Error)
    ensures
        planning_with(e, msg_exp_args(name@, exp as nat, got as nat)),
{
    let mut m = String::new();
    m.append("invalid number of arguments for ");
    m.append(name);
    m.append(", expected ");
    push_usize(&mut m, exp);
    m.append(", got ");
    push_usize(&mut m, got);
    assert(m@ =~= msg_exp_args(name@, exp as nat, got as nat));
    Error::Planning(m)
}

/// "invalid number of arguments for {name}, expected at least {lo} but no more than {hi}, got {got}"
pub open spec fn msg_exp_args_range(name: Seq<char>, lo: nat, hi: nat, got: nat) -> Seq<char> {
    "invalid number of arguments for "@ + name + ", expected at least "@ + spec_udec(lo)
        + " but no more than "@ + spec_udec(hi) + ", got "@ + spec_udec(got)
}

pub fn err_exp_args_range(name: &str, lo: usize, hi: usize, got: usize) -> (e: Error)
    ensures
        planning_with(e, msg_exp_args_range(name@, lo as nat, hi as nat, got as nat)),
{
    let mut m = String::new();
    m.append("invalid number of arguments for ");
    m.append(name);
    m.append(", expected at least ");
    push_usize(&mut m, lo);
    m.append(" but no more than ");
    push_usize(&mut m, hi);
    m.append(", got ");
    push_usize(&mut m, got);
    assert(m@ =~= msg_exp_args_range(name@, lo as nat, hi as nat, got as nat));
    Error::Planning(m)
}

/// "invalid number of arguments for {name}, expected at least {lo}, got {got}"
pub open spec fn msg_exp_args_min(name: Seq<char>, lo: nat, got: nat) -> Seq<char> {
    "invalid number of arguments for "@ + name + ", expected at least "@ + spec_udec(lo)
        + ", got "@ + spec_udec(got)
}

pub fn err_exp_args_min(name: &str, lo: usize, got: usize) -> (e: Error)
    ensures
        planning_with(e, msg_exp_args_min(name@, lo as nat, got as nat)),
{
    let mut m = String::new();
    m.append("invalid number of arguments for ");
    m.append(name);
    m.append(", expected at least ");
    push_usize(&mut m, lo);
    m.append(", got ");
    push_usize(&mut m, got);
    assert(m@ =~= msg_exp_args_min(name@, lo as nat, got as nat));
    Error::Planning(m)
}

/// "expected integer argument in {name}()"
pub open spec fn msg_expected_integer(name: Seq<char>) -> Seq<char> {
    "expected integer argument in "@ + name + "()"@
}

pub fn err_expected_integer(name: &str) -> (e: Error)
    ensures
        planning_with(e, msg_expected_integer(name@)),
{
    let mut m = String::new();
    m.append("expected integer argument in ");
    m.append(name);
    m.append("()");
    assert(m@ =~= msg_expected_integer(name@));
    Error::Planning(m)
}

/// "expected string argument in {name}()"
pub open spec fn msg_expected_string(name: Seq<char>) -> Seq<char> {
    "expected string argument in "@ + name + "()"@
}

pub fn err_expected_string(name: &str) -> (e: Error)
    ensures
        planning_with(e, msg_expected_string(name@)),
{
    let mut m = String::new();
    m.append("expected string argument in ");
    m.append(name);
    m.append("()");
    assert(m@ =~= msg_expected_string(name@));
    Error::Planning(m)
}

/// "expected number for percentile(), got {arg:?}"
pub open spec fn msg_percentile_number(arg: Expr) -> Seq<char> {
    "expected number for percentile(), got "@ + spec_debug_expr(arg)
}

pub fn err_percentile_number(arg: &Expr) -> (e: Error)
    ensures
        planning_with(e, msg_percentile_number(*arg)),
{
    let mut m = String::new();
    m.append("expected number for percentile(), got ");
    push_debug_expr(&mut m, arg);
    assert(m@ =~= msg_percentile_number(*arg));
    Error::Planning(m)
}

/// "sample window must be greater than 1, got {v}"
pub open spec fn msg_sample_window(v: int) -> Seq<char> {
    "sample window must be greater than 1, got "@ + spec_dec(v)
}

pub fn err_sample_window(v: i64) -> (e: Error)
    ensures
        planning_with(e, msg_sample_window(v as int)),
{
    let mut m = String::new();
    m.append("sample window must be greater than 1, got ");
    push_i64(&mut m, v);
    assert(m@ =~= msg_sample_window(v as int));
    Error::Planning(m)
}

/// "limit ({limit}) for {name} must be greater than 0"
pub open spec fn msg_top_bottom_limit(limit: int, name: Seq<char>) -> Seq<char> {
    "limit ("@ + spec_dec(limit) + ") for "@ + name + " must be greater than 0"@
}

pub fn err_top_bottom_limit(limit: i64, name: &str) -> (e: Error)
    ensures
        planning_with(e, msg_top_bottom_limit(limit as int, name@)),
{
    let mut m = String::new();
    m.append("limit (");
    push_i64(&mut m, limit);
    m.append(") for ");
    m.append(name);
    m.append(" must be greater than 0");
    assert(m@ =~= msg_top_bottom_limit(limit as int, name@));
    Error::Planning(m)
}

/// "expected integer as last argument for {name}, got {got:?}"
pub open spec fn msg_expected_integer_last(name: Seq<char>, got: Expr) -> Seq<char> {
    "expected integer as last argument for "@ + name + ", got "@ + spec_debug_expr(got)
}

pub fn err_expected_integer_last(name: &str, got: &Expr) -> (e: Error)
    ensures
        planning_with(e, msg_expected_integer_last(name@, *got)),
{
    let mut m = String::new();
    m.append("expected integer as last argument for ");
    m.append(name);
    m.append(", got ");
    push_debug_expr(&mut m, got);
    assert(m@ =~= msg_expected_integer_last(name@, *got));
    Error::Planning(m)
}

/// "expected first argument to be a field for {name}"
pub open spec fn msg_expected_first_field(name: Seq<char>) -> Seq<char> {
    "expected first argument to be a field for "@ + name
}

pub fn err_expected_first_field(name: &str) -> (e: Error)
    ensures
        planning_with(e, msg_expected_first_field(name@)),
{
    let mut m = String::new();
    m.append("expected first argument to be a field for ");
    m.append(name);
    assert(m@ =~= msg_expected_first_field(name@));
    Error::Planning(m)
}

/// "only fields or tags are allow for {name}(), got {got:?}"
pub open spec fn msg_only_fields(name: Seq<char>, got: Expr) -> Seq<char> {
    "only fields or tags are allow for "@ + name + "(), got "@ + spec_debug_expr(got)
}

pub fn err_only_fields(name: &str, got: &Expr) -> (e: Error)
    ensures
        planning_with(e, msg_only_fields(name@, *got)),
{
    let mut m = String::new();
    m.append("only fields or tags are allow for ");
    m.append(name);
    m.append("(), got ");
    push_debug_expr(&mut m, got);
    assert(m@ =~= msg_only_fields(name@, *got));
    Error::Planning(m)
}

/// "duration argument must be positive, got {d}"
pub open spec fn msg_duration_positive(d: int) -> Seq<char> {
    "duration argument must be positive, got "@ + spec_duration_text(d)
}

pub fn err_duration_positive(d: i64) -> (e: Error)
    ensures
        planning_with(e, msg_duration_positive(d as int)),
{
    let mut m = String::new();
    m.append("duration argument must be positive, got ");
    push_duration(&mut m, d);
    assert(m@ =~= msg_duration_positive(d as int));
    Error::Planning(m)
}

/// "second argument to {name} must be a duration, got {got:?}"
pub open spec fn msg_second_duration(name: Seq<char>, got: Expr) -> Seq<char> {
    "second argument to "@ + name + " must be a duration, got "@ + spec_debug_expr(got)
}

pub fn err_second_duration(name: &str, got: &Expr) -> (e: Error)
    ensures
        planning_with(e, msg_second_duration(name@, *got)),
{
    let mut m = String::new();
    m.append("second argument to ");
    m.append(name);
    m.append(" must be a duration, got ");
    push_debug_expr(&mut m, got);
    assert(m@ =~= msg_second_duration(name@, *got));
    Error::Planning(m)
}

/// "moving_average window must be greater than 1, got {v}"
pub open spec fn msg_moving_average_window(v: int) -> Seq<char> {
    "moving_average window must be greater than 1, got "@ + spec_dec(v)
}

pub fn err_moving_average_window(v: i64) -> (e: Error)
    ensures
        planning_with(e, msg_moving_average_window(v as int)),
{
    let mut m = String::new();
    m.append("moving_average window must be greater than 1, got ");
    push_i64(&mut m, v);
    assert(m@ =~= msg_moving_average_window(v as int));
    Error::Planning(m)
}

/// "{name} period must be greater than 1, got {v}"
pub open spec fn msg_period(name: Seq<char>, v: int) -> Seq<char> {
    name + " period must be greater than 1, got "@ + spec_dec(v)
}

pub fn err_period(name: &str, v: i64) -> (e: Error)
    ensures
        planning_with(e, msg_period(name@, v as int)),
{
    let mut m = String::new();
    m.append(name);
    m.append(" period must be greater than 1, got ");
    push_i64(&mut m, v);
    assert(m@ =~= msg_period(name@, v as int));
    Error::Planning(m)
}

/// "{name} hold period must be greater than or equal to {0 or 1}"
pub open spec fn msg_hold_period(name: Seq<char>, least_one: bool) -> Seq<char> {
    if least_one {
        name + " hold period must be greater than or equal to 1"@
    } else {
        name + " hold period must be greater than or equal to 0"@
    }
}

pub fn err_hold_period(name: &str, least_one: bool) -> (e: Error)
    ensures
        planning_with(e, msg_hold_period(name@, least_one)),
{
    let mut m = String::new();
    m.append(name);
    if least_one {
        m.append(" hold period must be greater than or equal to 1");
    } else {
        m.append(" hold period must be greater than or equal to 0");
    }
    assert(m@ =~= msg_hold_period(name@, least_one));
    Error::Planning(m)
}

/// "{name} warmup type must be one of: 'exponential', 'simple', got {warmup}"
pub open spec fn msg_warmup2(name: Seq<char>, warmup: Seq<char>) -> Seq<char> {
    name + " warmup type must be one of: 'exponential', 'simple', got "@ + warmup
}

pub fn err_warmup2(name: &str, warmup: &str) -> (e: Error)
    ensures
        planning_with(e, msg_warmup2(name@, warmup@)),
{
    let mut m = String::new();
    m.append(name);
    m.append(" warmup type must be one of: 'exponential', 'simple', got ");
    m.append(warmup);
    assert(m@ =~= msg_warmup2(name@, warmup@));
    Error::Planning(m)
}

/// "{name} warmup type must be one of: 'none', 'exponential' or 'simple', got {warmup}"
pub open spec fn msg_warmup3(name: Seq<char>, warmup: Seq<char>) -> Seq<char> {
    name + " warmup type must be one of: 'none', 'exponential' or 'simple', got "@ + warmup
}

pub fn err_warmup3(name: &str, warmup: &str) -> (e: Error)
    ensures
        planning_with(e, msg_warmup3(name@, warmup@)),
{
    let mut m = String::new();
    m.append(name);
    m.append(" warmup type must be one of: 'none', 'exponential' or 'simple', got ");
    m.append(warmup);
    assert(m@ =~= msg_warmup3(name@, warmup@));
    Error::Planning(m)
}

/// "{name} N argument must be greater than 0, got {v}"
pub open spec fn msg_n_argument(name: Seq<char>, v: int) -> Seq<char> {
    name + " N argument must be greater than 0, got "@ + spec_dec(v)
}

pub fn err_n_argument(name: &str, v: i64) -> (e: Error)
    ensures
        planning_with(e, msg_n_argument(name@, v as int)),
{
    let mut m = String::new();
    m.append(name);
    m.append(" N argument must be greater than 0, got ");
    push_i64(&mut m, v);
    assert(m@ =~= msg_n_argument(name@, v as int));
    Error::Planning(m)
}

/// "{name} S argument cannot be negative, got {v}"
pub open spec fn msg_s_argument(name: Seq<char>, v: int) -> Seq<char> {
    name + " S argument cannot be negative, got "@ + spec_dec(v)
}

pub fn err_s_argument(name: &str, v: i64) -> (e: Error)
    ensures
        planning_with(e, msg_s_argument(name@, v as int)),
{
    let mut m = String::new();
    m.append(name);
    m.append(" S argument cannot be negative, got ");
    push_i64(&mut m, v);
    assert(m@ =~= msg_s_argument(name@, v as int));
    Error::Planning(m)
}

/// "must use aggregate function with {name}"
pub open spec fn msg_must_use_aggregate(name: Seq<char>) -> Seq<char> {
    "must use aggregate function with "@ + name
}

pub fn err_must_use_aggregate(name: &str) -> (e: Error)
    ensures
        planning_with(e, msg_must_use_aggregate(name@)),
{
    let mut m = String::new();
    m.append("must use aggregate function with ");
    m.append(name);
    assert(m@ =~= msg_must_use_aggregate(name@));
    Error::Planning(m)
}

/// "{name} aggregate requires a GROUP BY interval"
pub open spec fn msg_requires_group_by(name: Seq<char>) -> Seq<char> {
    name + " aggregate requires a GROUP BY interval"@
}

pub fn err_requires_group_by(name: &str) -> (e: Error)
    ensures
        planning_with(e, msg_requires_group_by(name@)),
{
    let mut m = String::new();
    m.append(name);
    m.append(" aggregate requires a GROUP BY interval");
    assert(m@ =~= msg_requires_group_by(name@));
    Error::Planning(m)
}

/// "aggregate function required inside the call to {name}"
pub open spec fn msg_aggregate_required(name: Seq<char>) -> Seq<char> {
    "aggregate function required inside the call to "@ + name
}

pub fn err_aggregate_required(name: &str) -> (e: Error)
    ensures
        planning_with(e, msg_aggregate_required(name@)),
{
    let mut m = String::new();
    m.append("aggregate function required inside the call to ");
    m.append(name);
    assert(m@ =~= msg_aggregate_required(name@));
    Error::Planning(m)
}

/// "expected field argument in {name}(), got {got:?}"
pub open spec fn msg_expected_field_arg(name: Seq<char>, got: Expr) -> Seq<char> {
    "expected field argument in "@ + name + "(), got "@ + spec_debug_expr(got)
}

pub fn err_expected_field_arg(name: &str, got: &Expr) -> (e: Error)
    ensures
        planning_with(e, msg_expected_field_arg(name@, *got)),
{
    let mut m = String::new();
    m.append("expected field argument in ");
    m.append(name);
    m.append("(), got ");
    push_debug_expr(&mut m, got);
    assert(m@ =~= msg_expected_field_arg(name@, *got));
    Error::Planning(m)
}

/// "unsupported function {name}()"
pub open spec fn msg_unsupported_function(name: Seq<char>) -> Seq<char> {
    "unsupported function "@ + name + "()"@
}

pub fn err_unsupported_function(name: &str) -> (e: Error)
    ensures
        planning_with(e, msg_unsupported_function(name@)),
{
    let mut m = String::new();
    m.append("unsupported function ");
    m.append(name);
    m.append("()");
    assert(m@ =~= msg_unsupported_function(name@));
    Error::Planning(m)
}

/// "selector function {name}() cannot be combined with other functions"
pub open spec fn msg_selector_combined(name: Seq<char>) -> Seq<char> {
    "selector function "@ + name + "() cannot be combined with other functions"@
}

pub fn err_selector_combined(name: &str) -> (e: Error)
    ensures
        planning_with(e, msg_selector_combined(name@)),
{
    let mut m = String::new();
    m.append("selector function ");
    m.append(name);
    m.append("() cannot be combined with other functions");
    assert(m@ =~= msg_selector_combined(name@));
    Error::Planning(m)
}

/// The source-style text of a `FILL` clause.
pub open spec fn spec_fill_text(f: FillClause) -> Seq<char> {
    match f {
        FillClause::Null => "fill(null)"@,
        FillClause::NoFill => "fill(none)"@,
        FillClause::Previous => "fill(previous)"@,
        FillClause::Value(t) => "fill("@ + t@ + ")"@,
        FillClause::Linear => "fill(linear)"@,
    }
}

/// "{fill} must be used with an aggregate function"
pub open spec fn msg_fill_requires_aggregate(f: FillClause) -> Seq<char> {
    spec_fill_text(f) + " must be used with an aggregate function"@
}

pub fn err_fill_requires_aggregate(f: &FillClause) -> (e: Error)
    ensures
        planning_with(e, msg_fill_requires_aggregate(*f)),
{
    let mut m = String::new();
    match f {
        FillClause::Null => m.append("fill(null)"),
        FillClause::NoFill => m.append("fill(none)"),
        FillClause::Previous => m.append("fill(previous)"),
        FillClause::Value(t) => {
            m.append("fill(");
            m.append(t.as_str());
            m.append(")");
        },
        FillClause::Linear => m.append("fill(linear)"),
    }
    m.append(" must be used with an aggregate function");
    assert(m@ =~= msg_fill_requires_aggregate(*f));
    Error::Planning(m)
}


/// "unable to use tag as wildcard in {name}()"
pub open spec fn msg_tag_wildcard(name: Seq<char>) -> Seq<char> {
    "unable to use tag as wildcard in "@ + name + "()"@
}

pub fn err_tag_wildcard(name: &str) -> (e: Error)
    ensures
        planning_with(e, msg_tag_wildcard(name@)),
{
    let mut m = String::new();
    m.append("unable to use tag as wildcard in ");
    m.append(name);
    m.append("()");
    assert(m@ =~= msg_tag_wildcard(name@));
    Error::Planning(m)
}

} // verus!
