use vstd::prelude::*;

use crate::ast::{BinaryOperator, Expr, ExprList, Literal, VarRefDataType, WildcardType};
use crate::text::{push_char, push_i64, push_u64, spec_dec, spec_udec};

verus! {

/// Nanoseconds in a week, a day, an hour, a minute, a second, a millisecond
/// and a microsecond.
pub const NANOS_PER_WEEK: u64 = 604_800_000_000_000;

pub const NANOS_PER_DAY: u64 = 86_400_000_000_000;

pub const NANOS_PER_HOUR: u64 = 3_600_000_000_000;

pub const NANOS_PER_MINUTE: u64 = 60_000_000_000;

pub const NANOS_PER_SECOND: u64 = 1_000_000_000;

pub const NANOS_PER_MILLI: u64 = 1_000_000;

pub const NANOS_PER_MICRO: u64 = 1_000;

/// A character as it appears inside a quoted form: a quote or a backslash
/// gains a leading backslash.
pub open spec fn esc_char(c: char) -> Seq<char> {
    if c == '"' || c == '\\' {
        seq!['\\', c]
    } else {
        seq![c]
    }
}

/// A character sequence with its quotes and backslashes escaped.
pub open spec fn spec_escaped(s: Seq<char>) -> Seq<char>
    decreases s.len(),
{
    if s.len() == 0 {
        Seq::empty()
    } else {
        spec_escaped(s.drop_last()) + esc_char(s.last())
    }
}

/// A character sequence inside double quotes, escaped.
pub open spec fn spec_quoted(s: Seq<char>) -> Seq<char> {
    seq!['"'] + spec_escaped(s) + seq!['"']
}

/// Appends the escaped form of a string.
pub fn push_escaped(s: &mut String, t: &str)
    ensures
        final(s)@ == old(s)@ + spec_escaped(t@),
{
    let len = t.unicode_len();
    let mut i: usize = 0;
    proof {
        assert(t@.take(0) =~= Seq::<char>::empty());
    }
    while i < len
        invariant
            i <= len,
            len == t@.len(),
            s@ == old(s)@ + spec_escaped(t@.take(i as int)),
        decreases len - i,
    {
        let c = t.get_char(i);
        if c == '"' || c == '\\' {
            push_char(s, '\\');
        }
        push_char(s, c);
        proof {
            assert(t@.take(i + 1).drop_last() =~= t@.take(i as int));
            assert(t@.take(i + 1).last() == t@[i as int]);
            assert(s@ =~= old(s)@ + spec_escaped(t@.take(i + 1)));
        }
        i = i + 1;
    }
    proof {
        assert(t@.take(len as int) =~= t@);
    }
}

/// Appends the quoted form of a string.
pub fn push_quoted(s: &mut String, t: &str)
    ensures
        final(s)@ == old(s)@ + spec_quoted(t@),
{
    push_char(s, '"');
    push_escaped(s, t);
    push_char(s, '"');
    assert(s@ =~= old(s)@ + spec_quoted(t@));
}

/// The source-style text of a duration in nanoseconds: the largest unit that
/// divides it evenly, and nanoseconds otherwise.
pub open spec fn spec_duration_mag(m: nat) -> Seq<char> {
    if m % (NANOS_PER_WEEK as nat) == 0 {
        spec_udec(m / (NANOS_PER_WEEK as nat)) + seq!['w']
    } else if m % (NANOS_PER_DAY as nat) == 0 {
        spec_udec(m / (NANOS_PER_DAY as nat)) + seq!['d']
    } else if m % (NANOS_PER_HOUR as nat) == 0 {
        spec_udec(m / (NANOS_PER_HOUR as nat)) + seq!['h']
    } else if m % (NANOS_PER_MINUTE as nat) == 0 {
        spec_udec(m / (NANOS_PER_MINUTE as nat)) + seq!['m']
    } else if m % (NANOS_PER_SECOND as nat) == 0 {
        spec_udec(m / (NANOS_PER_SECOND as nat)) + seq!['s']
    } else if m % (NANOS_PER_MILLI as nat) == 0 {
        spec_udec(m / (NANOS_PER_MILLI as nat)) + "ms"@
    } else if m % (NANOS_PER_MICRO as nat) == 0 {
        spec_udec(m / (NANOS_PER_MICRO as nat)) + seq!['u']
    } else {
        spec_udec(m) + "ns"@
    }
}

/// The text of a signed duration in nanoseconds.
pub open spec fn spec_duration_text(n: int) -> Seq<char> {
    if n == 0 {
        "0s"@
    } else if n < 0 {
        seq!['-'] + spec_duration_mag((-n) as nat)
    } else {
        spec_duration_mag(n as nat)
    }
}

/// Appends the magnitude part of a duration.
fn push_duration_mag(s: &mut String, m: u64)
    ensures
        final(s)@ == old(s)@ + spec_duration_mag(m as nat),
{
    if m % NANOS_PER_WEEK == 0 {
        push_u64(s, m / NANOS_PER_WEEK);
        push_char(s, 'w');
    } else if m % NANOS_PER_DAY == 0 {
        push_u64(s, m / NANOS_PER_DAY);
        push_char(s, 'd');
    } else if m % NANOS_PER_HOUR == 0 {
        push_u64(s, m / NANOS_PER_HOUR);
        push_char(s, 'h');
    } else if m % NANOS_PER_MINUTE == 0 {
        push_u64(s, m / NANOS_PER_MINUTE);
        push_char(s, 'm');
    } else if m % NANOS_PER_SECOND == 0 {
        push_u64(s, m / NANOS_PER_SECOND);
        push_char(s, 's');
    } else if m % NANOS_PER_MILLI == 0 {
        push_u64(s, m / NANOS_PER_MILLI);
        s.append("ms");
    } else if m % NANOS_PER_MICRO == 0 {
        push_u64(s, m / NANOS_PER_MICRO);
        push_char(s, 'u');
    } else {
        push_u64(s, m);
        s.append("ns");
    }
    assert(s@ =~= old(s)@ + spec_duration_mag(m as nat));
}

/// Appends the text of a signed duration in nanoseconds.
pub fn push_duration(s: &mut String, n: i64)
    ensures
        final(s)@ == old(s)@ + spec_duration_text(n as int),
{
    if n == 0 {
        s.append("0s");
    } else if n < 0 {
        push_char(s, '-');
        let mag: u64 = if n == i64::MIN {
            9223372036854775808u64
        } else {
            (-n) as u64
        };
        push_duration_mag(s, mag);
        assert(s@ =~= old(s)@ + spec_duration_text(n as int));
    } else {
        push_duration_mag(s, n as u64);
    }
}

/// The diagnostic name of an operator.
pub open spec fn spec_debug_op(op: BinaryOperator) -> Seq<char> {
    match op {
        BinaryOperator::Add => "Add"@,
        BinaryOperator::Sub => "Sub"@,
        BinaryOperator::Mul => "Mul"@,
        BinaryOperator::Div => "Div"@,
        BinaryOperator::Mod => "Mod"@,
        BinaryOperator::BitwiseAnd => "BitwiseAnd"@,
        BinaryOperator::BitwiseOr => "BitwiseOr"@,
        BinaryOperator::BitwiseXor => "BitwiseXor"@,
    }
}

/// The diagnostic text of a resolved type annotation.
pub open spec fn spec_debug_data_type(dt: Option<VarRefDataType>) -> Seq<char> {
    match dt {
        Option::None => "None"@,
        Option::Some(VarRefDataType::Float) => "Some(Float)"@,
        Option::Some(VarRefDataType::Integer) => "Some(Integer)"@,
        Option::Some(VarRefDataType::Unsigned) => "Some(Unsigned)"@,
        Option::Some(VarRefDataType::String) => "Some(String)"@,
        Option::Some(VarRefDataType::Boolean) => "Some(Boolean)"@,
        Option::Some(VarRefDataType::Tag) => "Some(Tag)"@,
        Option::Some(VarRefDataType::Timestamp) => "Some(Timestamp)"@,
    }
}

/// The diagnostic text of a literal, as the checker's messages show it.
pub open spec fn spec_debug_literal(l: Literal) -> Seq<char> {
    match l {
        Literal::Integer(v) => "Integer("@ + spec_dec(v as int) + ")"@,
        Literal::Unsigned(v) => "Unsigned("@ + spec_udec(v as nat) + ")"@,
        Literal::Float(t) => "Float("@ + t@ + ")"@,
        Literal::Str(t) => "String("@ + spec_quoted(t@) + ")"@,
        Literal::Boolean(v) => if v {
            "Boolean(true)"@
        } else {
            "Boolean(false)"@
        },
        Literal::Duration(v) => "Duration(Duration("@ + spec_dec(v as int) + "))"@,
        Literal::Regex(t) => "Regex(Regex("@ + spec_quoted(t@) + "))"@,
    }
}

/// The diagnostic text of an expression, as the checker's messages show it.
pub open spec fn spec_debug_expr(e: Expr) -> Seq<char>
    decreases e,
{
    match e {
        Expr::VarRef(v) => "VarRef(VarRef { name: Identifier("@ + spec_quoted(v.name@)
            + "), data_type: "@ + spec_debug_data_type(v.data_type) + " })"@,
        Expr::Literal(l) => "Literal("@ + spec_debug_literal(l) + ")"@,
        Expr::Call(c) => "Call(Call { name: "@ + spec_quoted(c.name@) + ", args: ["@
            + spec_debug_args(c.args) + "] })"@,
        Expr::Binary(b) => "Binary(Binary { lhs: "@ + spec_debug_expr(*b.lhs) + ", op: "@
            + spec_debug_op(b.op) + ", rhs: "@ + spec_debug_expr(*b.rhs) + " })"@,
        Expr::Nested(inner) => "Nested("@ + spec_debug_expr(*inner) + ")"@,
        Expr::Wildcard(Option::None) => "Wildcard(None)"@,
        Expr::Wildcard(Option::Some(WildcardType::Tag)) => "Wildcard(Some(Tag))"@,
        Expr::Wildcard(Option::Some(WildcardType::Field)) => "Wildcard(Some(Field))"@,
        Expr::Distinct(n) => "Distinct(Identifier("@ + spec_quoted(n@) + "))"@,
        Expr::BindParameter(n) => "BindParameter(BindParameter("@ + spec_quoted(n@) + "))"@,
    }
}

/// The diagnostic text of an argument list, comma separated.
pub open spec fn spec_debug_args(l: ExprList) -> Seq<char>
    decreases l,
{
    match l {
        ExprList::Empty => Seq::empty(),
        ExprList::Item(head, rest) => if *rest is Empty {
            spec_debug_expr(*head)
        } else {
            spec_debug_expr(*head) + ", "@ + spec_debug_args(*rest)
        },
    }
}

/// Appends the diagnostic text of an expression.
#[verifier::rlimit(50)]
pub fn push_debug_expr(s: &mut String, e: &Expr)
    ensures
        final(s)@ == old(s)@ + spec_debug_expr(*e),
    decreases e,
{
    match e {
        Expr::VarRef(v) => {
            s.append("VarRef(VarRef { name: Identifier(");
            push_quoted(s, v.name.as_str());
            s.append("), data_type: ");
            match v.data_type {
                Option::None => s.append("None"),
                Option::Some(VarRefDataType::Float) => s.append("Some(Float)"),
                Option::Some(VarRefDataType::Integer) => s.append("Some(Integer)"),
                Option::Some(VarRefDataType::Unsigned) => s.append("Some(Unsigned)"),
                Option::Some(VarRefDataType::String) => s.append("Some(String)"),
                Option::Some(VarRefDataType::Boolean) => s.append("Some(Boolean)"),
                Option::Some(VarRefDataType::Tag) => s.append("Some(Tag)"),
                Option::Some(VarRefDataType::Timestamp) => s.append("Some(Timestamp)"),
            }
            s.append(" })");
            assert(s@ =~= old(s)@ + spec_debug_expr(*e));
        },
        Expr::Literal(l) => {
            s.append("Literal(");
            match l {
                Literal::Integer(v) => {
                    s.append("Integer(");
                    push_i64(s, *v);
                    s.append(")");
                },
                Literal::Unsigned(v) => {
                    s.append("Unsigned(");
                    push_u64(s, *v);
                    s.append(")");
                },
                Literal::Float(t) => {
                    s.append("Float(");
                    s.append(t.as_str());
                    s.append(")");
                },
                Literal::Str(t) => {
                    s.append("String(");
                    push_quoted(s, t.as_str());
                    s.append(")");
                },
                Literal::Boolean(v) => {
                    if *v {
                        s.append("Boolean(true)");
                    } else {
                        s.append("Boolean(false)");
                    }
                },
                Literal::Duration(v) => {
                    s.append("Duration(Duration(");
                    push_i64(s, *v);
                    s.append("))");
                },
                Literal::Regex(t) => {
                    s.append("Regex(Regex(");
                    push_quoted(s, t.as_str());
                    s.append("))");
                },
            }
            s.append(")");
            assert(s@ =~= old(s)@ + spec_debug_expr(*e));
        },
        Expr::Call(c) => {
            s.append("Call(Call { name: ");
            push_quoted(s, c.name.as_str());
            s.append(", args: [");
            push_debug_args(s, &c.args);
            s.append("] })");
            assert(s@ =~= old(s)@ + spec_debug_expr(*e));
        },
        Expr::Binary(b) => {
            s.append("Binary(Binary { lhs: ");
            push_debug_expr(s, &b.lhs);
            s.append(", op: ");
            match b.op {
                BinaryOperator::Add => s.append("Add"),
                BinaryOperator::Sub => s.append("Sub"),
                BinaryOperator::Mul => s.append("Mul"),
                BinaryOperator::Div => s.append("Div"),
                BinaryOperator::Mod => s.append("Mod"),
                BinaryOperator::BitwiseAnd => s.append("BitwiseAnd"),
                BinaryOperator::BitwiseOr => s.append("BitwiseOr"),
                BinaryOperator::BitwiseXor => s.append("BitwiseXor"),
            }
            s.append(", rhs: ");
            push_debug_expr(s, &b.rhs);
            s.append(" })");
            assert(s@ =~= old(s)@ + spec_debug_expr(*e));
        },
        Expr::Nested(inner) => {
            s.append("Nested(");
            push_debug_expr(s, inner);
            s.append(")");
            assert(s@ =~= old(s)@ + spec_debug_expr(*e));
        },
        Expr::Wildcard(Option::None) => {
            s.append("Wildcard(None)");
            assert(s@ =~= old(s)@ + spec_debug_expr(*e));
        },
        Expr::Wildcard(Option::Some(WildcardType::Tag)) => {
            s.append("Wildcard(Some(Tag))");
            assert(s@ =~= old(s)@ + spec_debug_expr(*e));
        },
        Expr::Wildcard(Option::Some(WildcardType::Field)) => {
            s.append("Wildcard(Some(Field))");
            assert(s@ =~= old(s)@ + spec_debug_expr(*e));
        },
        Expr::Distinct(n) => {
            s.append("Distinct(Identifier(");
            push_quoted(s, n.as_str());
            s.append("))");
            assert(s@ =~= old(s)@ + spec_debug_expr(*e));
        },
        Expr::BindParameter(n) => {
            s.append("BindParameter(BindParameter(");
            push_quoted(s, n.as_str());
            s.append("))");
            assert(s@ =~= old(s)@ + spec_debug_expr(*e));
        },
    }
}

/// Appends the diagnostic text of an argument list.
pub fn push_debug_args(s: &mut String, l: &ExprList)
    ensures
        final(s)@ == old(s)@ + spec_debug_args(*l),
    decreases l,
{
    match l {
        ExprList::Empty => {
            assert(s@ =~= old(s)@ + spec_debug_args(*l));
        },
        ExprList::Item(head, rest) => {
            push_debug_expr(s, head);
            match &**rest {
                ExprList::Empty => {},
                _ => {
                    s.append(", ");
                    push_debug_args(s, rest);
                },
            }
            assert(s@ =~= old(s)@ + spec_debug_args(*l));
        },
    }
}

} // verus!
