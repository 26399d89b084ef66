use vstd::prelude::*;

verus! {

/// The resolved data type of a column reference.
///
/// The declaration order defines the unification order used when several
/// measurements contribute a type for the same column name: the variant
/// with the smaller rank wins the merge.
#[derive(Debug, Clone, Copy, PartialEq, Eq, Structural)]
pub enum VarRefDataType {
    Float,
    Integer,
    Unsigned,
    String,
    Boolean,
    Tag,
    Timestamp,
}

impl VarRefDataType {
    /// Position of the type in the unification order.
    pub open spec fn spec_rank(self) -> u8 {
        match self {
            VarRefDataType::Float => 0,
            VarRefDataType::Integer => 1,
            VarRefDataType::Unsigned => 2,
            VarRefDataType::String => 3,
            VarRefDataType::Boolean => 4,
            VarRefDataType::Tag => 5,
            VarRefDataType::Timestamp => 6,
        }
    }

    /// Position of the type in the unification order; smaller ranks win a merge.
    pub fn rank(self) -> (r: u8)
        ensures
            r == self.spec_rank(),
    {
        match self {
            VarRefDataType::Float => 0,
            VarRefDataType::Integer => 1,
            VarRefDataType::Unsigned => 2,
            VarRefDataType::String => 3,
            VarRefDataType::Boolean => 4,
            VarRefDataType::Tag => 5,
            VarRefDataType::Timestamp => 6,
        }
    }

    /// True for the five value-column types.
    pub open spec fn spec_is_field_type(self) -> bool {
        self.spec_rank() <= 4
    }

    /// True for the five value-column types.
    pub fn is_field_type(self) -> (r: bool)
        ensures
            r == self.spec_is_field_type(),
    {
        self.rank() <= 4
    }

    /// True only for the tag column type.
    pub open spec fn spec_is_tag_type(self) -> bool {
        self == VarRefDataType::Tag
    }

    /// True only for the tag column type.
    pub fn is_tag_type(self) -> (r: bool)
        ensures
            r == self.spec_is_tag_type(),
    {
        matches!(self, VarRefDataType::Tag)
    }

    /// The smaller of two types in the unification order.
    pub fn merge_min(self, other: Self) -> (r: Self)
        ensures
            r == self.spec_merge_min(other),
    {
        if self.rank() <= other.rank() {
            self
        } else {
            other
        }
    }

    /// The smaller of two types in the unification order.
    pub open spec fn spec_merge_min(self, other: Self) -> Self {
        if self.spec_rank() <= other.spec_rank() {
            self
        } else {
            other
        }
    }
}

/// A literal value in a projection expression.
///
/// A float numeral carries its source text: this pass never computes with the
/// value, and the text is all that the checker's messages need.
#[derive(Debug)]
pub enum Literal {
    Integer(i64),
    Unsigned(u64),
    Float(String),
    Str(String),
    Boolean(bool),
    /// A duration in nanoseconds.
    Duration(i64),
    /// The source text of a regular expression.
    Regex(String),
}

/// Whether a wildcard selects every column, only tags, or only fields.
#[derive(Debug, Clone, Copy, PartialEq, Eq, Structural)]
pub enum WildcardType {
    Tag,
    Field,
}

/// A reference to a column, optionally annotated with its resolved type.
#[derive(Debug)]
pub struct VarRef {
    pub name: String,
    pub data_type: Option<VarRefDataType>,
}

/// A function call.
#[derive(Debug)]
pub struct Call {
    pub name: String,
    pub args: ExprList,
}

/// An arithmetic operator of a binary expression.
#[derive(Debug, Clone, Copy, PartialEq, Eq, Structural)]
pub enum BinaryOperator {
    Add,
    Sub,
    Mul,
    Div,
    Mod,
    BitwiseAnd,
    BitwiseOr,
    BitwiseXor,
}

/// A binary arithmetic expression.
#[derive(Debug)]
pub struct Binary {
    pub lhs: Box<Expr>,
    pub op: BinaryOperator,
    pub rhs: Box<Expr>,
}

/// A projection expression.
#[derive(Debug)]
pub enum Expr {
    VarRef(VarRef),
    Literal(Literal),
    Call(Call),
    Binary(Binary),
    Nested(Box<Expr>),
    Wildcard(Option<WildcardType>),
    /// The unary `DISTINCT <identifier>` form; normalized to a call early on.
    Distinct(String),
    /// A bind parameter; illegal at this stage of planning.
    BindParameter(String),
}

/// The argument list of a call, as a list so that structural equality and
/// structural recursion both hold of it.
#[derive(Debug)]
pub enum ExprList {
    Empty,
    Item(Box<Expr>, Box<ExprList>),
}

impl ExprList {
    /// Number of arguments.
    pub open spec fn spec_len(self) -> nat
        decreases self,
    {
        match self {
            ExprList::Empty => 0,
            ExprList::Item(_, rest) => 1 + rest.spec_len(),
        }
    }

    /// The argument at a position.
    pub open spec fn spec_get(self, i: nat) -> Option<Expr>
        decreases self,
    {
        match self {
            ExprList::Empty => None,
            ExprList::Item(head, rest) => if i == 0 {
                Some(*head)
            } else {
                rest.spec_get((i - 1) as nat)
            },
        }
    }

    /// Number of arguments, capped at the machine limit.
    pub fn len_capped(&self) -> (r: usize)
        ensures
            r == if self.spec_len() <= usize::MAX {
                self.spec_len()
            } else {
                usize::MAX as nat
            },
        decreases self,
    {
        match self {
            ExprList::Empty => 0,
            ExprList::Item(_, rest) => {
                let n = rest.len_capped();
                if n == usize::MAX {
                    n
                } else {
                    n + 1
                }
            },
        }
    }

    /// An argument is there exactly for the positions below the length.
    pub proof fn lemma_get_is_some(self, i: nat)
        ensures
            (self.spec_get(i) is Some) <==> i < self.spec_len(),
        decreases self,
    {
        match self {
            ExprList::Empty => {},
            ExprList::Item(_, rest) => {
                if i > 0 {
                    rest.lemma_get_is_some((i - 1) as nat);
                }
            },
        }
    }

    /// The argument at a position.
    pub fn get(&self, i: usize) -> (r: Option<&Expr>)
        ensures
            match r {
                Some(e) => self.spec_get(i as nat) == Some(*e),
                None => self.spec_get(i as nat) is None,
            },
        decreases self,
    {
        match self {
            ExprList::Empty => None,
            ExprList::Item(head, rest) => if i == 0 {
                Some(head)
            } else {
                rest.get(i - 1)
            },
        }
    }
}

/// One projected column: an expression and an optional output alias.
#[derive(Debug)]
pub struct Field {
    pub expr: Expr,
    pub alias: Option<String>,
}

/// One `GROUP BY` entry.
#[derive(Debug)]
pub enum Dimension {
    /// A `TIME(..)` dimension, with its interval and optional offset.
    Time { interval: Box<Expr>, offset: Option<Box<Expr>> },
    Tag(String),
    Regex(String),
    Wildcard,
}

/// One entry of the `FROM` clause as the parser delivers it.
#[derive(Debug)]
pub enum MeasurementSelection {
    Name(String),
    Regex(String),
    Subquery(Box<SelectStatement>),
}

/// How `FILL(..)` defaults missing values.
#[derive(Debug)]
pub enum FillClause {
    Null,
    NoFill,
    Previous,
    /// The numeral as written.
    Value(String),
    Linear,
}

/// The direction of the `ORDER BY time` clause.
#[derive(Debug, Clone, Copy, PartialEq, Eq, Structural)]
pub enum OrderByDirection {
    Ascending,
    Descending,
}

/// A parsed `SELECT` statement, before rewriting.
///
/// The condition and time zone are carried through the rewrite untouched, so
/// they are held as their source text.
#[derive(Debug)]
pub struct SelectStatement {
    pub fields: Vec<Field>,
    pub from: Vec<MeasurementSelection>,
    pub condition: Option<String>,
    pub group_by: Option<Vec<Dimension>>,
    pub fill: Option<FillClause>,
    pub order_by: Option<OrderByDirection>,
    pub limit: Option<u64>,
    pub offset: Option<u64>,
    pub series_limit: Option<u64>,
    pub series_offset: Option<u64>,
    pub timezone: Option<String>,
}

impl Clone for Literal {
    /// The clone is the same value.
    fn clone(&self) -> (r: Self)
        ensures
            r == *self,
    {
        match self {
            Literal::Integer(v) => Literal::Integer(*v),
            Literal::Unsigned(v) => Literal::Unsigned(*v),
            Literal::Float(t) => Literal::Float(t.clone()),
            Literal::Str(t) => Literal::Str(t.clone()),
            Literal::Boolean(v) => Literal::Boolean(*v),
            Literal::Duration(v) => Literal::Duration(*v),
            Literal::Regex(t) => Literal::Regex(t.clone()),
        }
    }
}

impl Clone for VarRef {
    /// The clone is the same value.
    fn clone(&self) -> (r: Self)
        ensures
            r == *self,
    {
        VarRef { name: self.name.clone(), data_type: self.data_type }
    }
}

impl Clone for Expr {
    /// The clone is the same value.
    fn clone(&self) -> (r: Self)
        ensures
            r == *self,
        decreases self,
    {
        match self {
            Expr::VarRef(v) => Expr::VarRef(v.clone()),
            Expr::Literal(l) => Expr::Literal(l.clone()),
            Expr::Call(c) => Expr::Call(Call { name: c.name.clone(), args: c.args.clone() }),
            Expr::Binary(b) => Expr::Binary(
                Binary { lhs: Box::new((*b.lhs).clone()), op: b.op, rhs: Box::new((*b.rhs).clone()) },
            ),
            Expr::Nested(e) => Expr::Nested(Box::new((**e).clone())),
            Expr::Wildcard(w) => Expr::Wildcard(*w),
            Expr::Distinct(n) => Expr::Distinct(n.clone()),
            Expr::BindParameter(n) => Expr::BindParameter(n.clone()),
        }
    }
}

impl Clone for ExprList {
    /// The clone is the same value.
    fn clone(&self) -> (r: Self)
        ensures
            r == *self,
        decreases self,
    {
        match self {
            ExprList::Empty => ExprList::Empty,
            ExprList::Item(head, rest) => ExprList::Item(
                Box::new((**head).clone()),
                Box::new((**rest).clone()),
            ),
        }
    }
}

impl Clone for Field {
    /// The clone is the same value.
    fn clone(&self) -> (r: Self)
        ensures
            r == *self,
    {
        Field {
            expr: self.expr.clone(),
            alias: match &self.alias {
                Some(a) => Some(a.clone()),
                None => None,
            },
        }
    }
}

impl Clone for Dimension {
    /// The clone is the same value.
    fn clone(&self) -> (r: Self)
        ensures
            r == *self,
    {
        match self {
            Dimension::Time { interval, offset } => Dimension::Time {
                interval: Box::new((**interval).clone()),
                offset: match offset {
                    Some(o) => Some(Box::new((**o).clone())),
                    None => None,
                },
            },
            Dimension::Tag(n) => Dimension::Tag(n.clone()),
            Dimension::Regex(n) => Dimension::Regex(n.clone()),
            Dimension::Wildcard => Dimension::Wildcard,
        }
    }
}


/// The column names an expression mentions, left to right: the basis of the
/// default output name of a projection.
pub open spec fn spec_collect_names(e: Expr) -> Seq<Seq<char>>
    decreases e,
{
    match e {
        Expr::VarRef(v) => seq![v.name@],
        Expr::Call(c) => seq![c.name@],
        Expr::Binary(b) => spec_collect_names(*b.lhs) + spec_collect_names(*b.rhs),
        Expr::Nested(inner) => spec_collect_names(*inner),
        _ => Seq::empty(),
    }
}

/// Name parts joined with underscores.
pub open spec fn spec_join_underscore(parts: Seq<Seq<char>>) -> Seq<char>
    decreases parts.len(),
{
    if parts.len() == 0 {
        Seq::empty()
    } else if parts.len() == 1 {
        parts[0]
    } else {
        spec_join_underscore(parts.drop_last()) + "_"@ + parts.last()
    }
}

/// The default output name of a projection expression.
pub open spec fn spec_expr_name(e: Expr) -> Seq<char>
    decreases e,
{
    match e {
        Expr::VarRef(v) => v.name@,
        Expr::Call(c) => c.name@,
        Expr::Binary(_) => spec_join_underscore(spec_collect_names(e)),
        Expr::Nested(inner) => spec_expr_name(*inner),
        Expr::Distinct(_) => "distinct"@,
        _ => Seq::empty(),
    }
}

/// The output name of a projection: its alias, or the name its expression
/// yields.
pub open spec fn spec_field_name(f: Field) -> Seq<char> {
    match f.alias {
        Option::Some(a) => a@,
        Option::None => spec_expr_name(f.expr),
    }
}

/// The name sequences of a string list.
pub open spec fn names_view(parts: Seq<String>) -> Seq<Seq<char>> {
    parts.map_values(|p: String| p@)
}

/// Collects the column names an expression mentions.
fn push_collected_names(e: &Expr, out: &mut Vec<String>)
    ensures
        names_view(final(out)@) == names_view(old(out)@) + spec_collect_names(*e),
    decreases e,
{
    match e {
        Expr::VarRef(v) => {
            out.push(v.name.clone());
            assert(names_view(out@) =~= names_view(old(out)@) + spec_collect_names(*e));
        },
        Expr::Call(c) => {
            out.push(c.name.clone());
            assert(names_view(out@) =~= names_view(old(out)@) + spec_collect_names(*e));
        },
        Expr::Binary(b) => {
            push_collected_names(&b.lhs, out);
            push_collected_names(&b.rhs, out);
            assert(names_view(out@) =~= names_view(old(out)@) + spec_collect_names(*e));
        },
        Expr::Nested(inner) => {
            push_collected_names(inner, out);
        },
        _ => {
            assert(names_view(out@) =~= names_view(old(out)@) + spec_collect_names(*e));
        },
    }
}

/// Joins name parts with underscores.
#[verifier::loop_isolation(false)]
fn join_underscore(parts: &Vec<String>) -> (r: String)
    ensures
        r@ == spec_join_underscore(names_view(parts@)),
{
    let mut s = String::new();
    let mut i: usize = 0;
    proof {
        assert(names_view(parts@.take(0)) =~= Seq::<Seq<char>>::empty());
    }
    while i < parts.len()
        invariant
            i <= parts@.len(),
            s@ == spec_join_underscore(names_view(parts@.take(i as int))),
        decreases parts@.len() - i,
    {
        if i > 0 {
            s.append("_");
        }
        s.append(parts[i].as_str());
        proof {
            assert(names_view(parts@.take(i + 1)).drop_last() =~= names_view(
                parts@.take(i as int),
            ));
            assert(names_view(parts@.take(i + 1)).last() == parts@[i as int]@);
            if i > 0 {
                assert(s@ =~= spec_join_underscore(names_view(parts@.take(i + 1))));
            } else {
                assert(names_view(parts@.take(1)).len() == 1);
                assert(s@ =~= spec_join_underscore(names_view(parts@.take(i + 1))));
            }
        }
        i = i + 1;
    }
    proof {
        assert(parts@.take(parts@.len() as int) =~= parts@);
    }
    s
}

/// The default output name of an expression.
pub fn expr_name(e: &Expr) -> (r: String)
    ensures
        r@ == spec_expr_name(*e),
    decreases e,
{
    match e {
        Expr::VarRef(v) => v.name.clone(),
        Expr::Call(c) => c.name.clone(),
        Expr::Binary(_) => {
            let mut parts: Vec<String> = Vec::new();
            push_collected_names(e, &mut parts);
            join_underscore(&parts)
        },
        Expr::Nested(inner) => expr_name(inner),
        Expr::Distinct(_) => {
            let mut s = String::new();
            s.append("distinct");
            s
        },
        _ => String::new(),
    }
}

/// The output name of a projection.
pub fn field_name(f: &Field) -> (r: String)
    ensures
        r@ == spec_field_name(*f),
{
    match &f.alias {
        Option::Some(a) => a.clone(),
        Option::None => expr_name(&f.expr),
    }
}


impl Clone for FillClause {
    /// The clone is the same value.
    fn clone(&self) -> (r: Self)
        ensures
            r == *self,
    {
        match self {
            FillClause::Null => FillClause::Null,
            FillClause::NoFill => FillClause::NoFill,
            FillClause::Previous => FillClause::Previous,
            FillClause::Value(t) => FillClause::Value(t.clone()),
            FillClause::Linear => FillClause::Linear,
        }
    }
}

/// A copy of an optional string, the same value.
pub fn clone_opt_string(v: &Option<String>) -> (r: Option<String>)
    ensures
        r == *v,
{
    match v {
        Option::Some(t) => Some(t.clone()),
        Option::None => None,
    }
}

/// A copy of an optional fill clause, the same value.
pub fn clone_opt_fill(v: &Option<FillClause>) -> (r: Option<FillClause>)
    ensures
        r == *v,
{
    match v {
        Option::Some(t) => Some(t.clone()),
        Option::None => None,
    }
}

/// A copy of a projection list, the same sequence of values.
#[verifier::loop_isolation(false)]
pub fn clone_fields(v: &Vec<Field>) -> (r: Vec<Field>)
    ensures
        r@ == v@,
{
    let mut out: Vec<Field> = Vec::new();
    let mut i: usize = 0;
    while i < v.len()
        invariant
            i <= v@.len(),
            out@.len() == i,
            forall|j: int| 0 <= j < i ==> out@[j] == #[trigger] v@[j],
        decreases v@.len() - i,
    {
        out.push(v[i].clone());
        i = i + 1;
    }
    proof {
        assert(out@ =~= v@);
    }
    out
}

/// A copy of a dimension list, the same sequence of values.
#[verifier::loop_isolation(false)]
pub fn clone_dimensions(v: &Vec<Dimension>) -> (r: Vec<Dimension>)
    ensures
        r@ == v@,
{
    let mut out: Vec<Dimension> = Vec::new();
    let mut i: usize = 0;
    while i < v.len()
        invariant
            i <= v@.len(),
            out@.len() == i,
            forall|j: int| 0 <= j < i ==> out@[j] == #[trigger] v@[j],
        decreases v@.len() - i,
    {
        out.push(v[i].clone());
        i = i + 1;
    }
    proof {
        assert(out@ =~= v@);
    }
    out
}

/// A copy of an optional dimension list, with the same dimensions.
pub fn clone_opt_dimensions(v: &Option<Vec<Dimension>>) -> (r: Option<Vec<Dimension>>)
    ensures
        (r is Some) == (v is Some),
        r matches Some(d) ==> (v matches Some(d0) && d@ == d0@),
{
    match v {
        Option::Some(t) => Some(clone_dimensions(t)),
        Option::None => None,
    }
}

} // verus!
