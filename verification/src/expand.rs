use vstd::prelude::*;

use crate::ast::{
    field_name, spec_field_name, Call, Dimension, Expr, ExprList, Field, Literal, SelectStatement,
    VarRef, VarRefDataType, WildcardType,
};
use crate::error::Error;
use crate::field_mapper::{spec_names_contain, TagSet, TypeMap};
use crate::ir::{DataSource, Select};
use crate::regex_support::{compile_regex, regex_match, regex_valid, Pattern};
use crate::schema::{Column, ColumnType, Schemas, TableSchema};
use crate::text::{lex_lt, str_eq};
use crate::type_evaluator::{eval_type, eval_var_ref, merge_opt, spec_eval_type, spec_eval_var_ref};

verus! {

broadcast use vstd::std_specs::vec::axiom_vec_index_decreases;

/// No wildcard and no regex literal anywhere in the expression.
pub open spec fn expr_wildcard_free(e: Expr) -> bool
    decreases e,
{
    match e {
        Expr::Wildcard(_) => false,
        Expr::Literal(Literal::Regex(_)) => false,
        Expr::Call(c) => args_wildcard_free(c.args),
        Expr::Binary(b) => expr_wildcard_free(*b.lhs) && expr_wildcard_free(*b.rhs),
        Expr::Nested(inner) => expr_wildcard_free(*inner),
        _ => true,
    }
}

/// No wildcard and no regex literal among the arguments.
pub open spec fn args_wildcard_free(l: ExprList) -> bool
    decreases l,
{
    match l {
        ExprList::Empty => true,
        ExprList::Item(head, rest) => expr_wildcard_free(*head) && args_wildcard_free(*rest),
    }
}

/// Whether the expression holds a wildcard or regex literal anywhere.
pub fn expr_has_wildcard(e: &Expr) -> (r: bool)
    ensures
        r == !expr_wildcard_free(*e),
    decreases e,
{
    match e {
        Expr::Wildcard(_) => true,
        Expr::Literal(Literal::Regex(_)) => true,
        Expr::Call(c) => args_have_wildcard(&c.args),
        Expr::Binary(b) => expr_has_wildcard(&b.lhs) || expr_has_wildcard(&b.rhs),
        Expr::Nested(inner) => expr_has_wildcard(inner),
        _ => false,
    }
}

/// Whether any argument holds a wildcard or regex literal.
fn args_have_wildcard(l: &ExprList) -> (r: bool)
    ensures
        r == !args_wildcard_free(*l),
    decreases l,
{
    match l {
        ExprList::Empty => false,
        ExprList::Item(head, rest) => expr_has_wildcard(head) || args_have_wildcard(rest),
    }
}

/// Whether the projection list and the `GROUP BY` clause hold wildcards or
/// regex literals; subqueries are not entered.
pub fn has_wildcards(stmt: &SelectStatement) -> (r: (bool, bool))
    ensures
        r.0 == !(forall|i: int|
            0 <= i < stmt.fields@.len() ==> expr_wildcard_free(#[trigger] stmt.fields@[i].expr)),
        r.1 == (match stmt.group_by {
            Option::Some(dims) => exists|i: int|
                0 <= i < dims@.len() && ((#[trigger] dims@[i]) is Wildcard || dims@[i] is Regex),
            Option::None => false,
        }),
{
    let mut in_fields = false;
    let mut i: usize = 0;
    while i < stmt.fields.len()
        invariant
            i <= stmt.fields@.len(),
            in_fields == !(forall|j: int|
                0 <= j < i ==> expr_wildcard_free(#[trigger] stmt.fields@[j].expr)),
        decreases stmt.fields@.len() - i,
    {
        if expr_has_wildcard(&stmt.fields[i].expr) {
            in_fields = true;
        }
        i = i + 1;
    }
    let mut in_group_by = false;
    match &stmt.group_by {
        Option::None => {},
        Option::Some(dims) => {
            let mut j: usize = 0;
            while j < dims.len()
                invariant
                    j <= dims@.len(),
                    in_group_by == exists|k: int|
                        0 <= k < j && ((#[trigger] dims@[k]) is Wildcard || dims@[k] is Regex),
                decreases dims@.len() - j,
            {
                if matches!(&dims[j], Dimension::Wildcard | Dimension::Regex(_)) {
                    in_group_by = true;
                }
                j = j + 1;
            }
        },
    }
    (in_fields, in_group_by)
}

/// The second expression is the first with every unary `DISTINCT` rewritten
/// to a `distinct(..)` call.
pub open spec fn distinct_rewritten(a: Expr, b: Expr) -> bool
    decreases a,
{
    match a {
        Expr::Distinct(n) => b matches Expr::Call(c) && c.name@ == "distinct"@ && (
        c.args matches ExprList::Item(head, rest) && (*rest is Empty) && (
        *head matches Expr::VarRef(v) && v.name@ == n@ && v.data_type is None)),
        Expr::Call(c) => b matches Expr::Call(c2) && c2.name == c.name && args_distinct_rewritten(
            c.args,
            c2.args,
        ),
        Expr::Binary(x) => b matches Expr::Binary(y) && y.op == x.op && distinct_rewritten(
            *x.lhs,
            *y.lhs,
        ) && distinct_rewritten(*x.rhs, *y.rhs),
        Expr::Nested(inner) => b matches Expr::Nested(inner2) && distinct_rewritten(
            *inner,
            *inner2,
        ),
        _ => b == a,
    }
}

/// Argument lists under the distinct rewrite, pairwise.
pub open spec fn args_distinct_rewritten(a: ExprList, b: ExprList) -> bool
    decreases a,
{
    match a {
        ExprList::Empty => b is Empty,
        ExprList::Item(h, t) => b matches ExprList::Item(h2, t2) && distinct_rewritten(*h, *h2)
            && args_distinct_rewritten(*t, *t2),
    }
}

/// Rewrites every unary `DISTINCT` to a `distinct(..)` call.
pub fn rewrite_distinct(e: &Expr) -> (r: Expr)
    ensures
        distinct_rewritten(*e, r),
    decreases e,
{
    match e {
        Expr::Distinct(n) => {
            let mut name = String::new();
            name.append("distinct");
            Expr::Call(
                Call {
                    name,
                    args: ExprList::Item(
                        Box::new(Expr::VarRef(VarRef { name: n.clone(), data_type: None })),
                        Box::new(ExprList::Empty),
                    ),
                },
            )
        },
        Expr::Call(c) => Expr::Call(
            Call { name: c.name.clone(), args: rewrite_distinct_args(&c.args) },
        ),
        Expr::Binary(b) => Expr::Binary(
            crate::ast::Binary {
                lhs: Box::new(rewrite_distinct(&b.lhs)),
                op: b.op,
                rhs: Box::new(rewrite_distinct(&b.rhs)),
            },
        ),
        Expr::Nested(inner) => Expr::Nested(Box::new(rewrite_distinct(inner))),
        _ => e.clone(),
    }
}

/// Rewrites every unary `DISTINCT` among the arguments.
fn rewrite_distinct_args(l: &ExprList) -> (r: ExprList)
    ensures
        args_distinct_rewritten(*l, r),
    decreases l,
{
    match l {
        ExprList::Empty => ExprList::Empty,
        ExprList::Item(head, rest) => ExprList::Item(
            Box::new(rewrite_distinct(head)),
            Box::new(rewrite_distinct_args(rest)),
        ),
    }
}

/// The second expression is the first with every column reference annotated
/// with its resolved type.
pub open spec fn annotated(s: Schemas, from: Vec<DataSource>, a: Expr, b: Expr) -> bool
    decreases a,
{
    match a {
        Expr::VarRef(v) => b matches Expr::VarRef(w) && w.name == v.name && w.data_type
            == spec_eval_var_ref(s, from, v),
        Expr::Call(c) => b matches Expr::Call(c2) && c2.name == c.name && args_annotated(
            s,
            from,
            c.args,
            c2.args,
        ),
        Expr::Binary(x) => b matches Expr::Binary(y) && y.op == x.op && annotated(
            s,
            from,
            *x.lhs,
            *y.lhs,
        ) && annotated(s, from, *x.rhs, *y.rhs),
        Expr::Nested(inner) => b matches Expr::Nested(inner2) && annotated(
            s,
            from,
            *inner,
            *inner2,
        ),
        _ => b == a,
    }
}

/// Argument lists under the annotation, pairwise.
pub open spec fn args_annotated(s: Schemas, from: Vec<DataSource>, a: ExprList, b: ExprList) -> bool
    decreases a,
{
    match a {
        ExprList::Empty => b is Empty,
        ExprList::Item(h, t) => b matches ExprList::Item(h2, t2) && annotated(s, from, *h, *h2)
            && args_annotated(s, from, *t, *t2),
    }
}

/// Annotates every column reference with its resolved type.
pub fn annotate_expr(s: &Schemas, from: &Vec<DataSource>, e: &Expr) -> (r: Expr)
    ensures
        annotated(*s, *from, *e, r),
    decreases e,
{
    match e {
        Expr::VarRef(v) => {
            let dt = eval_var_ref(s, from, v);
            Expr::VarRef(VarRef { name: v.name.clone(), data_type: dt })
        },
        Expr::Call(c) => Expr::Call(
            Call { name: c.name.clone(), args: annotate_args(s, from, &c.args) },
        ),
        Expr::Binary(b) => Expr::Binary(
            crate::ast::Binary {
                lhs: Box::new(annotate_expr(s, from, &b.lhs)),
                op: b.op,
                rhs: Box::new(annotate_expr(s, from, &b.rhs)),
            },
        ),
        Expr::Nested(inner) => Expr::Nested(Box::new(annotate_expr(s, from, inner))),
        _ => e.clone(),
    }
}

/// Annotates every column reference among the arguments.
fn annotate_args(s: &Schemas, from: &Vec<DataSource>, l: &ExprList) -> (r: ExprList)
    ensures
        args_annotated(*s, *from, *l, r),
    decreases l,
{
    match l {
        ExprList::Empty => ExprList::Empty,
        ExprList::Item(head, rest) => ExprList::Item(
            Box::new(annotate_expr(s, from, head)),
            Box::new(annotate_args(s, from, rest)),
        ),
    }
}


/// The smallest field type the first `j` columns record for the name.
pub open spec fn spec_cols_field_min(cols: Seq<Column>, j: nat, name: Seq<char>) -> Option<
    VarRefDataType,
>
    decreases j,
{
    if j == 0 {
        Option::None
    } else {
        merge_opt(
            spec_cols_field_min(cols, (j - 1) as nat, name),
            match cols[j - 1].column_type {
                ColumnType::Field(ft) => if cols[j - 1].name@ == name {
                    Option::Some(ft)
                } else {
                    Option::None
                },
                ColumnType::Tag => Option::None,
            },
        )
    }
}

/// Whether the first `j` columns name a tag.
pub open spec fn spec_cols_has_tag(cols: Seq<Column>, j: nat, name: Seq<char>) -> bool
    decreases j,
{
    if j == 0 {
        false
    } else {
        spec_cols_has_tag(cols, (j - 1) as nat, name) || (cols[j - 1].column_type is Tag && cols[j
            - 1].name@ == name)
    }
}

/// The smallest type of the first `j` subquery projections whose output name
/// matches.
pub open spec fn spec_fields_min_type(
    s: Schemas,
    qfrom: Vec<DataSource>,
    fields: Seq<Field>,
    j: nat,
    name: Seq<char>,
) -> Option<VarRefDataType>
    decreases j,
{
    if j == 0 {
        Option::None
    } else {
        merge_opt(
            spec_fields_min_type(s, qfrom, fields, (j - 1) as nat, name),
            match spec_eval_type(s, qfrom, fields[j - 1].expr) {
                Option::Some(dt) => if spec_field_name(fields[j - 1]) == name {
                    Option::Some(dt)
                } else {
                    Option::None
                },
                Option::None => Option::None,
            },
        )
    }
}

/// Whether the first `j` dimensions name a tag.
pub open spec fn spec_dims_has_tag(dims: Seq<Dimension>, j: nat, name: Seq<char>) -> bool
    decreases j,
{
    if j == 0 {
        false
    } else {
        spec_dims_has_tag(dims, (j - 1) as nat, name) || (
        dims[j - 1] matches Dimension::Tag(t) && t@ == name)
    }
}

/// The field-type contribution of one source.
pub open spec fn spec_source_field_min(s: Schemas, ds: DataSource, name: Seq<char>) -> Option<
    VarRefDataType,
> {
    match ds {
        DataSource::Table(t) => match s.spec_table(t@) {
            Option::Some(tbl) => spec_cols_field_min(tbl.columns@, tbl.columns@.len(), name),
            Option::None => Option::None,
        },
        DataSource::Subquery(q) => spec_fields_min_type(
            s,
            q.from,
            q.fields@,
            q.fields@.len(),
            name,
        ),
    }
}

/// Whether one source contributes the name as a tag.
pub open spec fn spec_source_has_tag(s: Schemas, ds: DataSource, name: Seq<char>) -> bool {
    match ds {
        DataSource::Table(t) => match s.spec_table(t@) {
            Option::Some(tbl) => spec_cols_has_tag(tbl.columns@, tbl.columns@.len(), name),
            Option::None => false,
        },
        DataSource::Subquery(q) => match q.group_by {
            Option::Some(dims) => spec_dims_has_tag(dims@, dims@.len(), name),
            Option::None => false,
        },
    }
}

/// The merged field type of a name over the first `i` sources.
pub open spec fn spec_merged_field_type(
    s: Schemas,
    from: Vec<DataSource>,
    i: nat,
    name: Seq<char>,
) -> Option<VarRefDataType>
    decreases i,
{
    if i == 0 {
        Option::None
    } else {
        merge_opt(
            spec_merged_field_type(s, from, (i - 1) as nat, name),
            spec_source_field_min(s, from@[i - 1], name),
        )
    }
}

/// Whether any of the first `i` sources contributes the name as a tag.
pub open spec fn spec_merged_has_tag(
    s: Schemas,
    from: Vec<DataSource>,
    i: nat,
    name: Seq<char>,
) -> bool
    decreases i,
{
    if i == 0 {
        false
    } else {
        spec_merged_has_tag(s, from, (i - 1) as nat, name) || spec_source_has_tag(
            s,
            from@[i - 1],
            name,
        )
    }
}

/// The merge of optional types associates.
proof fn lemma_merge_assoc(
    a: Option<VarRefDataType>,
    b: Option<VarRefDataType>,
    c: Option<VarRefDataType>,
)
    ensures
        merge_opt(merge_opt(a, b), c) == merge_opt(a, merge_opt(b, c)),
{
}

/// Folds one table's columns into the maps: field columns into the type map,
/// tag columns into the tag set.
#[verifier::loop_isolation(false)]
fn merge_table(fs: &mut TypeMap, ts: &mut TagSet, tbl: &TableSchema)
    ensures
        forall|n: Seq<char>|
            final(fs).spec_get(n) == merge_opt(
                old(fs).spec_get(n),
                spec_cols_field_min(tbl.columns@, tbl.columns@.len(), n),
            ),
        forall|n: Seq<char>|
            final(ts).spec_contains(n) == (old(ts).spec_contains(n) || spec_cols_has_tag(
                tbl.columns@,
                tbl.columns@.len(),
                n,
            )),
{
    let mut j: usize = 0;
    while j < tbl.columns.len()
        invariant
            j <= tbl.columns@.len(),
            forall|n: Seq<char>|
                #[trigger] fs.spec_get(n) == merge_opt(
                    old(fs).spec_get(n),
                    spec_cols_field_min(tbl.columns@, j as nat, n),
                ),
            forall|n: Seq<char>|
                #[trigger] ts.spec_contains(n) == (old(ts).spec_contains(n) || spec_cols_has_tag(
                    tbl.columns@,
                    j as nat,
                    n,
                )),
        decreases tbl.columns@.len() - j,
    {
        let ghost fs_before = *fs;
        let ghost ts_before = *ts;
        match tbl.columns[j].column_type {
            ColumnType::Field(ft) => {
                fs.record(tbl.columns[j].name.clone(), ft);
            },
            ColumnType::Tag => {
                ts.record(tbl.columns[j].name.clone());
            },
        }
        proof {
            let col = tbl.columns@[j as int];
            assert forall|n: Seq<char>|
                #[trigger] fs.spec_get(n) == merge_opt(
                    old(fs).spec_get(n),
                    spec_cols_field_min(tbl.columns@, (j + 1) as nat, n),
                ) by {
                let one_part = match col.column_type {
                    ColumnType::Field(ft) => if col.name@ == n {
                        Option::Some(ft)
                    } else {
                        Option::<VarRefDataType>::None
                    },
                    ColumnType::Tag => Option::<VarRefDataType>::None,
                };
                assert(spec_cols_field_min(tbl.columns@, (j + 1) as nat, n) == merge_opt(
                    spec_cols_field_min(tbl.columns@, j as nat, n),
                    one_part,
                ));
                assert(fs.spec_get(n) == merge_opt(fs_before.spec_get(n), one_part));
                lemma_merge_assoc(
                    old(fs).spec_get(n),
                    spec_cols_field_min(tbl.columns@, j as nat, n),
                    one_part,
                );
            }
            assert forall|n: Seq<char>|
                #[trigger] ts.spec_contains(n) == (old(ts).spec_contains(n) || spec_cols_has_tag(
                    tbl.columns@,
                    (j + 1) as nat,
                    n,
                )) by {
                assert(spec_cols_has_tag(tbl.columns@, (j + 1) as nat, n) == (spec_cols_has_tag(
                    tbl.columns@,
                    j as nat,
                    n,
                ) || (col.column_type is Tag && col.name@ == n)));
                assert(ts.spec_contains(n) == (ts_before.spec_contains(n) || (col.column_type is Tag
                    && col.name@ == n)));
            }
        }
        j = j + 1;
    }
}

/// Folds a subquery's typed projections into the type map, by their output
/// names.
#[verifier::loop_isolation(false)]
fn merge_subquery_fields(fs: &mut TypeMap, s: &Schemas, q: &Select)
    ensures
        forall|n: Seq<char>|
            final(fs).spec_get(n) == merge_opt(
                old(fs).spec_get(n),
                spec_fields_min_type(*s, q.from, q.fields@, q.fields@.len(), n),
            ),
{
    let mut j: usize = 0;
    while j < q.fields.len()
        invariant
            j <= q.fields@.len(),
            forall|n: Seq<char>|
                #[trigger] fs.spec_get(n) == merge_opt(
                    old(fs).spec_get(n),
                    spec_fields_min_type(*s, q.from, q.fields@, j as nat, n),
                ),
        decreases q.fields@.len() - j,
    {
        let ghost fs_before = *fs;
        let dt = eval_type(s, &q.from, &q.fields[j].expr);
        match dt {
            Option::Some(found) => {
                let fname = field_name(&q.fields[j]);
                fs.record(fname, found);
            },
            Option::None => {},
        }
        proof {
            assert forall|n: Seq<char>|
                #[trigger] fs.spec_get(n) == merge_opt(
                    old(fs).spec_get(n),
                    spec_fields_min_type(*s, q.from, q.fields@, (j + 1) as nat, n),
                ) by {
                let one_part = match spec_eval_type(*s, q.from, q.fields@[j as int].expr) {
                    Option::Some(t) => if spec_field_name(q.fields@[j as int]) == n {
                        Option::Some(t)
                    } else {
                        Option::<VarRefDataType>::None
                    },
                    Option::None => Option::<VarRefDataType>::None,
                };
                assert(spec_fields_min_type(*s, q.from, q.fields@, (j + 1) as nat, n)
                    == merge_opt(
                    spec_fields_min_type(*s, q.from, q.fields@, j as nat, n),
                    one_part,
                ));
                assert(fs.spec_get(n) == merge_opt(fs_before.spec_get(n), one_part));
                lemma_merge_assoc(
                    old(fs).spec_get(n),
                    spec_fields_min_type(*s, q.from, q.fields@, j as nat, n),
                    one_part,
                );
            }
        }
        j = j + 1;
    }
}

/// Folds a subquery's grouped tag names into the tag set.
#[verifier::loop_isolation(false)]
fn merge_subquery_dims(ts: &mut TagSet, dims: &Vec<Dimension>)
    ensures
        forall|n: Seq<char>|
            final(ts).spec_contains(n) == (old(ts).spec_contains(n) || spec_dims_has_tag(
                dims@,
                dims@.len(),
                n,
            )),
{
    let mut j: usize = 0;
    while j < dims.len()
        invariant
            j <= dims@.len(),
            forall|n: Seq<char>|
                #[trigger] ts.spec_contains(n) == (old(ts).spec_contains(n) || spec_dims_has_tag(
                    dims@,
                    j as nat,
                    n,
                )),
        decreases dims@.len() - j,
    {
        let ghost ts_before = *ts;
        match &dims[j] {
            Dimension::Tag(ident) => {
                ts.record(ident.clone());
            },
            _ => {},
        }
        proof {
            assert forall|n: Seq<char>|
                #[trigger] ts.spec_contains(n) == (old(ts).spec_contains(n) || spec_dims_has_tag(
                    dims@,
                    (j + 1) as nat,
                    n,
                )) by {
                assert(spec_dims_has_tag(dims@, (j + 1) as nat, n) == (spec_dims_has_tag(
                    dims@,
                    j as nat,
                    n,
                ) || (dims@[j as int] matches Dimension::Tag(t) && t@ == n)));
                assert(ts.spec_contains(n) == (ts_before.spec_contains(n) || (
                dims@[j as int] matches Dimension::Tag(t) && t@ == n)));
            }
        }
        j = j + 1;
    }
}

/// The merged fields and tags of a resolved `FROM` list: every table column
/// and every typed subquery projection contributes its field type, the
/// smaller type winning a clash, and tables' tag columns join subqueries'
/// grouped tags.
#[verifier::loop_isolation(false)]
pub fn from_field_and_dimensions(s: &Schemas, from: &Vec<DataSource>) -> (r: (TypeMap, TagSet))
    ensures
        forall|n: Seq<char>| r.0.spec_get(n) == spec_merged_field_type(*s, *from, from@.len(), n),
        forall|n: Seq<char>|
            r.1.spec_contains(n) == spec_merged_has_tag(*s, *from, from@.len(), n),
{
    let mut fs = TypeMap::new();
    let mut ts = TagSet::new();
    let mut i: usize = 0;
    while i < from.len()
        invariant
            i <= from@.len(),
            forall|n: Seq<char>|
                #[trigger] fs.spec_get(n) == spec_merged_field_type(*s, *from, i as nat, n),
            forall|n: Seq<char>|
                #[trigger] ts.spec_contains(n) == spec_merged_has_tag(*s, *from, i as nat, n),
        decreases from@.len() - i,
    {
        let ghost fs_entry = fs;
        let ghost ts_entry = ts;
        match &from[i] {
            DataSource::Table(t) => {
                match s.table_schema(t.as_str()) {
                    Option::None => {},
                    Option::Some(tbl) => {
                        merge_table(&mut fs, &mut ts, tbl);
                    },
                }
            },
            DataSource::Subquery(q) => {
                merge_subquery_fields(&mut fs, s, q);
                match &q.group_by {
                    Option::None => {},
                    Option::Some(dims) => {
                        merge_subquery_dims(&mut ts, dims);
                    },
                }
            },
        }
        proof {
            assert forall|n: Seq<char>|
                #[trigger] fs.spec_get(n) == spec_merged_field_type(
                    *s,
                    *from,
                    (i + 1) as nat,
                    n,
                ) by {
                assert(spec_merged_field_type(*s, *from, (i + 1) as nat, n) == merge_opt(
                    spec_merged_field_type(*s, *from, i as nat, n),
                    spec_source_field_min(*s, from@[i as int], n),
                ));
                assert(fs.spec_get(n) == merge_opt(
                    fs_entry.spec_get(n),
                    spec_source_field_min(*s, from@[i as int], n),
                ));
            }
            assert forall|n: Seq<char>|
                #[trigger] ts.spec_contains(n) == spec_merged_has_tag(
                    *s,
                    *from,
                    (i + 1) as nat,
                    n,
                ) by {
                assert(spec_merged_has_tag(*s, *from, (i + 1) as nat, n) == (spec_merged_has_tag(
                    *s,
                    *from,
                    i as nat,
                    n,
                ) || spec_source_has_tag(*s, from@[i as int], n)));
                assert(ts.spec_contains(n) == (ts_entry.spec_contains(n) || spec_source_has_tag(
                    *s,
                    from@[i as int],
                    n,
                )));
            }
        }
        i = i + 1;
    }
    (fs, ts)
}


/// The order of expansion entries: by name, then by the type's rank, untyped
/// entries first.
pub open spec fn vr_le(a: VarRef, b: VarRef) -> bool {
    ||| lex_lt(a.name@, b.name@)
    ||| (a.name@ == b.name@ && rank_opt(a.data_type) <= rank_opt(b.data_type))
}

/// An order rank for an optional type: absent first, then the type order.
pub open spec fn rank_opt(dt: Option<VarRefDataType>) -> int {
    match dt {
        Option::None => -1,
        Option::Some(t) => t.spec_rank() as int,
    }
}

/// Entries pairwise in order.
pub open spec fn vr_sorted(s: Seq<VarRef>) -> bool {
    forall|i: int, j: int|
        #![trigger s[i], s[j]]
        0 <= i < j < s.len() ==> vr_le(s[i], s[j])
}

/// The order on entries is total.
proof fn lemma_vr_le_total(a: VarRef, b: VarRef)
    ensures
        vr_le(a, b) || vr_le(b, a),
{
    if !lex_lt(a.name@, b.name@) && !lex_lt(b.name@, a.name@) {
        crate::text::lemma_lex_connected(a.name@, b.name@);
    }
}

/// The order on entries is transitive.
proof fn lemma_vr_le_trans(a: VarRef, b: VarRef, c: VarRef)
    requires
        vr_le(a, b),
        vr_le(b, c),
    ensures
        vr_le(a, c),
{
    if lex_lt(a.name@, b.name@) && lex_lt(b.name@, c.name@) {
        crate::text::lemma_lex_trans(a.name@, b.name@, c.name@);
    }
}

/// Compares two expansion entries in the order.
fn vr_before(a: &VarRef, b: &VarRef) -> (r: bool)
    ensures
        r == vr_le(*a, *b),
{
    if crate::text::str_lex_lt(a.name.as_str(), b.name.as_str()) {
        return true;
    }
    if str_eq(a.name.as_str(), b.name.as_str()) {
        let ra: i32 = match a.data_type {
            Option::None => -1,
            Option::Some(t) => t.rank() as i32,
        };
        let rb: i32 = match b.data_type {
            Option::None => -1,
            Option::Some(t) => t.rank() as i32,
        };
        ra <= rb
    } else {
        false
    }
}

/// A sequence with an element put in keeps the same elements, plus it.
proof fn lemma_to_multiset_insert<A>(s: Seq<A>, i: int, x: A)
    requires
        0 <= i <= s.len(),
    ensures
        s.insert(i, x).to_multiset() == s.to_multiset().insert(x),
{
    broadcast use vstd::seq_lib::group_to_multiset_ensures;

    assert(s.insert(i, x) =~= s.take(i).push(x) + s.skip(i));
    assert(s =~= s.take(i) + s.skip(i));
    vstd::seq_lib::lemma_multiset_commutative(s.take(i).push(x), s.skip(i));
    vstd::seq_lib::lemma_multiset_commutative(s.take(i), s.skip(i));
    assert(s.take(i).push(x).to_multiset() =~= s.take(i).to_multiset().insert(x));
    assert(s.insert(i, x).to_multiset() =~= s.to_multiset().insert(x));
}

/// Sorts expansion entries by name and type rank, keeping exactly the same
/// entries.
#[verifier::loop_isolation(false)]
fn sort_var_refs(input: Vec<VarRef>) -> (r: Vec<VarRef>)
    ensures
        vr_sorted(r@),
        r@.len() == input@.len(),
        r@.to_multiset() == input@.to_multiset(),
{
    broadcast use vstd::seq_lib::group_to_multiset_ensures;

    let ghost input0 = input@;
    let mut src = input;
    let mut out: Vec<VarRef> = Vec::new();
    while src.len() > 0
        invariant
            vr_sorted(out@),
            out@.len() + src@.len() == input0.len(),
            out@.to_multiset().add(src@.to_multiset()) == input0.to_multiset(),
        decreases src@.len(),
    {
        let ghost src_before = src@;
        let x = src.remove(0);
        proof {
            assert(src@ =~= src_before.remove(0));
            assert(src_before.to_multiset().contains(x));
            assert(src@.to_multiset() =~= src_before.to_multiset().remove(x));
        }
        let mut p: usize = 0;
        while p < out.len() && vr_before(&out[p], &x)
            invariant
                p <= out@.len(),
                forall|k: int| 0 <= k < p ==> vr_le(#[trigger] out@[k], x),
            decreases out@.len() - p,
        {
            p = p + 1;
        }
        proof {
            if p < out@.len() {
                lemma_vr_le_total(out@[p as int], x);
                assert(vr_le(x, out@[p as int]));
            }
        }
        let ghost out_before = out@;
        out.insert(p, x);
        proof {
            lemma_to_multiset_insert(out_before, p as int, x);
            assert(out@.to_multiset().add(src@.to_multiset()) =~= input0.to_multiset());
            assert forall|i: int, j: int|
                #![trigger out@[i], out@[j]]
                0 <= i < j < out@.len() implies vr_le(out@[i], out@[j]) by {
                if j < p {
                    assert(out@[i] == out_before[i]);
                    assert(out@[j] == out_before[j]);
                } else if i < p && j == p {
                    assert(out@[i] == out_before[i]);
                } else if i == p && j > p {
                    assert(out@[j] == out_before[j - 1]);
                    assert(vr_le(x, out_before[p as int]));
                    if j - 1 > p {
                        assert(vr_le(out_before[p as int], out_before[j - 1]));
                        lemma_vr_le_trans(x, out_before[p as int], out_before[j - 1]);
                    }
                } else if i < p && j > p {
                    assert(out@[i] == out_before[i]);
                    assert(out@[j] == out_before[j - 1]);
                    if j - 1 == i {
                        assert(vr_le(out_before[i], x));
                        assert(vr_le(x, out_before[p as int]));
                    } else {
                        assert(vr_le(out_before[i], out_before[j - 1]));
                    }
                } else if i > p {
                    assert(out@[i] == out_before[i - 1]);
                    assert(out@[j] == out_before[j - 1]);
                    assert(vr_le(out_before[i - 1], out_before[j - 1]));
                }
            }
        }
    }
    out
}


/// The innermost call reached by descending first arguments.
pub open spec fn spec_innermost(c: Call) -> Call
    decreases c,
{
    match c.args {
        ExprList::Item(h, _) => match *h {
            Expr::Call(c2) => spec_innermost(c2),
            _ => c,
        },
        ExprList::Empty => c,
    }
}

/// A projection the expander can rid of wildcards: a plain wildcard or regex,
/// a call whose innermost first argument is one (with clean other arguments),
/// or an expression with no wildcard at all. A binary expression with a
/// wildcard is counted too, since the expander refuses it outright.
pub open spec fn spec_expandable(e: Expr) -> bool {
    match e {
        Expr::Wildcard(_) => true,
        Expr::Literal(Literal::Regex(_)) => true,
        Expr::Binary(_) => true,
        Expr::Call(c) => {
            let ic = spec_innermost(c);
            match ic.args {
                ExprList::Item(h, t) => if *h is Wildcard || (
                *h matches Expr::Literal(l) && l is Regex) {
                    args_wildcard_free(*t)
                } else {
                    expr_wildcard_free(e)
                },
                ExprList::Empty => expr_wildcard_free(e),
            }
        },
        _ => expr_wildcard_free(e),
    }
}

/// The innermost call reached by descending first arguments.
fn innermost_call<'a>(c: &'a Call) -> (r: &'a Call)
    ensures
        *r == spec_innermost(*c),
    decreases c,
{
    match &c.args {
        ExprList::Item(h, _) => match &**h {
            Expr::Call(c2) => innermost_call(c2),
            _ => c,
        },
        ExprList::Empty => c,
    }
}

/// The argument list with the first argument replaced.
fn subst_head(args: &ExprList, head: Expr) -> (r: ExprList)
    ensures
        args matches ExprList::Item(h0, t) ==> (r matches ExprList::Item(h, t2) && *h == head
            && *t2 == **t),
        args is Empty ==> (r matches ExprList::Item(h, t2) && *h == head && *t2 is Empty),
{
    match args {
        ExprList::Item(_, t) => ExprList::Item(Box::new(head), Box::new((**t).clone())),
        ExprList::Empty => ExprList::Item(Box::new(head), Box::new(ExprList::Empty)),
    }
}

/// Lowercases the ASCII letters of a name.
pub open spec fn spec_ascii_lower(s: Seq<char>) -> Seq<char>
    decreases s.len(),
{
    if s.len() == 0 {
        Seq::empty()
    } else {
        spec_ascii_lower(s.drop_last()).push(lower_char(s.last()))
    }
}

/// An ASCII letter lowered; anything else kept.
pub open spec fn lower_char(c: char) -> char {
    if 'A' <= c && c <= 'Z' {
        ((c as u8) + 32) as char
    } else {
        c
    }
}

/// Lowercases the ASCII letters of a name.
#[verifier::loop_isolation(false)]
fn ascii_lower(s: &str) -> (r: String)
    ensures
        r@ == spec_ascii_lower(s@),
{
    let len = s.unicode_len();
    let mut out = String::new();
    let mut i: usize = 0;
    proof {
        assert(s@.take(0) =~= Seq::<char>::empty());
    }
    while i < len
        invariant
            i <= len,
            len == s@.len(),
            out@ == spec_ascii_lower(s@.take(i as int)),
        decreases len - i,
    {
        let c = s.get_char(i);
        if 'A' <= c && c <= 'Z' {
            proof {
                vstd::utf8::char_is_scalar(c);
            }
            crate::text::push_char(&mut out, ((c as u8) + 32) as char);
        } else {
            crate::text::push_char(&mut out, c);
        }
        proof {
            assert(s@.take(i + 1).drop_last() =~= s@.take(i as int));
            assert(s@.take(i + 1).last() == s@[i as int]);
        }
        i = i + 1;
    }
    proof {
        assert(s@.take(len as int) =~= s@);
    }
    out
}

/// Whether the entry type may stand in for a wildcard operand of the named
/// call: numbers by default, strings and booleans for the counting and
/// selecting functions, booleans for extrema, and no unsigned values for the
/// Holt-Winters pair.
pub open spec fn spec_supported_type(lowname: Seq<char>, dt: Option<VarRefDataType>) -> bool {
    match dt {
        Option::None => false,
        Option::Some(t) => {
            if lowname == "count"@ || lowname == "first"@ || lowname == "last"@ || lowname
                == "distinct"@ || lowname == "elapsed"@ || lowname == "mode"@ || lowname
                == "sample"@ {
                t == VarRefDataType::Float || t == VarRefDataType::Integer || t
                    == VarRefDataType::Unsigned || t == VarRefDataType::String || t
                    == VarRefDataType::Boolean
            } else if lowname == "min"@ || lowname == "max"@ {
                t == VarRefDataType::Float || t == VarRefDataType::Integer || t
                    == VarRefDataType::Unsigned || t == VarRefDataType::Boolean
            } else if lowname == "holt_winters"@ || lowname == "holt_winters_with_fit"@ {
                t == VarRefDataType::Float || t == VarRefDataType::Integer
            } else {
                t == VarRefDataType::Float || t == VarRefDataType::Integer || t
                    == VarRefDataType::Unsigned
            }
        },
    }
}

/// Whether the entry type may stand in for a wildcard operand of the call.
fn supported_type(lowname: &str, dt: Option<VarRefDataType>) -> (r: bool)
    ensures
        r == spec_supported_type(lowname@, dt),
{
    let t = match dt {
        Option::None => {
            return false;
        },
        Option::Some(t) => t,
    };
    let base = matches!(
        t,
        VarRefDataType::Float | VarRefDataType::Integer | VarRefDataType::Unsigned,
    );
    if str_eq(lowname, "count") || str_eq(lowname, "first") || str_eq(lowname, "last") || str_eq(
        lowname,
        "distinct",
    ) || str_eq(lowname, "elapsed") || str_eq(lowname, "mode") || str_eq(lowname, "sample") {
        base || matches!(t, VarRefDataType::String | VarRefDataType::Boolean)
    } else if str_eq(lowname, "min") || str_eq(lowname, "max") {
        base || matches!(t, VarRefDataType::Boolean)
    } else if str_eq(lowname, "holt_winters") || str_eq(lowname, "holt_winters_with_fit") {
        matches!(t, VarRefDataType::Float | VarRefDataType::Integer)
    } else {
        base
    }
}

/// The entries among the first `j` that a criterion keeps, in order.
pub open spec fn kept_entries(
    entries: Seq<VarRef>,
    j: nat,
    f: spec_fn(VarRef) -> bool,
) -> Seq<VarRef>
    decreases j,
{
    if j == 0 {
        Seq::empty()
    } else {
        kept_entries(entries, (j - 1) as nat, f) + (if f(entries[j - 1]) {
            seq![entries[j - 1]]
        } else {
            Seq::empty()
        })
    }
}

/// The criterion a bare wildcard form keeps.
pub open spec fn wildcard_keeps(wct: Option<WildcardType>) -> spec_fn(VarRef) -> bool {
    match wct {
        Option::None => |v: VarRef| true,
        Option::Some(WildcardType::Tag) => |v: VarRef|
            v.data_type matches Some(t) && t.spec_is_tag_type(),
        Option::Some(WildcardType::Field) => |v: VarRef|
            v.data_type matches Some(t) && t.spec_is_field_type(),
    }
}

/// The criterion a regex projection keeps.
pub open spec fn regex_keeps(p: Seq<char>) -> spec_fn(VarRef) -> bool {
    |v: VarRef| regex_match(p, v.name@)
}

/// The criterion a call with a wildcard operand keeps: an admissible type,
/// and a matching name when the operand was a regex.
pub open spec fn call_keeps(lowname: Seq<char>, re: Option<Seq<char>>) -> spec_fn(VarRef) -> bool {
    match re {
        Option::Some(p) => |v: VarRef|
            spec_supported_type(lowname, v.data_type) && regex_match(p, v.name@),
        Option::None => |v: VarRef| spec_supported_type(lowname, v.data_type),
    }
}

/// The projection in a form the expander accepts: any regex it must compile
/// is valid, a call's innermost first operand is no tag wildcard, and a
/// binary expression holds no wildcard.
pub open spec fn field_expand_ok(e: Expr) -> bool {
    match e {
        Expr::Literal(Literal::Regex(p)) => regex_valid(p@),
        Expr::Binary(_) => expr_wildcard_free(e),
        Expr::Call(c) => match spec_innermost(c).args {
            ExprList::Item(h, _) => match *h {
                Expr::Wildcard(Option::Some(WildcardType::Tag)) => false,
                Expr::Literal(Literal::Regex(p)) => regex_valid(p@),
                _ => true,
            },
            ExprList::Empty => true,
        },
        _ => true,
    }
}

/// How many projections one entry expands to.
pub open spec fn fl_segment_len(f: Field, entries: Seq<VarRef>) -> nat {
    match f.expr {
        Expr::Wildcard(wct) => kept_entries(entries, entries.len(), wildcard_keeps(wct)).len(),
        Expr::Literal(Literal::Regex(p)) => kept_entries(entries, entries.len(), regex_keeps(p@)).len(),
        Expr::Call(c) => match spec_innermost(c).args {
            ExprList::Item(h, _) => match *h {
                Expr::Wildcard(_) => kept_entries(
                    entries,
                    entries.len(),
                    call_keeps(spec_ascii_lower(spec_innermost(c).name@), Option::None),
                ).len(),
                Expr::Literal(Literal::Regex(p)) => kept_entries(
                    entries,
                    entries.len(),
                    call_keeps(spec_ascii_lower(spec_innermost(c).name@), Option::Some(p@)),
                ).len(),
                _ => 1,
            },
            ExprList::Empty => 1,
        },
        _ => 1,
    }
}

/// One emitted call projection: the innermost call with the entry put in the
/// operand position, under the derived alias.
pub open spec fn call_copy_ok(ic: Call, base_name: Seq<char>, v: VarRef, g: Field) -> bool {
    &&& g.expr matches Expr::Call(c2) && c2.name == ic.name && (c2.args matches ExprList::Item(
        h2,
        t2,
    ) && *h2 == Expr::VarRef(v) && (ic.args matches ExprList::Item(h0, t0) && *t2 == *t0))
    &&& g.alias matches Some(a) && a@ == base_name + "_"@ + v.name@
}

/// The expansion of one projection against the entries.
pub open spec fn fl_segment_ok(f: Field, entries: Seq<VarRef>, seg: Seq<Field>) -> bool {
    match f.expr {
        Expr::Wildcard(wct) => {
            let flt = kept_entries(entries, entries.len(), wildcard_keeps(wct));
            seg.len() == flt.len() && forall|i: int|
                0 <= i < seg.len() ==> #[trigger] seg[i] == Field {
                    expr: Expr::VarRef(flt[i]),
                    alias: Option::None,
                }
        },
        Expr::Literal(Literal::Regex(p)) => {
            let flt = kept_entries(entries, entries.len(), regex_keeps(p@));
            regex_valid(p@) && seg.len() == flt.len() && forall|i: int|
                0 <= i < seg.len() ==> #[trigger] seg[i] == Field {
                    expr: Expr::VarRef(flt[i]),
                    alias: Option::None,
                }
        },
        Expr::Call(c) => match spec_innermost(c).args {
            ExprList::Item(h, _) => match *h {
                Expr::Wildcard(w) => {
                    let flt = kept_entries(
                        entries,
                        entries.len(),
                        call_keeps(spec_ascii_lower(spec_innermost(c).name@), Option::None),
                    );
                    w != Option::Some(WildcardType::Tag) && seg.len() == flt.len() && forall|i: int|
                        0 <= i < seg.len() ==> call_copy_ok(
                            spec_innermost(c),
                            spec_field_name(f),
                            flt[i],
                            #[trigger] seg[i],
                        )
                },
                Expr::Literal(Literal::Regex(p)) => {
                    let flt = kept_entries(
                        entries,
                        entries.len(),
                        call_keeps(spec_ascii_lower(spec_innermost(c).name@), Option::Some(p@)),
                    );
                    regex_valid(p@) && seg.len() == flt.len() && forall|i: int|
                        0 <= i < seg.len() ==> call_copy_ok(
                            spec_innermost(c),
                            spec_field_name(f),
                            flt[i],
                            #[trigger] seg[i],
                        )
                },
                _ => seg.len() == 1 && seg[0] == f,
            },
            ExprList::Empty => seg.len() == 1 && seg[0] == f,
        },
        Expr::Binary(_) => expr_wildcard_free(f.expr) && seg.len() == 1 && seg[0] == f,
        _ => seg.len() == 1 && seg[0] == f,
    }
}

/// The whole expanded projection list: the concatenation of the projections'
/// expansions.
pub open spec fn fl_expanded(fields: Seq<Field>, entries: Seq<VarRef>, out: Seq<Field>) -> bool
    decreases fields.len(),
{
    if fields.len() == 0 {
        out.len() == 0
    } else {
        let sl = fl_segment_len(fields.last(), entries);
        &&& out.len() >= sl
        &&& fl_segment_ok(fields.last(), entries, out.skip(out.len() - sl))
        &&& fl_expanded(fields.drop_last(), entries, out.take(out.len() - sl))
    }
}

/// Expands wildcards, regexes and wildcarded calls in the projection list
/// against the sorted expansion entries, keeping everything else verbatim and
/// in order. It succeeds exactly when every projection is in an acceptable
/// form, and fails with the pinned message of the first offence otherwise.
#[verifier::loop_isolation(false)]
pub fn expand_field_list(fields: Vec<Field>, entries: &Vec<VarRef>) -> (r: Result<
    Vec<Field>,
    Error,
>)
    ensures
        r matches Ok(out) ==> fl_expanded(fields@, entries@, out@),
        r matches Ok(out) ==> ((forall|i: int|
            0 <= i < fields@.len() ==> spec_expandable(#[trigger] fields@[i].expr)) ==> (forall|
            k: int,
        |
            0 <= k < out@.len() ==> expr_wildcard_free(#[trigger] out@[k].expr))),
        r matches Ok(out) ==> (crate::rewriter::no_aliased_time(fields@)
            ==> crate::rewriter::no_aliased_time(out@)),
        (forall|i: int|
            0 <= i < fields@.len() ==> field_expand_ok(#[trigger] fields@[i].expr)) ==> r is Ok,
        r matches Err(e) ==> exists|i: int|
            0 <= i < fields@.len() && !field_expand_ok(#[trigger] fields@[i].expr) && (e
                is Planning),
        r matches Err(e) ==> {
            ||| exists|i: int|
                0 <= i < fields@.len() && ((#[trigger] fields@[i].expr) matches Expr::Call(c)
                    && (spec_innermost(c).args matches ExprList::Item(h, _) && *h == Expr::Wildcard(
                    Option::Some(WildcardType::Tag),
                )) && crate::messages::planning_with(
                    e,
                    crate::messages::msg_tag_wildcard(spec_innermost(c).name@),
                ))
            ||| exists|i: int|
                0 <= i < fields@.len() && ((#[trigger] fields@[i].expr) is Binary
                    && !expr_wildcard_free(fields@[i].expr) && crate::messages::planning_with(
                    e,
                    "unsupported expression: contains a wildcard or regular expression"@,
                ))
            ||| exists|i: int, p: Seq<char>|
                #![trigger fields@[i].expr, regex_valid(p)]
                0 <= i < fields@.len() && !regex_valid(p) && crate::messages::planning_with(
                    e,
                    crate::regex_support::msg_invalid_regex(p),
                ) && ((fields@[i].expr matches Expr::Literal(Literal::Regex(q)) && q@ == p) || (
                fields@[i].expr matches Expr::Call(c) && (
                spec_innermost(c).args matches ExprList::Item(h, _) && (
                *h matches Expr::Literal(Literal::Regex(q2)) && q2@ == p))))
        },
{
    let ghost orig = fields@;
    let total = fields.len();
    let mut src = fields;
    let mut out: Vec<Field> = Vec::new();
    let mut idx: usize = 0;
    while src.len() > 0
        invariant
            total == orig.len(),
            idx + src@.len() == orig.len(),
            src@ == orig.skip(idx as int),
            fl_expanded(orig.take(idx as int), entries@, out@),
            (forall|i: int| 0 <= i < orig.len() ==> spec_expandable(#[trigger] orig[i].expr))
                ==> (forall|k: int|
                0 <= k < out@.len() ==> expr_wildcard_free(#[trigger] out@[k].expr)),
            crate::rewriter::no_aliased_time(orig) ==> crate::rewriter::no_aliased_time(out@),
        decreases src@.len(),
    {
        proof {
            assert(orig.skip(idx as int)[0] == orig[idx as int]);
            assert(orig.skip(idx as int).skip(1) =~= orig.skip(idx + 1));
        }
        let f = src.remove(0);
        let ghost fe = f.expr;
        let ghost out_entry = out@;
        match &f.expr {
            Expr::Wildcard(wct) => {
                let want_tag = matches!(wct, Option::Some(WildcardType::Tag));
                let want_field = matches!(wct, Option::Some(WildcardType::Field));
                let ghost crit = wildcard_keeps(*wct);
                let mut k: usize = 0;
                while k < entries.len()
                    invariant
                        k <= entries@.len(),
                        out@.take(out_entry.len() as int) == out_entry,
                        out@.len() >= out_entry.len(),
                        ({
                            let flt = kept_entries(entries@, k as nat, crit);
                            let seg = out@.skip(out_entry.len() as int);
                            seg.len() == flt.len() && forall|i: int|
                                0 <= i < seg.len() ==> #[trigger] seg[i] == Field {
                                    expr: Expr::VarRef(flt[i]),
                                    alias: Option::None,
                                }
                        }),
                        (forall|i: int|
                            0 <= i < orig.len() ==> spec_expandable(#[trigger] orig[i].expr))
                            ==> (forall|kk: int|
                            0 <= kk < out@.len() ==> expr_wildcard_free(
                                #[trigger] out@[kk].expr,
                            )),
                        crate::rewriter::no_aliased_time(orig)
                            ==> crate::rewriter::no_aliased_time(out@),
                    decreases entries@.len() - k,
                {
                    let v = &entries[k];
                    let keep = if want_tag {
                        match v.data_type {
                            Option::Some(t) => t.is_tag_type(),
                            Option::None => false,
                        }
                    } else if want_field {
                        match v.data_type {
                            Option::Some(t) => t.is_field_type(),
                            Option::None => false,
                        }
                    } else {
                        true
                    };
                    proof {
                        assert(keep == crit(entries@[k as int]));
                    }
                    let ghost out_prev = out@;
                    if keep {
                        out.push(Field { expr: Expr::VarRef(v.clone()), alias: None });
                        proof {
                            assert(out@.take(out_entry.len() as int) =~= out_entry);
                            assert(out@.skip(out_entry.len() as int) =~= out_prev.skip(
                                out_entry.len() as int,
                            ).push(out@.last()));
                            assert(kept_entries(entries@, (k + 1) as nat, crit) =~= kept_entries(
                                entries@,
                                k as nat,
                                crit,
                            ).push(entries@[k as int]));
                        }
                    } else {
                        proof {
                            assert(kept_entries(entries@, (k + 1) as nat, crit) =~= kept_entries(
                                entries@,
                                k as nat,
                                crit,
                            ));
                        }
                    }
                    k = k + 1;
                }
            },
            Expr::Literal(Literal::Regex(pat)) => {
                let re = match compile_regex(pat.as_str()) {
                    Result::Ok(re) => re,
                    Result::Err(e) => {
                        proof {
                            assert(!field_expand_ok(orig[idx as int].expr));
                        }
                        return Err(e);
                    },
                };
                let ghost crit = regex_keeps(pat@);
                let mut k: usize = 0;
                while k < entries.len()
                    invariant
                        k <= entries@.len(),
                        out@.take(out_entry.len() as int) == out_entry,
                        out@.len() >= out_entry.len(),
                        ({
                            let flt = kept_entries(entries@, k as nat, crit);
                            let seg = out@.skip(out_entry.len() as int);
                            seg.len() == flt.len() && forall|i: int|
                                0 <= i < seg.len() ==> #[trigger] seg[i] == Field {
                                    expr: Expr::VarRef(flt[i]),
                                    alias: Option::None,
                                }
                        }),
                        (forall|i: int|
                            0 <= i < orig.len() ==> spec_expandable(#[trigger] orig[i].expr))
                            ==> (forall|kk: int|
                            0 <= kk < out@.len() ==> expr_wildcard_free(
                                #[trigger] out@[kk].expr,
                            )),
                        crate::rewriter::no_aliased_time(orig)
                            ==> crate::rewriter::no_aliased_time(out@),
                    decreases entries@.len() - k,
                {
                    let v = &entries[k];
                    let keep = re.is_match(v.name.as_str());
                    proof {
                        assert(keep == crit(entries@[k as int]));
                    }
                    let ghost out_prev = out@;
                    if keep {
                        out.push(Field { expr: Expr::VarRef(v.clone()), alias: None });
                        proof {
                            assert(out@.take(out_entry.len() as int) =~= out_entry);
                            assert(out@.skip(out_entry.len() as int) =~= out_prev.skip(
                                out_entry.len() as int,
                            ).push(out@.last()));
                            assert(kept_entries(entries@, (k + 1) as nat, crit) =~= kept_entries(
                                entries@,
                                k as nat,
                                crit,
                            ).push(entries@[k as int]));
                        }
                    } else {
                        proof {
                            assert(kept_entries(entries@, (k + 1) as nat, crit) =~= kept_entries(
                                entries@,
                                k as nat,
                                crit,
                            ));
                        }
                    }
                    k = k + 1;
                }
            },
            Expr::Call(c) => {
                let inner = innermost_call(c);
                let head_is_tag_wildcard = matches!(
                    inner.args.get(0),
                    Option::Some(Expr::Wildcard(Option::Some(WildcardType::Tag))),
                );
                if head_is_tag_wildcard {
                    proof {
                        assert(!field_expand_ok(orig[idx as int].expr));
                    }
                    return Err(crate::messages::err_tag_wildcard(inner.name.as_str()));
                }
                let head_is_wildcard = matches!(inner.args.get(0), Option::Some(Expr::Wildcard(_)));
                let head_regex: Option<&String> = match inner.args.get(0) {
                    Option::Some(Expr::Literal(Literal::Regex(p))) => Some(p),
                    _ => None,
                };
                if head_is_wildcard || head_regex.is_some() {
                    let lowname = ascii_lower(inner.name.as_str());
                    let re: Option<Pattern> = match head_regex {
                        Option::Some(p) => match compile_regex(p.as_str()) {
                            Result::Ok(re) => Some(re),
                            Result::Err(e) => {
                                proof {
                                    assert(!field_expand_ok(orig[idx as int].expr));
                                }
                                return Err(e);
                            },
                        },
                        Option::None => None,
                    };
                    let ghost crit = call_keeps(
                        spec_ascii_lower(inner.name@),
                        match head_regex {
                            Option::Some(p) => Option::Some(p@),
                            Option::None => Option::<Seq<char>>::None,
                        },
                    );
                    let base_name = field_name(&f);
                    let mut k: usize = 0;
                    while k < entries.len()
                        invariant
                            k <= entries@.len(),
                            out@.take(out_entry.len() as int) == out_entry,
                            out@.len() >= out_entry.len(),
                            base_name@ == spec_field_name(orig[idx as int]),
                            fe == orig[idx as int].expr,
                            fe matches Expr::Call(c0) && spec_innermost(c0) == *inner,
                            ({
                                let flt = kept_entries(entries@, k as nat, crit);
                                let seg = out@.skip(out_entry.len() as int);
                                seg.len() == flt.len() && forall|i: int|
                                    0 <= i < seg.len() ==> call_copy_ok(
                                        *inner,
                                        base_name@,
                                        flt[i],
                                        #[trigger] seg[i],
                                    )
                            }),
                            (forall|i: int|
                                0 <= i < orig.len() ==> spec_expandable(#[trigger] orig[i].expr))
                                ==> (forall|kk: int|
                                0 <= kk < out@.len() ==> expr_wildcard_free(
                                    #[trigger] out@[kk].expr,
                                )),
                            crate::rewriter::no_aliased_time(orig)
                                ==> crate::rewriter::no_aliased_time(out@),
                        decreases entries@.len() - k,
                    {
                        let v = &entries[k];
                        let type_ok = supported_type(lowname.as_str(), v.data_type);
                        let re_ok = match &re {
                            Option::Some(p) => p.is_match(v.name.as_str()),
                            Option::None => true,
                        };
                        proof {
                            assert((type_ok && re_ok) == crit(entries@[k as int]));
                        }
                        let ghost out_prev = out@;
                        if type_ok && re_ok {
                            let new_args = subst_head(&inner.args, Expr::VarRef(v.clone()));
                            let mut alias = base_name.clone();
                            alias.append("_");
                            alias.append(v.name.as_str());
                            let new_expr = Expr::Call(
                                Call { name: inner.name.clone(), args: new_args },
                            );
                            proof {
                                if forall|i: int|
                                    0 <= i < orig.len() ==> spec_expandable(
                                        #[trigger] orig[i].expr,
                                    ) {
                                    assert(spec_expandable(orig[idx as int].expr));
                                    let ic = spec_innermost(fe->Call_0);
                                    assert(ic == *inner);
                                    match ic.args {
                                        ExprList::Item(h0, t0) => {
                                            assert(ic.args.spec_get(0) == Some(*h0));
                                            assert((*h0 is Wildcard) || (
                                            *h0 matches Expr::Literal(l) && l is Regex));
                                            assert(args_wildcard_free(*t0));
                                            let nargs = new_expr->Call_0.args;
                                            match nargs {
                                                ExprList::Item(nh, nt) => {
                                                    assert(*nt == *t0);
                                                    assert(expr_wildcard_free(*nh));
                                                    assert(args_wildcard_free(nargs));
                                                },
                                                ExprList::Empty => {},
                                            }
                                            assert(expr_wildcard_free(new_expr));
                                        },
                                        ExprList::Empty => {
                                            assert(ic.args.spec_get(0) is None);
                                            assert(false);
                                        },
                                    }
                                }
                            }
                            out.push(Field { expr: new_expr, alias: Some(alias) });
                            proof {
                                assert(out@.take(out_entry.len() as int) =~= out_entry);
                                assert(out@.skip(out_entry.len() as int) =~= out_prev.skip(
                                    out_entry.len() as int,
                                ).push(out@.last()));
                                assert(kept_entries(entries@, (k + 1) as nat, crit)
                                    =~= kept_entries(entries@, k as nat, crit).push(
                                    entries@[k as int],
                                ));
                                assert(out@.last().alias->0@ =~= base_name@ + "_"@
                                    + entries@[k as int].name@);
                                assert(call_copy_ok(
                                    *inner,
                                    base_name@,
                                    entries@[k as int],
                                    out@.last(),
                                ));
                            }
                        } else {
                            proof {
                                assert(kept_entries(entries@, (k + 1) as nat, crit)
                                    =~= kept_entries(entries@, k as nat, crit));
                            }
                        }
                        k = k + 1;
                    }
                } else {
                    proof {
                        if forall|i: int|
                            0 <= i < orig.len() ==> spec_expandable(#[trigger] orig[i].expr) {
                            assert(spec_expandable(orig[idx as int].expr));
                            assert(expr_wildcard_free(f.expr));
                        }
                    }
                    out.push(f);
                }
            },
            Expr::Binary(_) => {
                if expr_has_wildcard(&f.expr) {
                    proof {
                        assert(!field_expand_ok(orig[idx as int].expr));
                    }
                    return Err(
                        crate::messages::planning_const(
                            "unsupported expression: contains a wildcard or regular expression",
                        ),
                    );
                }
                out.push(f);
            },
            _ => {
                proof {
                    if forall|i: int|
                        0 <= i < orig.len() ==> spec_expandable(#[trigger] orig[i].expr) {
                        assert(spec_expandable(orig[idx as int].expr));
                        assert(expr_wildcard_free(f.expr));
                    }
                }
                out.push(f);
            },
        }
        proof {
            let sl = fl_segment_len(orig[idx as int], entries@);
            assert(orig.take(idx + 1).last() == orig[idx as int]);
            assert(orig.take(idx + 1).drop_last() =~= orig.take(idx as int));
            assert(out@.len() == out_entry.len() + sl);
            assert(out@.take(out@.len() - sl) =~= out_entry);
            assert(fl_segment_ok(orig[idx as int], entries@, out@.skip(out@.len() - sl)));
            assert(fl_expanded(orig.take(idx + 1), entries@, out@));
            assert(idx < orig.len());
        }
        idx = idx + 1;
    }
    proof {
        assert(orig.take(orig.len() as int) =~= orig);
    }
    Ok(out)
}

/// Keeps the first occurrence of every name.
#[verifier::loop_isolation(false)]
fn dedup_names(names: &Vec<String>) -> (r: Vec<String>)
    ensures
        forall|n: Seq<char>|
            spec_names_contain(r@, 0, n) == spec_names_contain(names@, 0, n),
{
    let mut out: Vec<String> = Vec::new();
    let mut i: usize = 0;
    while i < names.len()
        invariant
            i <= names@.len(),
            forall|n: Seq<char>|
                spec_names_contain(out@, 0, n) == exists|k: int|
                    0 <= k < i && (#[trigger] names@[k])@ == n,
        decreases names@.len() - i,
    {
        let ghost out_before = out@;
        let mut j: usize = out.len();
        let mut seen = false;
        while j > 0
            invariant
                j <= out@.len(),
                seen == exists|k: int|
                    j <= k < out@.len() && (#[trigger] out@[k])@ == names@[i as int]@,
            decreases j,
        {
            j = j - 1;
            if str_eq(out[j].as_str(), names[i].as_str()) {
                seen = true;
            }
        }
        if !seen {
            out.push(names[i].clone());
        }
        proof {
            crate::field_mapper::lemma_names_contain_general(out_before, 0, names@[i as int]@);
            assert forall|n: Seq<char>|
                spec_names_contain(out@, 0, n) == exists|k: int|
                    0 <= k < i + 1 && (#[trigger] names@[k])@ == n by {
                if out@.len() > out_before.len() {
                    crate::field_mapper::lemma_names_contain_push(
                        out_before,
                        0,
                        out@.last(),
                        n,
                    );
                }
                crate::field_mapper::lemma_names_contain_general(out@, 0, n);
                crate::field_mapper::lemma_names_contain_general(out_before, 0, n);
            }
        }
        i = i + 1;
    }
    proof {
        assert forall|n: Seq<char>|
            spec_names_contain(out@, 0, n) == spec_names_contain(names@, 0, n) by {
            crate::field_mapper::lemma_names_contain_general(names@, 0, n);
        }
    }
    out
}

/// Every entry carries a type, and it is the one the maps give its name: the
/// merged field type, or the tag type for a remaining tag name.
pub open spec fn entry_sound(fs: TypeMap, ts: TagSet, has_group_by_wildcard: bool, v: VarRef) -> bool {
    ||| (v.data_type is Some && fs.spec_get(v.name@) == v.data_type)
    ||| (!has_group_by_wildcard && v.data_type == Option::Some(VarRefDataType::Tag)
        && ts.spec_contains(v.name@))
}

/// The sorted expansion entries: the merged field names with their types,
/// then, unless the `GROUP BY` itself is being expanded, the remaining tags;
/// nothing at all when no fields were found. Every merged field name appears
/// with its merged type, and nothing else appears.
#[verifier::loop_isolation(false)]
pub fn build_entries(fs: &TypeMap, ts: &TagSet, has_group_by_wildcard: bool) -> (r: Vec<VarRef>)
    ensures
        vr_sorted(r@),
        forall|k: int| 0 <= k < r@.len() ==> entry_sound(*fs, *ts, has_group_by_wildcard, #[trigger] r@[k]),
        fs.entries@.len() == 0 ==> r@.len() == 0,
        forall|n: Seq<char>|
            (#[trigger] fs.spec_get(n)) is Some ==> exists|k: int|
                0 <= k < r@.len() && (#[trigger] r@[k]).name@ == n && r@[k].data_type
                    == fs.spec_get(n),
{
    broadcast use vstd::seq_lib::group_to_multiset_ensures;

    if fs.entries.len() == 0 {
        let empty: Vec<VarRef> = Vec::new();
        proof {
            assert forall|n: Seq<char>| !((#[trigger] fs.spec_get(n)) is Some) by {
                crate::field_mapper::lemma_tm_min_present(fs.entries@, 0, n);
            }
        }
        return empty;
    }
    let mut field_names: Vec<String> = Vec::new();
    let mut i: usize = 0;
    while i < fs.entries.len()
        invariant
            i <= fs.entries@.len(),
            field_names@.len() == i,
            forall|j: int|
                0 <= j < i ==> (#[trigger] field_names@[j])@ == fs.entries@[j].name@,
        decreases fs.entries@.len() - i,
    {
        field_names.push(fs.entries[i].name.clone());
        i = i + 1;
    }
    let deduped = dedup_names(&field_names);
    let mut list: Vec<VarRef> = Vec::new();
    let mut i: usize = 0;
    while i < deduped.len()
        invariant
            i <= deduped@.len(),
            list@.len() == i,
            forall|k: int|
                0 <= k < i ==> ((#[trigger] list@[k]).name@ == deduped@[k]@ && list@[k].data_type
                    == fs.spec_get(deduped@[k]@)),
        decreases deduped@.len() - i,
    {
        let dt = fs.get(deduped[i].as_str());
        list.push(VarRef { name: deduped[i].clone(), data_type: dt });
        i = i + 1;
    }
    proof {
        // every entry so far is a merged field; its type is there since its
        // name came from some map entry
        assert forall|k: int|
            0 <= k < list@.len() implies entry_sound(
            *fs,
            *ts,
            has_group_by_wildcard,
            #[trigger] list@[k],
        ) by {
            crate::field_mapper::lemma_names_contain_general(deduped@, 0, deduped@[k]@);
            crate::field_mapper::lemma_names_contain_general(field_names@, 0, deduped@[k]@);
            let w = choose|w: int|
                0 <= w < field_names@.len() && (#[trigger] field_names@[w])@ == deduped@[k]@;
            assert(fs.entries@[w].name@ == deduped@[k]@);
            crate::field_mapper::lemma_tm_min_present(fs.entries@, 0, deduped@[k]@);
        }
    }
    let ghost field_part = list@;
    if !has_group_by_wildcard {
        let tag_names = dedup_names(&ts.entries);
        let mut k: usize = 0;
        while k < tag_names.len()
            invariant
                k <= tag_names@.len(),
                list@.len() == field_part.len() + k,
                list@.take(field_part.len() as int) == field_part,
                forall|m: int|
                    field_part.len() <= m < list@.len() ==> ((#[trigger] list@[m]).name@
                        == tag_names@[m - field_part.len()]@ && list@[m].data_type == Option::Some(
                        VarRefDataType::Tag,
                    )),
            decreases tag_names@.len() - k,
        {
            let ghost list_prev = list@;
            list.push(
                VarRef { name: tag_names[k].clone(), data_type: Some(VarRefDataType::Tag) },
            );
            proof {
                assert(list@.take(field_part.len() as int) =~= field_part);
            }
            k = k + 1;
        }
        proof {
            assert forall|m: int|
                0 <= m < list@.len() implies entry_sound(
                *fs,
                *ts,
                has_group_by_wildcard,
                #[trigger] list@[m],
            ) by {
                if m < field_part.len() {
                    assert(list@[m] == field_part[m]);
                } else {
                    crate::field_mapper::lemma_names_contain_general(
                        tag_names@,
                        0,
                        tag_names@[m - field_part.len()]@,
                    );
                    crate::field_mapper::lemma_names_contain_general(
                        ts.entries@,
                        0,
                        tag_names@[m - field_part.len()]@,
                    );
                }
            }
        }
    }
    let ghost pre_sort = list@;
    let sorted = sort_var_refs(list);
    proof {
        // sorting moves entries, never makes or loses one
        assert forall|k: int|
            0 <= k < sorted@.len() implies entry_sound(
            *fs,
            *ts,
            has_group_by_wildcard,
            #[trigger] sorted@[k],
        ) by {
            assert(sorted@.to_multiset().contains(sorted@[k]));
            assert(pre_sort.to_multiset().contains(sorted@[k]));
            assert(pre_sort.contains(sorted@[k]));
            let w = choose|w: int| 0 <= w < pre_sort.len() && pre_sort[w] == sorted@[k];
        }
        assert forall|n: Seq<char>|
            (#[trigger] fs.spec_get(n)) is Some implies exists|k: int|
            0 <= k < sorted@.len() && (#[trigger] sorted@[k]).name@ == n && sorted@[k].data_type
                == fs.spec_get(n) by {
            crate::field_mapper::lemma_tm_min_present(fs.entries@, 0, n);
            let w = choose|w: int|
                0 <= w < fs.entries@.len() && (#[trigger] fs.entries@[w]).name@ == n;
            assert(field_names@[w]@ == n);
            crate::field_mapper::lemma_names_contain_general(field_names@, 0, n);
            crate::field_mapper::lemma_names_contain_general(deduped@, 0, n);
            let d = choose|d: int| 0 <= d < deduped@.len() && (#[trigger] deduped@[d])@ == n;
            assert(field_part[d].name@ == n && field_part[d].data_type == fs.spec_get(n));
            assert(pre_sort.take(field_part.len() as int) =~= field_part);
            assert(pre_sort[d] == field_part[d]);
            assert(pre_sort.contains(pre_sort[d]));
            assert(pre_sort.to_multiset().contains(pre_sort[d]));
            assert(sorted@.to_multiset().contains(pre_sort[d]));
            assert(sorted@.contains(pre_sort[d]));
            let k = choose|k: int| 0 <= k < sorted@.len() && sorted@[k] == pre_sort[d];
            assert(sorted@[k].name@ == n && sorted@[k].data_type == fs.spec_get(n));
        }
    }
    sorted
}

/// Sorted distinct tag names.
#[verifier::loop_isolation(false)]
pub fn sorted_tag_names(ts: &TagSet) -> (r: Vec<String>)
    ensures
        forall|i: int, j: int|
            #![trigger r@[i], r@[j]]
            0 <= i && i < j && j < r@.len() ==> (lex_lt(r@[i]@, r@[j]@) || r@[i]@ == r@[j]@),
{
    let deduped = dedup_names(&ts.entries);
    let mut as_refs: Vec<VarRef> = Vec::new();
    let mut i: usize = 0;
    while i < deduped.len()
        invariant
            i <= deduped@.len(),
        decreases deduped@.len() - i,
    {
        as_refs.push(VarRef { name: deduped[i].clone(), data_type: None });
        i = i + 1;
    }
    let sorted = sort_var_refs(as_refs);
    let mut out: Vec<String> = Vec::new();
    let mut i: usize = 0;
    while i < sorted.len()
        invariant
            i <= sorted@.len(),
            out@.len() == i,
            forall|k: int| 0 <= k < i ==> (#[trigger] out@[k])@ == sorted@[k].name@,
        decreases sorted@.len() - i,
    {
        out.push(sorted[i].name.clone());
        i = i + 1;
    }
    out
}

/// The names among the first `j` that a pattern matches, in order.
pub open spec fn matching_names(tags: Seq<String>, j: nat, p: Seq<char>) -> Seq<Seq<char>>
    decreases j,
{
    if j == 0 {
        Seq::empty()
    } else {
        matching_names(tags, (j - 1) as nat, p) + (if regex_match(p, tags[j - 1]@) {
            seq![tags[j - 1]@]
        } else {
            Seq::empty()
        })
    }
}

/// A run of tag dimensions carrying exactly these names.
pub open spec fn tag_run(seg: Seq<Dimension>, names: Seq<Seq<char>>) -> bool {
    seg.len() == names.len() && forall|i: int|
        0 <= i < seg.len() ==> ((#[trigger] seg[i]) matches Dimension::Tag(t) && t@ == names[i])
}

/// How many dimensions one `GROUP BY` entry expands to.
pub open spec fn gb_segment_len(d: Dimension, tags: Seq<String>) -> nat {
    match d {
        Dimension::Wildcard => tags.len(),
        Dimension::Regex(p) => matching_names(tags, tags.len(), p@).len(),
        _ => 1,
    }
}

/// The expansion of one `GROUP BY` entry: a wildcard becomes every tag, a
/// regex the matching tags, and anything else passes through.
pub open spec fn gb_segment_ok(d: Dimension, tags: Seq<String>, seg: Seq<Dimension>) -> bool {
    match d {
        Dimension::Wildcard => tag_run(seg, matching_all(tags)),
        Dimension::Regex(p) => regex_valid(p@) && tag_run(
            seg,
            matching_names(tags, tags.len(), p@),
        ),
        _ => seg.len() == 1 && seg[0] == d,
    }
}

/// The views of all the names, in order.
pub open spec fn matching_all(tags: Seq<String>) -> Seq<Seq<char>> {
    crate::ast::names_view(tags)
}

/// The whole expanded `GROUP BY`: the concatenation of the entries'
/// expansions.
pub open spec fn gb_expanded(dims: Seq<Dimension>, tags: Seq<String>, out: Seq<Dimension>) -> bool
    decreases dims.len(),
{
    if dims.len() == 0 {
        out.len() == 0
    } else {
        let sl = gb_segment_len(dims.last(), tags);
        &&& out.len() >= sl
        &&& gb_segment_ok(dims.last(), tags, out.skip(out.len() - sl))
        &&& gb_expanded(dims.drop_last(), tags, out.take(out.len() - sl))
    }
}

/// Expands wildcards and regexes among the `GROUP BY` dimensions against the
/// sorted tag names: a wildcard emits every tag in order, a regex the
/// matching tags, and everything else passes through. It fails exactly on an
/// invalid regex, with that regex named.
#[verifier::loop_isolation(false)]
pub fn expand_group_by(dims: &Vec<Dimension>, tags: &Vec<String>) -> (r: Result<
    Vec<Dimension>,
    Error,
>)
    ensures
        r matches Ok(out) ==> gb_expanded(dims@, tags@, out@),
        r matches Ok(out) ==> forall|k: int|
            0 <= k < out@.len() ==> !((#[trigger] out@[k]) is Wildcard) && !(out@[k] is Regex),
        (forall|i: int|
            0 <= i < dims@.len() ==> ((#[trigger] dims@[i]) matches Dimension::Regex(p)
                ==> regex_valid(p@))) ==> r is Ok,
        r matches Err(e) ==> exists|i: int, p: String|
            0 <= i < dims@.len() && dims@[i] == Dimension::Regex(p) && !regex_valid(p@)
                && crate::messages::planning_with(
                e,
                crate::regex_support::msg_invalid_regex(p@),
            ),
{
    let mut out: Vec<Dimension> = Vec::new();
    let mut i: usize = 0;
    while i < dims.len()
        invariant
            i <= dims@.len(),
            gb_expanded(dims@.take(i as int), tags@, out@),
            forall|k: int|
                0 <= k < out@.len() ==> !((#[trigger] out@[k]) is Wildcard) && !(out@[k] is Regex),
        decreases dims@.len() - i,
    {
        let ghost out_entry = out@;
        match &dims[i] {
            Dimension::Wildcard => {
                let mut k: usize = 0;
                while k < tags.len()
                    invariant
                        k <= tags@.len(),
                        out@.len() == out_entry.len() + k,
                        out@.take(out_entry.len() as int) == out_entry,
                        tag_run(
                            out@.skip(out_entry.len() as int),
                            matching_all(tags@).take(k as int),
                        ),
                        forall|m: int|
                            0 <= m < out@.len() ==> !((#[trigger] out@[m]) is Wildcard) && !(
                            out@[m] is Regex),
                    decreases tags@.len() - k,
                {
                    let ghost out_prev = out@;
                    out.push(Dimension::Tag(tags[k].clone()));
                    proof {
                        assert(out@.take(out_entry.len() as int) =~= out_entry);
                        assert(out@.skip(out_entry.len() as int) =~= out_prev.skip(
                            out_entry.len() as int,
                        ).push(out@.last()));
                        assert(matching_all(tags@).take(k + 1) =~= matching_all(tags@).take(
                            k as int,
                        ).push(tags@[k as int]@));
                    }
                    k = k + 1;
                }
                proof {
                    assert(matching_all(tags@).take(tags@.len() as int) =~= matching_all(tags@));
                }
            },
            Dimension::Regex(pat) => {
                let re = match compile_regex(pat.as_str()) {
                    Result::Ok(re) => re,
                    Result::Err(e) => {
                        proof {
                            assert(dims@[i as int] == Dimension::Regex(*pat));
                        }
                        return Err(e);
                    },
                };
                let mut k: usize = 0;
                while k < tags.len()
                    invariant
                        k <= tags@.len(),
                        out@.take(out_entry.len() as int) == out_entry,
                        out@.len() >= out_entry.len(),
                        tag_run(
                            out@.skip(out_entry.len() as int),
                            matching_names(tags@, k as nat, pat@),
                        ),
                        forall|m: int|
                            0 <= m < out@.len() ==> !((#[trigger] out@[m]) is Wildcard) && !(
                            out@[m] is Regex),
                    decreases tags@.len() - k,
                {
                    let ghost out_prev = out@;
                    if re.is_match(tags[k].as_str()) {
                        out.push(Dimension::Tag(tags[k].clone()));
                        proof {
                            assert(out@.take(out_entry.len() as int) =~= out_entry);
                            assert(out@.skip(out_entry.len() as int) =~= out_prev.skip(
                                out_entry.len() as int,
                            ).push(out@.last()));
                            assert(matching_names(tags@, (k + 1) as nat, pat@) =~= matching_names(
                                tags@,
                                k as nat,
                                pat@,
                            ).push(tags@[k as int]@));
                        }
                    } else {
                        proof {
                            assert(matching_names(tags@, (k + 1) as nat, pat@) =~= matching_names(
                                tags@,
                                k as nat,
                                pat@,
                            ));
                        }
                    }
                    k = k + 1;
                }
            },
            other => {
                out.push(other.clone());
            },
        }
        proof {
            let d = dims@[i as int];
            let sl = gb_segment_len(d, tags@);
            assert(dims@.take(i + 1).last() == d);
            assert(dims@.take(i + 1).drop_last() =~= dims@.take(i as int));
            assert(out@.len() == out_entry.len() + sl);
            assert(out@.take(out@.len() - sl) =~= out_entry);
            assert(gb_segment_ok(d, tags@, out@.skip(out@.len() - sl)));
            assert(gb_expanded(dims@.take(i + 1), tags@, out@));
        }
        i = i + 1;
    }
    proof {
        assert(dims@.take(dims@.len() as int) =~= dims@);
    }
    Ok(out)
}


/// The innermost call's first operand is never itself a call.
proof fn lemma_innermost_no_call(c: Call)
    ensures
        spec_innermost(c).args matches ExprList::Item(h, _) ==> !(*h is Call),
    decreases c,
{
    match c.args {
        ExprList::Item(h, _) => {
            match *h {
                Expr::Call(inner) => {
                    lemma_innermost_no_call(inner);
                },
                _ => {},
            }
        },
        ExprList::Empty => {},
    }
}

/// Where the distinct rewrite maps a call, the innermost first operand stays
/// acceptable: wildcards and regexes map to themselves, and a rewritten
/// `DISTINCT` operand turns into a call whose own operand is a column.
proof fn lemma_rewritten_innermost(c: Call, c2: Call)
    requires
        args_distinct_rewritten(c.args, c2.args),
    ensures
        ({
            let ic = spec_innermost(c);
            let ic2 = spec_innermost(c2);
            match ic.args {
                ExprList::Item(h, _) => match *h {
                    Expr::Wildcard(w) => ic2.args matches ExprList::Item(h2, _) && *h2
                        == Expr::Wildcard(w),
                    Expr::Literal(l) => ic2.args matches ExprList::Item(h2, _) && *h2
                        == Expr::Literal(l),
                    Expr::Call(_) => true,
                    _ => (match ic2.args {
                        ExprList::Item(h2, _) => !(*h2 is Wildcard) && !(
                        *h2 matches Expr::Literal(l2) && l2 is Regex),
                        ExprList::Empty => true,
                    }),
                },
                ExprList::Empty => ic2.args is Empty,
            }
        }),
    decreases c,
{
    match c.args {
        ExprList::Item(h, t) => {
            match c2.args {
                ExprList::Item(h2, t2) => {
                    assert(distinct_rewritten(*h, *h2));
                    match *h {
                        Expr::Call(inner) => {
                            match *h2 {
                                Expr::Call(inner2) => {
                                    assert(args_distinct_rewritten(inner.args, inner2.args));
                                    lemma_rewritten_innermost(inner, inner2);
                                    assert(spec_innermost(c) == spec_innermost(inner));
                                    assert(spec_innermost(c2) == spec_innermost(inner2));
                                },
                                _ => {},
                            }
                        },
                        Expr::Distinct(_) => {
                            // the rewritten operand is a distinct call over a column
                            assert(spec_innermost(c) == c);
                            match *h2 {
                                Expr::Call(dc) => {
                                    assert(dc.args matches ExprList::Item(dh, dt) && (
                                    *dh is VarRef) && (*dt is Empty));
                                    assert(spec_innermost(c2) == spec_innermost(dc));
                                    assert(spec_innermost(dc) == dc);
                                },
                                _ => {},
                            }
                        },
                        _ => {
                            assert(spec_innermost(c) == c);
                            assert(!(*h2 is Call));
                            assert(spec_innermost(c2) == c2);
                        },
                    }
                },
                ExprList::Empty => {},
            }
        },
        ExprList::Empty => {},
    }
}

/// The distinct rewrite keeps a projection acceptable to the expander.
pub proof fn lemma_rewritten_expand_ok(a: Expr, b: Expr)
    requires
        distinct_rewritten(a, b),
        field_expand_ok(a),
    ensures
        field_expand_ok(b),
{
    match a {
        Expr::Binary(_) => {
            lemma_rewritten_free(a, b);
        },
        Expr::Call(c) => {
            match b {
                Expr::Call(c2) => {
                    lemma_innermost_no_call(c);
                    lemma_rewritten_innermost(c, c2);
                },
                _ => {},
            }
        },
        _ => {},
    }
}

/// The distinct rewrite keeps an expression free of wildcards.
#[verifier::rlimit(50)]
pub proof fn lemma_rewritten_free(a: Expr, b: Expr)
    requires
        distinct_rewritten(a, b),
        expr_wildcard_free(a),
    ensures
        expr_wildcard_free(b),
    decreases a,
{
    match a {
        Expr::Call(c) => {
            match b {
                Expr::Call(c2) => {
                    lemma_args_rewritten_free(c.args, c2.args);
                    assert(expr_wildcard_free(b));
                },
                _ => {},
            }
        },
        Expr::Binary(x) => {
            match b {
                Expr::Binary(y) => {
                    lemma_rewritten_free(*x.lhs, *y.lhs);
                    lemma_rewritten_free(*x.rhs, *y.rhs);
                    assert(expr_wildcard_free(b));
                },
                _ => {},
            }
        },
        Expr::Nested(inner) => {
            match b {
                Expr::Nested(inner2) => {
                    lemma_rewritten_free(*inner, *inner2);
                    assert(expr_wildcard_free(b));
                },
                _ => {},
            }
        },
        Expr::Distinct(_) => {
            match b {
                Expr::Call(c2) => {
                    match c2.args {
                        ExprList::Item(h, t) => {
                            assert(expr_wildcard_free(*h));
                            assert(args_wildcard_free(*t));
                            assert(c2.args == ExprList::Item(h, t));
                            assert(args_wildcard_free(c2.args));
                        },
                        ExprList::Empty => {},
                    }
                    assert(expr_wildcard_free(b));
                },
                _ => {},
            }
        },
        Expr::VarRef(_) => {
            assert(b == a);
        },
        Expr::Literal(_) => {
            assert(b == a);
        },
        Expr::Wildcard(_) => {
            assert(false);
        },
        Expr::BindParameter(_) => {
            assert(b == a);
        },
    }
}

proof fn lemma_args_rewritten_free(a: ExprList, b: ExprList)
    requires
        args_distinct_rewritten(a, b),
        args_wildcard_free(a),
    ensures
        args_wildcard_free(b),
    decreases a,
{
    match a {
        ExprList::Empty => {},
        ExprList::Item(h, t) => {
            match b {
                ExprList::Item(h2, t2) => {
                    lemma_rewritten_free(*h, *h2);
                    lemma_args_rewritten_free(*t, *t2);
                },
                _ => {},
            }
        },
    }
}

/// Where the annotation maps a call, the innermost first operand keeps its
/// shape: only column references change, and only in their type note.
proof fn lemma_annotated_innermost(s: Schemas, from: Vec<DataSource>, c: Call, c2: Call)
    requires
        args_annotated(s, from, c.args, c2.args),
    ensures
        ({
            let ic = spec_innermost(c);
            let ic2 = spec_innermost(c2);
            match ic.args {
                ExprList::Item(h, _) => match *h {
                    Expr::Wildcard(w) => ic2.args matches ExprList::Item(h2, _) && *h2
                        == Expr::Wildcard(w),
                    Expr::Literal(l) => ic2.args matches ExprList::Item(h2, _) && *h2
                        == Expr::Literal(l),
                    Expr::Call(_) => true,
                    _ => (match ic2.args {
                        ExprList::Item(h2, _) => !(*h2 is Wildcard) && !(
                        *h2 matches Expr::Literal(l2) && l2 is Regex),
                        ExprList::Empty => true,
                    }),
                },
                ExprList::Empty => ic2.args is Empty,
            }
        }),
    decreases c,
{
    match c.args {
        ExprList::Item(h, t) => {
            match c2.args {
                ExprList::Item(h2, t2) => {
                    assert(annotated(s, from, *h, *h2));
                    match *h {
                        Expr::Call(inner) => {
                            match *h2 {
                                Expr::Call(inner2) => {
                                    assert(args_annotated(s, from, inner.args, inner2.args));
                                    lemma_annotated_innermost(s, from, inner, inner2);
                                    assert(spec_innermost(c) == spec_innermost(inner));
                                    assert(spec_innermost(c2) == spec_innermost(inner2));
                                },
                                _ => {},
                            }
                        },
                        _ => {
                            assert(spec_innermost(c) == c);
                            assert(!(*h2 is Call));
                            assert(spec_innermost(c2) == c2);
                        },
                    }
                },
                ExprList::Empty => {},
            }
        },
        ExprList::Empty => {},
    }
}

/// The annotation keeps a projection acceptable to the expander.
pub proof fn lemma_annotated_expand_ok(s: Schemas, from: Vec<DataSource>, a: Expr, b: Expr)
    requires
        annotated(s, from, a, b),
        field_expand_ok(a),
    ensures
        field_expand_ok(b),
{
    match a {
        Expr::Binary(_) => {
            lemma_annotated_free(s, from, a, b);
        },
        Expr::Call(c) => {
            match b {
                Expr::Call(c2) => {
                    lemma_innermost_no_call(c);
                    lemma_annotated_innermost(s, from, c, c2);
                },
                _ => {},
            }
        },
        _ => {},
    }
}

/// The annotation keeps an expression free of wildcards.
pub proof fn lemma_annotated_free(s: Schemas, from: Vec<DataSource>, a: Expr, b: Expr)
    requires
        annotated(s, from, a, b),
        expr_wildcard_free(a),
    ensures
        expr_wildcard_free(b),
    decreases a,
{
    match a {
        Expr::Call(c) => {
            match b {
                Expr::Call(c2) => {
                    lemma_args_annotated_free(s, from, c.args, c2.args);
                },
                _ => {},
            }
        },
        Expr::Binary(x) => {
            match b {
                Expr::Binary(y) => {
                    lemma_annotated_free(s, from, *x.lhs, *y.lhs);
                    lemma_annotated_free(s, from, *x.rhs, *y.rhs);
                },
                _ => {},
            }
        },
        Expr::Nested(inner) => {
            match b {
                Expr::Nested(inner2) => {
                    lemma_annotated_free(s, from, *inner, *inner2);
                },
                _ => {},
            }
        },
        _ => {},
    }
}

proof fn lemma_args_annotated_free(s: Schemas, from: Vec<DataSource>, a: ExprList, b: ExprList)
    requires
        args_annotated(s, from, a, b),
        args_wildcard_free(a),
    ensures
        args_wildcard_free(b),
    decreases a,
{
    match a {
        ExprList::Empty => {},
        ExprList::Item(h, t) => {
            match b {
                ExprList::Item(h2, t2) => {
                    lemma_annotated_free(s, from, *h, *h2);
                    lemma_args_annotated_free(s, from, *t, *t2);
                },
                _ => {},
            }
        },
    }
}

} // verus!
