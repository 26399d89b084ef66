use vstd::prelude::*;

use crate::ast::{
    field_name, spec_field_name, Expr, Field, SelectStatement, VarRef, VarRefDataType,
};
use crate::error::Error;
use crate::field_mapper::{
    lemma_names_contain_general, lemma_names_contain_push, spec_names_contain,
};
use crate::ir::{
    ds_contributes, lemma_prefix_step, lemma_subquery_contributes, lemma_tables_of_contains,
    prefix_contributes, tables_of, DataSource, Select, SelectQuery,
};
use crate::expand::{
    annotate_expr, annotated, build_entries, distinct_rewritten, expand_field_list,
    expand_group_by, expr_wildcard_free, field_expand_ok, from_field_and_dimensions,
    has_wildcards, lemma_annotated_expand_ok, lemma_annotated_free, lemma_rewritten_expand_ok,
    lemma_rewritten_free, rewrite_distinct, sorted_tag_names,
};
use crate::ast::{Dimension, ExprList, MeasurementSelection};
use crate::schema::Schemas;
use crate::text::{spec_udec, str_eq, str_eq_string};

verus! {

broadcast use vstd::std_specs::vec::axiom_vec_index_decreases;

/// Rejects the series limit and offset, which this planner does not support.
pub fn check_features(stmt: &SelectStatement) -> (r: Result<(), Error>)
    ensures
        match r {
            Result::Ok(_) => stmt.series_limit is None && stmt.series_offset is None,
            Result::Err(e) => (stmt.series_limit is Some || stmt.series_offset is Some) && (
            e matches Error::NotImplemented(m) && m@ == "SLIMIT or SOFFSET"@),
        },
{
    if stmt.series_limit.is_some() || stmt.series_offset.is_some() {
        let mut m = String::new();
        m.append("SLIMIT or SOFFSET");
        return Err(Error::NotImplemented(m));
    }
    Ok(())
}

/// No two strings of the list are the same.
pub open spec fn names_distinct(names: Seq<String>) -> bool {
    forall|a: int, b: int|
        #![trigger names[a], names[b]]
        0 <= a < b < names.len() ==> names[a]@ != names[b]@
}

/// Whether a string list holds the name.
#[verifier::loop_isolation(false)]
fn contains_name(names: &Vec<String>, name: &str) -> (r: bool)
    ensures
        r == spec_names_contain(names@, 0, name@),
{
    let mut i: usize = names.len();
    let mut found = false;
    while i > 0
        invariant
            i <= names@.len(),
            found == spec_names_contain(names@, i as nat, name@),
        decreases i,
    {
        i = i - 1;
        if str_eq(names[i].as_str(), name) {
            found = true;
        }
    }
    found
}

/// Collects the distinct table names transitively reachable through a source
/// list into the accumulator.
#[verifier::loop_isolation(false)]
fn collect_tables(from: &Vec<DataSource>, acc: &mut Vec<String>)
    requires
        names_distinct(old(acc)@),
    ensures
        names_distinct(final(acc)@),
        forall|n: Seq<char>|
            spec_names_contain(final(acc)@, 0, n) == (spec_names_contain(old(acc)@, 0, n)
                || prefix_contributes(from@, from@.len() as int, n)),
    decreases from, 0int,
{
    let mut i: usize = 0;
    while i < from.len()
        invariant
            i <= from@.len(),
            names_distinct(acc@),
            forall|n: Seq<char>|
                #![trigger spec_names_contain(acc@, 0, n)]
                spec_names_contain(acc@, 0, n) == (spec_names_contain(old(acc)@, 0, n)
                    || prefix_contributes(from@, i as int, n)),
        decreases from@.len() - i,
    {
        let ghost acc_at_entry = acc@;
        match &from[i] {
            DataSource::Table(t) => {
                let present = contains_name(acc, t.as_str());
                if !present {
                    let ghost before = acc@;
                    let cloned = t.clone();
                    acc.push(cloned);
                    proof {
                        assert forall|n: Seq<char>|
                            spec_names_contain(acc@, 0, n) == (spec_names_contain(before, 0, n)
                                || t@ == n) by {
                            lemma_names_contain_push(before, 0, acc@.last(), n);
                        }
                        lemma_names_contain_general(before, 0, t@);
                        assert forall|a: int, b: int|
                            #![trigger acc@[a], acc@[b]]
                            0 <= a < b < acc@.len() implies acc@[a]@ != acc@[b]@ by {
                            if b == acc@.len() - 1 {
                                assert(acc@[a] == before[a]);
                            }
                        }
                    }
                }
                proof {
                    assert forall|n: Seq<char>|
                        spec_names_contain(acc@, 0, n) == (spec_names_contain(old(acc)@, 0, n)
                            || prefix_contributes(from@, i + 1, n)) by {
                        lemma_prefix_step(from@, i as int, n);
                        assert(ds_contributes(from@[i as int], n) == (t@ == n));
                        assert(spec_names_contain(acc_at_entry, 0, n) == (spec_names_contain(
                            old(acc)@,
                            0,
                            n,
                        ) || prefix_contributes(from@, i as int, n)));
                        if present && t@ == n {
                            assert(spec_names_contain(acc_at_entry, 0, n));
                        }
                    }
                }
            },
            DataSource::Subquery(q) => {
                collect_tables(&q.from, acc);
                proof {
                    assert forall|n: Seq<char>|
                        spec_names_contain(acc@, 0, n) == (spec_names_contain(old(acc)@, 0, n)
                            || prefix_contributes(from@, i + 1, n)) by {
                        lemma_prefix_step(from@, i as int, n);
                        lemma_subquery_contributes(from@[i as int], n);
                        assert(spec_names_contain(acc@, 0, n) == (spec_names_contain(
                            acc_at_entry,
                            0,
                            n,
                        ) || prefix_contributes(q.from@, q.from@.len() as int, n)));
                        assert(spec_names_contain(acc_at_entry, 0, n) == (spec_names_contain(
                            old(acc)@,
                            0,
                            n,
                        ) || prefix_contributes(from@, i as int, n)));
                    }
                }
            },
        }
        i = i + 1;
    }
    proof {
        assert(i as int == from@.len() as int);
        assert forall|n: Seq<char>|
            spec_names_contain(acc@, 0, n) == (spec_names_contain(old(acc)@, 0, n)
                || prefix_contributes(from@, from@.len() as int, n)) by {
            assert(spec_names_contain(acc@, 0, n) == (spec_names_contain(old(acc)@, 0, n)
                || prefix_contributes(from@, i as int, n)));
        }
    }
}

/// Whether the statement draws on at least two distinct measurements,
/// descending through subqueries.
pub fn has_multiple_measurements(s: &Select) -> (r: bool)
    ensures
        r == exists|a: Seq<char>, b: Seq<char>|
            a != b && #[trigger] tables_of(s.from@).contains(a) && #[trigger] tables_of(
                s.from@,
            ).contains(b),
{
    let mut names: Vec<String> = Vec::new();
    collect_tables(&s.from, &mut names);
    proof {
        assert forall|n: Seq<char>|
            spec_names_contain(names@, 0, n) == tables_of(s.from@).contains(n) by {
            lemma_tables_of_contains(s.from@, n);
        }
        if names@.len() >= 2 {
            lemma_names_contain_general(names@, 0, names@[0]@);
            lemma_names_contain_general(names@, 0, names@[1]@);
            assert(spec_names_contain(names@, 0, names@[0]@));
            assert(spec_names_contain(names@, 0, names@[1]@));
            assert(names@[0]@ != names@[1]@);
        } else {
            assert forall|a: Seq<char>, b: Seq<char>|
                a != b && #[trigger] tables_of(s.from@).contains(a) && #[trigger] tables_of(
                    s.from@,
                ).contains(b) implies false by {
                lemma_names_contain_general(names@, 0, a);
                lemma_names_contain_general(names@, 0, b);
                let ka = choose|k: int| 0 <= k < names@.len() && (#[trigger] names@[k]@) == a;
                let kb = choose|k: int| 0 <= k < names@.len() && (#[trigger] names@[k]@) == b;
                assert(ka == kb);
            }
        }
    }
    names.len() >= 2
}


/// The generated alias for a base name and a suffix number.
pub open spec fn spec_gen_alias(base: Seq<char>, k: nat) -> Seq<char> {
    base + "_"@ + spec_udec(k)
}

/// The generator is injective in the suffix.
proof fn lemma_gen_alias_injective(base: Seq<char>, j: nat, k: nat)
    requires
        spec_gen_alias(base, j) == spec_gen_alias(base, k),
    ensures
        j == k,
{
    reveal_strlit("_");
    let a = spec_gen_alias(base, j);
    crate::text::lemma_udec_len(j);
    crate::text::lemma_udec_len(k);
    assert(spec_udec(j) =~= a.skip(base.len() as int + 1));
    assert(spec_udec(k) =~= a.skip(base.len() as int + 1));
    crate::text::lemma_udec_injective(j, k);
}

/// Appending a projection to the output changes no earlier alias.
proof fn lemma_alias_taken_push(outs: Seq<Field>, pushed: Field, i: int, cand: Seq<char>)
    requires
        0 <= i <= outs.len(),
    ensures
        alias_taken(outs.push(pushed), i, cand) == alias_taken(outs, i, cand),
{
    let grown = outs.push(pushed);
    if alias_taken(grown, i, cand) {
        let w = choose|w: int| 0 <= w < i && ((#[trigger] grown[w]).alias->0)@ == cand;
        assert(outs[w] == grown[w]);
        assert(alias_taken(outs, i, cand));
    }
    if alias_taken(outs, i, cand) {
        let w = choose|w: int| 0 <= w < i && ((#[trigger] outs[w]).alias->0)@ == cand;
        assert(grown[w] == outs[w]);
        assert(alias_taken(grown, i, cand));
    }
}

/// With the base names written out, a candidate is a base name exactly when
/// the name list holds it.
proof fn lemma_base_taken_contains(olds: Seq<Field>, names: Seq<String>, cand: Seq<char>)
    requires
        names.len() == olds.len(),
        forall|j: int| 0 <= j < names.len() ==> (#[trigger] names[j])@ == spec_field_name(olds[j]),
    ensures
        base_taken(olds, cand) == spec_names_contain(names, 0, cand),
{
    lemma_names_contain_general(names, 0, cand);
    if base_taken(olds, cand) {
        let w = choose|w: int|
            0 <= w < olds.len() && spec_field_name(#[trigger] olds[w]) == cand;
        assert(names[w]@ == cand);
    }
    if spec_names_contain(names, 0, cand) {
        let w = choose|w: int| 0 <= w < names.len() && (#[trigger] names[w])@ == cand;
        assert(spec_field_name(olds[w]) == cand);
    }
}

/// With the aliases mirrored in a list, a candidate is already an alias
/// exactly when the list holds it.
proof fn lemma_alias_taken_contains(outs: Seq<Field>, assigned: Seq<String>, cand: Seq<char>)
    requires
        assigned.len() == outs.len(),
        forall|k: int|
            0 <= k < outs.len() ==> ((#[trigger] outs[k]).alias matches Some(a) && a@
                == assigned[k]@),
    ensures
        alias_taken(outs, outs.len() as int, cand) == spec_names_contain(assigned, 0, cand),
{
    lemma_names_contain_general(assigned, 0, cand);
    if alias_taken(outs, outs.len() as int, cand) {
        let w = choose|w: int|
            0 <= w < outs.len() && ((#[trigger] outs[w]).alias->0)@ == cand;
        assert(assigned[w]@ == cand);
    }
    if spec_names_contain(assigned, 0, cand) {
        let w = choose|w: int| 0 <= w < assigned.len() && (#[trigger] assigned[w])@ == cand;
        assert(((outs[w]).alias->0)@ == cand);
    }
}

/// A name the list holds is in the set of its views.
proof fn lemma_contains_in_view_set(names: Seq<String>, cand: Seq<char>)
    requires
        spec_names_contain(names, 0, cand),
    ensures
        crate::ast::names_view(names).to_set().contains(cand),
{
    lemma_names_contain_general(names, 0, cand);
    let w = choose|w: int| 0 <= w < names.len() && (#[trigger] names[w])@ == cand;
    assert(crate::ast::names_view(names)[w] == cand);
    assert(crate::ast::names_view(names).contains(cand));
}

/// An earlier projection has the same base name.
pub open spec fn base_seen(olds: Seq<Field>, i: int) -> bool {
    exists|j: int| 0 <= j < i && spec_field_name(#[trigger] olds[j]) == spec_field_name(olds[i])
}

/// The candidate is the base name of some projection.
pub open spec fn base_taken(olds: Seq<Field>, cand: Seq<char>) -> bool {
    exists|j: int| 0 <= j < olds.len() && spec_field_name(#[trigger] olds[j]) == cand
}

/// The candidate is the alias of an earlier projection in the output.
pub open spec fn alias_taken(outs: Seq<Field>, i: int, cand: Seq<char>) -> bool {
    exists|j: int| 0 <= j < i && ((#[trigger] outs[j]).alias->0)@ == cand
}

/// A suffix the walk may pick for projection `i`: its generated alias is
/// neither a base name nor an alias already given.
pub open spec fn suffix_free(
    olds: Seq<Field>,
    outs: Seq<Field>,
    i: int,
    base: Seq<char>,
    k: nat,
) -> bool {
    !base_taken(olds, spec_gen_alias(base, k)) && !alias_taken(outs, i, spec_gen_alias(base, k))
}

/// The projection at `i` carries a generated alias: the base name with the
/// smallest suffix number that is neither a base name nor an alias already
/// given.
pub open spec fn suffixed(olds: Seq<Field>, outs: Seq<Field>, i: int) -> bool {
    exists|k: nat|
        1 <= k && ((outs[i].alias->0)@ == #[trigger] spec_gen_alias(
            spec_field_name(olds[i]),
            k,
        ) && suffix_free(olds, outs, i, spec_field_name(olds[i]), k) && (forall|j: nat|
            1 <= j < k ==> !suffix_free(olds, outs, i, spec_field_name(olds[i]), j)))
}

/// A witness for the generated-alias shape.
proof fn lemma_suffixed_intro(olds: Seq<Field>, outs: Seq<Field>, i: int, k: nat)
    requires
        1 <= k,
        (outs[i].alias->0)@ == spec_gen_alias(spec_field_name(olds[i]), k),
        suffix_free(olds, outs, i, spec_field_name(olds[i]), k),
        forall|j: nat| 1 <= j < k ==> !suffix_free(olds, outs, i, spec_field_name(olds[i]), j),
    ensures
        suffixed(olds, outs, i),
{
}

/// Appending a projection to the output disturbs no earlier generated alias.
proof fn lemma_suffixed_push(olds: Seq<Field>, outs: Seq<Field>, pushed: Field, i: int)
    requires
        0 <= i < outs.len(),
        suffixed(olds, outs, i),
    ensures
        suffixed(olds, outs.push(pushed), i),
{
    let grown = outs.push(pushed);
    let base = spec_field_name(olds[i]);
    let k = choose|k: nat|
        1 <= k && ((outs[i].alias->0)@ == #[trigger] spec_gen_alias(base, k) && suffix_free(
            olds,
            outs,
            i,
            base,
            k,
        ) && (forall|j: nat| 1 <= j < k ==> !suffix_free(olds, outs, i, base, j)));
    assert(grown[i] == outs[i]);
    lemma_alias_taken_push(outs, pushed, i, spec_gen_alias(base, k));
    assert forall|j: nat| 1 <= j < k implies !suffix_free(olds, grown, i, base, j) by {
        assert(!suffix_free(olds, outs, i, base, j));
        lemma_alias_taken_push(outs, pushed, i, spec_gen_alias(base, j));
    }
    lemma_suffixed_intro(olds, grown, i, k);
}

/// The generated aliases of a base that the name pool still blocks, from a
/// suffix on.
pub open spec fn gen_blocked(pool: Set<Seq<char>>, base: Seq<char>, k: nat) -> Set<Seq<char>> {
    pool.filter(|g: Seq<char>| exists|j: nat| j >= k && g == spec_gen_alias(base, j))
}

/// Assigns the output alias of every projection, as the left-to-right walk of
/// the name-collision rules does: the first projection of a base name keeps
/// the bare name, and a later duplicate gets the base with the smallest
/// numeric suffix whose result is neither a base name nor an alias already
/// given. Expressions are untouched and the aliases come out pairwise
/// distinct.
#[verifier::loop_isolation(false)]
pub fn field_list_rewrite_aliases(fields: &mut Vec<Field>)
    ensures
        aliases_assigned(old(fields)@, final(fields)@),
        final(fields)@.len() == old(fields)@.len(),
        forall|i: int|
            0 <= i < final(fields)@.len() ==> (#[trigger] final(fields)@[i]).expr == old(
                fields,
            )@[i].expr,
        forall|i: int| 0 <= i < final(fields)@.len() ==> (#[trigger] final(fields)@[i]).alias is Some,
        forall|i: int, j: int|
            #![trigger final(fields)@[i].alias, final(fields)@[j].alias]
            0 <= i && i < j && j < final(fields)@.len() ==> (final(fields)@[i].alias->0)@ != (
            final(fields)@[j].alias->0)@,
        forall|i: int|
            0 <= i < final(fields)@.len() && !base_seen(old(fields)@, i) ==> ((
            #[trigger] final(fields)@[i]).alias->0)@ == spec_field_name(old(fields)@[i]),
        forall|i: int|
            0 <= i < final(fields)@.len() && base_seen(old(fields)@, i) ==> suffixed(
                old(fields)@,
                final(fields)@,
                i,
            ),
{
    let ghost orig = fields@;
    // The default output name of every projection.
    let mut names: Vec<String> = Vec::new();
    let mut i: usize = 0;
    while i < fields.len()
        invariant
            i <= orig.len(),
            fields@ == orig,
            names@.len() == i,
            forall|j: int| 0 <= j < i ==> (#[trigger] names@[j])@ == spec_field_name(orig[j]),
        decreases orig.len() - i,
    {
        let n = field_name(&fields[i]);
        names.push(n);
        i = i + 1;
    }
    // Walk the projections, assigning aliases.
    let mut out: Vec<Field> = Vec::new();
    let mut assigned: Vec<String> = Vec::new();
    let mut idx: usize = 0;
    while idx < names.len()
        invariant
            idx <= names@.len(),
            names@.len() == orig.len(),
            fields@ == orig.skip(idx as int),
            forall|j: int| 0 <= j < orig.len() ==> (#[trigger] names@[j])@ == spec_field_name(orig[j]),
            out@.len() == idx,
            assigned@.len() == idx,
            forall|k: int|
                0 <= k < idx ==> ((#[trigger] out@[k]).alias matches Some(a) && a@ == assigned@[k]@),
            forall|k: int| 0 <= k < idx ==> (#[trigger] out@[k]).expr == orig[k].expr,
            names_distinct(assigned@),
            // every alias is a first-occurrence base name or no base name at all
            forall|k: int|
                0 <= k < idx ==> (((#[trigger] assigned@[k])@ == names@[k]@ && !base_seen(orig, k))
                    || !spec_names_contain(names@, 0, assigned@[k]@)),
            // the two shape clauses of the contract, over the prefix built so far
            forall|k: int|
                0 <= k < idx && !base_seen(orig, k) ==> ((#[trigger] out@[k]).alias->0)@
                    == spec_field_name(orig[k]),
            forall|k: int|
                0 <= k < idx && base_seen(orig, k) ==> suffixed(orig, out@, k),
        decreases names@.len() - idx,
    {
        let base = names[idx].clone();
        // whether an earlier projection shares this base name
        let mut seen = false;
        let mut p: usize = 0;
        while p < idx
            invariant
                p <= idx,
                idx < names@.len(),
                seen == exists|j: int| 0 <= j < p && (#[trigger] names@[j])@ == names@[idx as int]@,
            decreases idx - p,
        {
            if str_eq(names[p].as_str(), names[idx].as_str()) {
                seen = true;
            }
            p = p + 1;
        }
        proof {
            if seen {
                let w = choose|j: int|
                    0 <= j < idx && (#[trigger] names@[j])@ == names@[idx as int]@;
                assert(spec_field_name(orig[w]) == spec_field_name(orig[idx as int]));
                assert(base_seen(orig, idx as int));
            }
            if base_seen(orig, idx as int) {
                let w = choose|j: int|
                    0 <= j < idx as int && spec_field_name(#[trigger] orig[j]) == spec_field_name(
                        orig[idx as int],
                    );
                assert(names@[w]@ == names@[idx as int]@);
            }
            assert(seen == base_seen(orig, idx as int));
        }
        let alias: String;
        let ghost chosen_k: nat;
        if !seen {
            alias = base.clone();
            proof {
                chosen_k = 0;
            }
        } else {
            let ghost pool = crate::ast::names_view(names@).to_set().union(
                crate::ast::names_view(assigned@).to_set(),
            );
            proof {
                broadcast use vstd::seq_lib::seq_to_set_is_finite;

                crate::ast::names_view(names@).lemma_cardinality_of_set();
                crate::ast::names_view(assigned@).lemma_cardinality_of_set();
                vstd::set_lib::lemma_len_union(
                    crate::ast::names_view(names@).to_set(),
                    crate::ast::names_view(assigned@).to_set(),
                );
                pool.lemma_len_filter(
                    |g: Seq<char>| exists|j: nat| j >= 1 && g == spec_gen_alias(base@, j),
                );
            }
            let mut k: u128 = 1;
            let mut picked: Option<String> = None;
            while picked.is_none()
                invariant
                    1 <= k,
                    k as nat + gen_blocked(pool, base@, k as nat).len() <= 1 + gen_blocked(
                        pool,
                        base@,
                        1,
                    ).len(),
                    gen_blocked(pool, base@, k as nat).finite(),
                    gen_blocked(pool, base@, 1).len() <= pool.len(),
                    pool.finite(),
                    pool.len() <= names@.len() + assigned@.len(),
                    forall|j: nat|
                        1 <= j < k as nat ==> !suffix_free(orig, out@, idx as int, base@, j),
                    match picked {
                        Option::Some(a) => a@ == spec_gen_alias(base@, (k as nat)) && suffix_free(
                            orig,
                            out@,
                            idx as int,
                            base@,
                            k as nat,
                        ),
                        Option::None => true,
                    },
                decreases gen_blocked(pool, base@, k as nat).len(), (if picked is Some {
                    0int
                } else {
                    1int
                }),
            {
                let mut cand = base.clone();
                cand.append("_");
                crate::text::push_u128(&mut cand, k);
                proof {
                    assert(cand@ =~= spec_gen_alias(base@, k as nat));
                }
                let in_names = contains_name(&names, cand.as_str());
                let in_assigned = contains_name(&assigned, cand.as_str());
                proof {
                    lemma_base_taken_contains(orig, names@, cand@);
                    lemma_alias_taken_contains(out@, assigned@, cand@);
                }
                if !in_names && !in_assigned {
                    picked = Some(cand);
                } else {
                    proof {
                        let blocked_now = gen_blocked(pool, base@, k as nat);
                        let blocked_next = gen_blocked(pool, base@, (k + 1) as nat);
                        if in_names {
                            lemma_contains_in_view_set(names@, cand@);
                        } else {
                            lemma_contains_in_view_set(assigned@, cand@);
                        }
                        assert(pool.contains(cand@));
                        assert(blocked_now.contains(cand@));
                        assert forall|g: Seq<char>|
                            blocked_next.contains(g) implies blocked_now.remove(
                            cand@,
                        ).contains(g) by {
                            let j = choose|j: nat| j >= (k + 1) as nat && g == spec_gen_alias(
                                base@,
                                j,
                            );
                            if g == cand@ {
                                lemma_gen_alias_injective(base@, j, k as nat);
                            }
                        }
                        vstd::set_lib::lemma_len_subset(blocked_next, blocked_now.remove(cand@));
                        assert(!suffix_free(orig, out@, idx as int, base@, k as nat));
                    }
                    k = k + 1;
                }
            }
            alias = match picked {
                Option::Some(a) => a,
                Option::None => {
                    proof {
                        assert(false);
                    }
                    base.clone()
                },
            };
            proof {
                chosen_k = k as nat;
            }
        }
        let ghost assigned_before = assigned@;
        let ghost out_before = out@;
        let ghost alias_ghost = alias;
        assigned.push(alias.clone());
        let mut f = fields.remove(0);
        f.alias = Some(alias);
        out.push(f);
        proof {
            assert(orig.skip(idx as int)[0] == orig[idx as int]);
            assert(orig.skip(idx as int).skip(1) =~= orig.skip(idx + 1));
            let xi = idx as int;
            assert(out@ == out_before.push(out@[xi]));
            assert((out@[xi].alias->0)@ == alias_ghost@);
            // the new alias differs from everything assigned before
            assert forall|x: int|
                0 <= x < assigned_before.len() implies assigned_before[x]@
                != alias_ghost@ by {
                if !seen {
                    // the alias is the bare base name, a first occurrence
                    if assigned_before[x]@ == alias_ghost@ {
                        if assigned_before[x]@ == names@[x]@ && !base_seen(orig, x) {
                            assert(names@[x]@ == names@[xi]@);
                            assert(spec_field_name(orig[x]) == spec_field_name(orig[xi]));
                            assert(base_seen(orig, xi));
                        } else {
                            assert(!spec_names_contain(names@, 0, assigned_before[x]@));
                            lemma_names_contain_general(names@, 0, alias_ghost@);
                            assert(names@[xi]@ == alias_ghost@);
                        }
                    }
                } else {
                    // the alias passed the taken tests when it was picked
                    assert(alias_ghost@ == spec_gen_alias(base@, chosen_k));
                    assert(!alias_taken(out_before, xi, alias_ghost@));
                    lemma_alias_taken_contains(out_before, assigned_before, alias_ghost@);
                    lemma_names_contain_general(assigned_before, 0, alias_ghost@);
                }
            }
            assert forall|a: int, b: int|
                #![trigger assigned@[a], assigned@[b]]
                0 <= a < b < assigned@.len() implies assigned@[a]@ != assigned@[b]@ by {
                if b == assigned@.len() - 1 {
                    assert(assigned@[a] == assigned_before[a]);
                }
            }
            // the accounting invariant for the new alias
            assert forall|x: int|
                0 <= x < assigned@.len() implies (((#[trigger] assigned@[x])@ == names@[x]@
                && !base_seen(orig, x)) || !spec_names_contain(names@, 0, assigned@[x]@)) by {
                if x < assigned_before.len() {
                    assert(assigned@[x] == assigned_before[x]);
                } else {
                    if seen {
                        assert(!base_taken(orig, alias_ghost@));
                        lemma_base_taken_contains(orig, names@, alias_ghost@);
                    }
                }
            }
            // the two shape clauses over the extended prefix
            assert forall|x: int|
                0 <= x <= xi && !base_seen(orig, x) implies ((#[trigger] out@[x]).alias->0)@
                == spec_field_name(orig[x]) by {
                if x < xi {
                    assert(out@[x] == out_before[x]);
                } else {
                    assert(!seen);
                    assert(alias_ghost@ == names@[xi]@);
                }
            }
            assert forall|x: int|
                0 <= x <= xi && base_seen(orig, x) implies suffixed(orig, out@, x) by {
                if x < xi {
                    lemma_suffixed_push(orig, out_before, out@[xi], x);
                } else {
                    assert(seen);
                    assert(spec_field_name(orig[xi]) == base@);
                    assert(alias_ghost@ == spec_gen_alias(base@, chosen_k));
                    assert(suffix_free(orig, out_before, xi, base@, chosen_k));
                    lemma_alias_taken_push(
                        out_before,
                        out@[xi],
                        xi,
                        spec_gen_alias(base@, chosen_k),
                    );
                    assert forall|j: nat|
                        1 <= j < chosen_k implies !suffix_free(orig, out@, xi, base@, j) by {
                        assert(!suffix_free(orig, out_before, xi, base@, j));
                        lemma_alias_taken_push(out_before, out@[xi], xi, spec_gen_alias(base@, j));
                    }
                    lemma_suffixed_intro(orig, out@, xi, chosen_k);
                }
            }
        }
        idx = idx + 1;
    }
    proof {
        assert(orig.skip(orig.len() as int) =~= Seq::<Field>::empty());
    }
    *fields = out;
}

/// The projection is a reference to the time column.
pub open spec fn is_time_field(f: Field) -> bool {
    f.expr matches Expr::VarRef(v) && v.name@ == "time"@
}

/// No time projection carries a user alias.
pub open spec fn no_aliased_time(fields: Seq<Field>) -> bool {
    forall|i: int|
        0 <= i < fields.len() ==> (is_time_field(#[trigger] fields[i]) ==> fields[i].alias is None)
}

/// The relation of a projection list to its time-normalized form: the head is
/// the time projection, typed timestamp; an existing first time projection is
/// the one moved there, keeping an outer statement's alias and being forced
/// to `time` in a subquery; absent one, a fresh `time` head is made; the
/// other projections stay, in order.
pub open spec fn time_normalized(olds: Seq<Field>, news: Seq<Field>, is_subquery: bool) -> bool {
    &&& news.len() >= 1
    &&& (news[0].expr matches Expr::VarRef(v) && v.name@ == "time"@ && v.data_type == Some(
        VarRefDataType::Timestamp,
    ))
    &&& news[0].alias is Some
    &&& {
        ||| (exists|p: int|
            0 <= p < olds.len() && is_time_field(#[trigger] olds[p]) && (forall|j: int|
                0 <= j < p ==> !is_time_field(#[trigger] olds[j])) && news.skip(1) == olds.take(p)
                + olds.skip(p + 1) && news[0].alias == (if is_subquery || olds[p].alias is None {
                news[0].alias
            } else {
                olds[p].alias
            }) && ((is_subquery || olds[p].alias is None) ==> (news[0].alias->0)@ == "time"@))
        ||| ((forall|j: int| 0 <= j < olds.len() ==> !is_time_field(#[trigger] olds[j]))
            && news.skip(1) == olds && (news[0].alias->0)@ == "time"@)
    }
}

/// Guarantees a leading `time` projection: an existing one is moved to the
/// front or a fresh one is made, its type is forced to the timestamp, and its
/// alias is set to `time` for a subquery or when none was given.
#[verifier::loop_isolation(false)]
pub fn normalize_time_fields(fields: &mut Vec<Field>, is_subquery: bool)
    ensures
        time_normalized(old(fields)@, final(fields)@, is_subquery),
        final(fields)@.len() >= 1,
        ({
            let head = final(fields)@[0];
            head.expr matches Expr::VarRef(v) && v.name@ == "time"@ && v.data_type == Some(
                VarRefDataType::Timestamp,
            )
        }),
        final(fields)@[0].alias is Some,
        (is_subquery || no_aliased_time(old(fields)@)) ==> (final(fields)@[0].alias->0)@
            == "time"@,
        (forall|i: int|
            0 <= i < old(fields)@.len() ==> expr_wildcard_free(#[trigger] old(fields)@[i].expr))
            ==> (forall|i: int|
            0 <= i < final(fields)@.len() ==> expr_wildcard_free(
                #[trigger] final(fields)@[i].expr,
            )),
{
    let mut idx: Option<usize> = None;
    let mut i: usize = 0;
    while i < fields.len()
        invariant
            i <= fields@.len(),
            match idx {
                Option::Some(p) => p < i && is_time_field(fields@[p as int]) && (forall|j: int|
                    0 <= j < p ==> !is_time_field(#[trigger] fields@[j])),
                Option::None => forall|j: int| 0 <= j < i ==> !is_time_field(#[trigger] fields@[j]),
            },
        decreases fields@.len() - i,
    {
        if idx.is_none() {
            match &fields[i].expr {
                Expr::VarRef(v) => {
                    if str_eq_string("time", &v.name) {
                        idx = Some(i);
                    }
                },
                _ => {},
            }
        }
        i = i + 1;
    }
    let ghost scanned = fields@;
    let mut head: Field = match idx {
        Option::Some(p) => fields.remove(p),
        Option::None => {
            let mut name = String::new();
            name.append("time");
            proof {
                reveal_strlit("time");
            }
            Field { expr: Expr::VarRef(VarRef { name, data_type: None }), alias: None }
        },
    };
    let ghost kept_alias = head.alias;
    if head.alias.is_none() || is_subquery {
        let mut a = String::new();
        a.append("time");
        head.alias = Some(a);
    }
    match &mut head.expr {
        Expr::VarRef(v) => {
            v.data_type = Some(VarRefDataType::Timestamp);
        },
        _ => {},
    }
    fields.insert(0, head);
    proof {
        assert(fields@.skip(1) =~= fields@.subrange(1, fields@.len() as int));
        match idx {
            Option::Some(p) => {
                assert(fields@.skip(1) =~= scanned.take(p as int) + scanned.skip(p as int + 1));
            },
            Option::None => {
                assert(fields@.skip(1) =~= scanned);
            },
        }
        assert(time_normalized(old(fields)@, fields@, is_subquery));
    }
}

/// Normalizes the time projection of the statement and of each direct
/// subquery; a subquery's time alias is always forced to `time`.
#[verifier::loop_isolation(false)]
pub fn normalize_time(sel: &mut Select)
    ensures
        final(sel).fields@.len() >= 1,
        ({
            let head = final(sel).fields@[0];
            head.expr matches Expr::VarRef(v) && v.name@ == "time"@ && v.data_type == Some(
                VarRefDataType::Timestamp,
            )
        }),
        final(sel).fields@[0].alias is Some,
        no_aliased_time(old(sel).fields@) ==> (final(sel).fields@[0].alias->0)@ == "time"@,
        time_normalized(old(sel).fields@, final(sel).fields@, false),
        forall|i: int|
            0 <= i < final(sel).from@.len() ==> ((#[trigger] final(sel).from@[i]) matches
                DataSource::Subquery(q2) ==> (old(sel).from@[i] matches DataSource::Subquery(q)
                && time_normalized(q.fields@, q2.fields@, true) && q2.from@ == q.from@
                && q2.condition == q.condition && q2.group_by == q.group_by && q2.fill == q.fill
                && q2.order_by == q.order_by && q2.limit == q.limit && q2.offset == q.offset
                && q2.timezone == q.timezone)),
        final(sel).group_by == old(sel).group_by,
        final(sel).condition == old(sel).condition,
        final(sel).fill == old(sel).fill,
        final(sel).order_by == old(sel).order_by,
        final(sel).limit == old(sel).limit,
        final(sel).offset == old(sel).offset,
        final(sel).timezone == old(sel).timezone,
        (forall|i: int|
            0 <= i < old(sel).fields@.len() ==> expr_wildcard_free(
                #[trigger] old(sel).fields@[i].expr,
            )) ==> (forall|i: int|
            0 <= i < final(sel).fields@.len() ==> expr_wildcard_free(
                #[trigger] final(sel).fields@[i].expr,
            )),
        final(sel).from@.len() == old(sel).from@.len(),
        forall|i: int|
            0 <= i < final(sel).from@.len() ==> ((#[trigger] final(sel).from@[i]) is Table
                <==> old(sel).from@[i] is Table),
        forall|i: int|
            0 <= i < final(sel).from@.len() ==> ((#[trigger] final(sel).from@[i]) matches
                DataSource::Table(t) ==> (old(sel).from@[i] matches DataSource::Table(t0) && t@
                == t0@)),
{
    normalize_time_fields(&mut sel.fields, false);
    let mut src: Vec<DataSource> = Vec::new();
    core::mem::swap(&mut sel.from, &mut src);
    let ghost src0 = src@;
    let mut out: Vec<DataSource> = Vec::new();
    while src.len() > 0
        invariant
            out@.len() + src@.len() == src0.len(),
            src@ == src0.skip(out@.len() as int),
            forall|i: int|
                0 <= i < out@.len() ==> ((#[trigger] out@[i]) is Table <==> src0[i] is Table),
            forall|i: int|
                0 <= i < out@.len() ==> ((#[trigger] out@[i]) matches DataSource::Table(t) ==> (
                src0[i] matches DataSource::Table(t0) && t@ == t0@)),
            forall|i: int|
                0 <= i < out@.len() ==> ((#[trigger] out@[i]) matches DataSource::Subquery(q2)
                    ==> (src0[i] matches DataSource::Subquery(q) && time_normalized(
                    q.fields@,
                    q2.fields@,
                    true,
                ) && q2.from@ == q.from@ && q2.condition == q.condition && q2.group_by
                    == q.group_by && q2.fill == q.fill && q2.order_by == q.order_by && q2.limit
                    == q.limit && q2.offset == q.offset && q2.timezone == q.timezone)),
        decreases src@.len(),
    {
        proof {
            assert(src0.skip(out@.len() as int)[0] == src0[out@.len() as int]);
            assert(src0.skip(out@.len() as int).skip(1) =~= src0.skip(out@.len() as int + 1));
        }
        let ds = src.remove(0);
        match ds {
            DataSource::Table(t) => {
                out.push(DataSource::Table(t));
            },
            DataSource::Subquery(q) => {
                let mut sub: Select = *q;
                normalize_time_fields(&mut sub.fields, true);
                out.push(DataSource::Subquery(Box::new(sub)));
            },
        }
    }
    sel.from = out;
}


/// The second expression is the first with its `DISTINCT` forms rewritten and
/// its column references annotated by the type evaluator.
pub open spec fn prepared_expr(s: Schemas, from: Vec<DataSource>, a: Expr, b: Expr) -> bool {
    exists|m: Expr| #[trigger] distinct_rewritten(a, m) && annotated(s, from, m, b)
}

/// Rewrites `DISTINCT` forms and annotates the types of every projection,
/// keeping aliases, time projections and wildcard freedom as they were.
#[verifier::loop_isolation(false)]
fn prepare_fields(s: &Schemas, from: &Vec<DataSource>, fields: &Vec<Field>) -> (r: Vec<Field>)
    ensures
        r@.len() == fields@.len(),
        forall|i: int| 0 <= i < r@.len() ==> (#[trigger] r@[i]).alias == fields@[i].alias,
        forall|i: int|
            0 <= i < r@.len() ==> prepared_expr(*s, *from, fields@[i].expr, (#[trigger] r@[i]).expr),
        no_aliased_time(fields@) ==> no_aliased_time(r@),
        (forall|i: int|
            0 <= i < fields@.len() ==> expr_wildcard_free(#[trigger] fields@[i].expr)) ==> (forall|
            i: int,
        |
            0 <= i < r@.len() ==> expr_wildcard_free((#[trigger] r@[i]).expr)),
        (forall|i: int|
            0 <= i < fields@.len() ==> field_expand_ok(#[trigger] fields@[i].expr)) ==> (forall|
            i: int,
        |
            0 <= i < r@.len() ==> field_expand_ok((#[trigger] r@[i]).expr)),
{
    let mut out: Vec<Field> = Vec::new();
    let mut i: usize = 0;
    while i < fields.len()
        invariant
            i <= fields@.len(),
            out@.len() == i,
            forall|j: int| 0 <= j < i ==> (#[trigger] out@[j]).alias == fields@[j].alias,
            forall|j: int|
                0 <= j < i ==> prepared_expr(*s, *from, fields@[j].expr, (#[trigger] out@[j]).expr),
            forall|j: int|
                0 <= j < i ==> (is_time_field(#[trigger] out@[j]) ==> is_time_field(fields@[j])),
            forall|j: int|
                0 <= j < i ==> (expr_wildcard_free(fields@[j].expr) ==> expr_wildcard_free(
                    (#[trigger] out@[j]).expr,
                )),
            forall|j: int|
                0 <= j < i ==> (field_expand_ok(fields@[j].expr) ==> field_expand_ok(
                    (#[trigger] out@[j]).expr,
                )),
        decreases fields@.len() - i,
    {
        let rewritten = rewrite_distinct(&fields[i].expr);
        let annotated_expr = annotate_expr(s, from, &rewritten);
        proof {
            if is_time_field(Field { expr: annotated_expr, alias: None }) {
                assert(is_time_field(fields@[i as int]));
            }
            if expr_wildcard_free(fields@[i as int].expr) {
                lemma_rewritten_free(fields@[i as int].expr, rewritten);
                lemma_annotated_free(*s, *from, rewritten, annotated_expr);
            }
            if field_expand_ok(fields@[i as int].expr) {
                lemma_rewritten_expand_ok(fields@[i as int].expr, rewritten);
                lemma_annotated_expand_ok(*s, *from, rewritten, annotated_expr);
            }
        }
        let ghost mid = rewritten;
        let ghost out_before = out@;
        out.push(
            Field { expr: annotated_expr, alias: crate::ast::clone_opt_string(&fields[i].alias) },
        );
        proof {
            assert forall|j: int|
                0 <= j <= i implies prepared_expr(
                *s,
                *from,
                fields@[j].expr,
                (#[trigger] out@[j]).expr,
            ) by {
                if j < i {
                    assert(out@[j] == out_before[j]);
                    assert(prepared_expr(*s, *from, fields@[j].expr, out_before[j].expr));
                } else {
                    assert(distinct_rewritten(fields@[j].expr, mid));
                    assert(annotated(*s, *from, mid, out@[j].expr));
                    assert(prepared_expr(*s, *from, fields@[j].expr, out@[j].expr));
                }
            }
        }
        i = i + 1;
    }
    out
}

/// The catalogue tables among the first `j` whose names a pattern matches,
/// in catalogue order.
pub open spec fn matching_catalogue(
    tables: Seq<crate::schema::TableSchema>,
    j: nat,
    p: Seq<char>,
) -> Seq<Seq<char>>
    decreases j,
{
    if j == 0 {
        Seq::empty()
    } else {
        matching_catalogue(tables, (j - 1) as nat, p) + (if crate::regex_support::regex_match(
            p,
            tables[j - 1].name@,
        ) {
            seq![tables[j - 1].name@]
        } else {
            Seq::empty()
        })
    }
}

/// How many sources one `FROM` entry resolves to.
pub open spec fn ms_segment_len(s: Schemas, m: MeasurementSelection) -> nat {
    match m {
        MeasurementSelection::Name(n) => if s.spec_table(n@) is Some {
            1
        } else {
            0
        },
        MeasurementSelection::Regex(p) => matching_catalogue(s.tables@, s.tables@.len(), p@).len(),
        MeasurementSelection::Subquery(_) => 1,
    }
}

/// The resolution of one `FROM` entry: a known measurement is kept, an
/// unknown one dropped, a regex brings in every matching measurement in
/// catalogue order, and a subquery is a whole mapped statement.
pub open spec fn ms_segment_ok(s: Schemas, m: MeasurementSelection, seg: Seq<DataSource>) -> bool
    decreases m, 0int, 0int,
{
    match m {
        MeasurementSelection::Name(n) => if s.spec_table(n@) is Some {
            seg.len() == 1 && (seg[0] matches DataSource::Table(t) && t == n)
        } else {
            seg.len() == 0
        },
        MeasurementSelection::Regex(p) => crate::regex_support::regex_valid(p@) && ({
            let names = matching_catalogue(s.tables@, s.tables@.len(), p@);
            seg.len() == names.len() && forall|i: int|
                0 <= i < seg.len() ==> ((#[trigger] seg[i]) matches DataSource::Table(t) && t@
                    == names[i])
        }),
        MeasurementSelection::Subquery(q) => seg.len() == 1 && (
        seg[0] matches DataSource::Subquery(sub) && map_select_post(s, *q, *sub)),
    }
}

/// The whole resolved `FROM` list, over the first `k` entries.
pub open spec fn from_resolved(
    s: Schemas,
    input: Vec<MeasurementSelection>,
    k: int,
    out: Seq<DataSource>,
) -> bool
    decreases input, 1int, k,
{
    if k <= 0 || k > input@.len() {
        out.len() == 0
    } else {
        let sl = ms_segment_len(s, input@[k - 1]);
        &&& out.len() >= sl
        &&& ms_segment_ok(s, input@[k - 1], out.skip(out.len() - sl))
        &&& from_resolved(s, input, k - 1, out.take(out.len() - sl))
    }
}

/// Everything the mapping promises of its outcome: the feature gate passed,
/// the sources are the resolution of the `FROM` clause, the `GROUP BY` is rid
/// of wildcards, time aliases and wildcard freedom carry over, and projection
/// content is pinned for inputs without wildcards.
pub open spec fn map_select_post(s: Schemas, stmt: SelectStatement, sel: Select) -> bool
    decreases stmt, 2int, 0int,
{
    &&& stmt.series_limit is None && stmt.series_offset is None
    &&& from_resolved(s, stmt.from, stmt.from@.len() as int, sel.from@)
    &&& (no_aliased_time(stmt.fields@) ==> no_aliased_time(sel.fields@))
    &&& (match sel.group_by {
        Option::Some(dims) => forall|k: int|
            0 <= k < dims@.len() ==> !((#[trigger] dims@[k]) is Wildcard) && !(dims@[k] is Regex),
        Option::None => true,
    })
    &&& ((forall|i: int|
        0 <= i < stmt.fields@.len() ==> expr_wildcard_free(#[trigger] stmt.fields@[i].expr)) ==> (
    forall|k: int|
        0 <= k < sel.fields@.len() ==> expr_wildcard_free((#[trigger] sel.fields@[k]).expr)))
    &&& ((forall|i: int|
        0 <= i < stmt.fields@.len() ==> expr_wildcard_free(#[trigger] stmt.fields@[i].expr)) ==> (
    sel.fields@.len() == stmt.fields@.len() && (forall|i: int|
        0 <= i < sel.fields@.len() ==> (prepared_expr(
            s,
            sel.from,
            stmt.fields@[i].expr,
            (#[trigger] sel.fields@[i]).expr,
        ) && sel.fields@[i].alias == stmt.fields@[i].alias))))
    &&& (exists|mid: Seq<Field>|
        #![trigger prepared_fields_rel(s, sel.from, stmt.fields@, mid)]
        prepared_fields_rel(s, sel.from, stmt.fields@, mid) && (sel.fields@ == mid || (exists|
            ent: Seq<VarRef>,
        |
            #![trigger crate::expand::fl_expanded(mid, ent, sel.fields@)]
            crate::expand::vr_sorted(ent) && (forall|k: int|
                0 <= k < ent.len() ==> expansion_entry_sound(s, sel.from, #[trigger] ent[k]))
                && expansion_entries_complete(s, sel.from, ent) && crate::expand::fl_expanded(
                mid,
                ent,
                sel.fields@,
            ))))
}

/// The preparation relation of a whole projection list: every projection
/// rewritten and annotated, its alias kept.
pub open spec fn prepared_fields_rel(
    s: Schemas,
    from: Vec<DataSource>,
    before: Seq<Field>,
    mid: Seq<Field>,
) -> bool {
    mid.len() == before.len() && forall|i: int|
        0 <= i < mid.len() ==> (prepared_expr(s, from, before[i].expr, (#[trigger] mid[i]).expr)
            && mid[i].alias == before[i].alias)
}

/// A sound expansion entry for a resolved source list: a merged field name
/// with its merged type, or a remaining tag under the tag type.
pub open spec fn expansion_entry_sound(s: Schemas, from: Vec<DataSource>, v: VarRef) -> bool {
    ||| (v.data_type is Some && crate::expand::spec_merged_field_type(
        s,
        from,
        from@.len(),
        v.name@,
    ) == v.data_type)
    ||| (v.data_type == Option::Some(VarRefDataType::Tag) && crate::expand::spec_merged_has_tag(
        s,
        from,
        from@.len(),
        v.name@,
    ))
}

/// A complete entry list: every merged field name appears with its type.
pub open spec fn expansion_entries_complete(
    s: Schemas,
    from: Vec<DataSource>,
    ent: Seq<VarRef>,
) -> bool {
    forall|n: Seq<char>|
        (#[trigger] crate::expand::spec_merged_field_type(s, from, from@.len(), n)) is Some
            ==> exists|k: int|
            0 <= k < ent.len() && (#[trigger] ent[k]).name@ == n && ent[k].data_type
                == crate::expand::spec_merged_field_type(s, from, from@.len(), n)
}

/// The `FROM` entries up to `k` are resolvable: regexes are valid and
/// subqueries are themselves acceptable statements.
pub open spec fn from_ok(s: Schemas, input: Vec<MeasurementSelection>, k: int) -> bool
    decreases input, 1int, k,
{
    if k <= 0 || k > input@.len() {
        true
    } else {
        (match input@[k - 1] {
            MeasurementSelection::Name(_) => true,
            MeasurementSelection::Regex(p) => crate::regex_support::regex_valid(p@),
            MeasurementSelection::Subquery(q) => stmt_ok(s, *q),
        }) && from_ok(s, input, k - 1)
    }
}

/// A statement the rewrite owes success on: no series limit or offset, every
/// projection in a form the expander accepts, every `GROUP BY` regex valid,
/// and every `FROM` entry resolvable, subqueries transitively included.
pub open spec fn stmt_ok(s: Schemas, stmt: SelectStatement) -> bool
    decreases stmt, 2int, 0int,
{
    &&& stmt.series_limit is None && stmt.series_offset is None
    &&& (forall|i: int|
        0 <= i < stmt.fields@.len() ==> field_expand_ok((#[trigger] stmt.fields@[i]).expr))
    &&& (match stmt.group_by {
        Option::Some(dims) => forall|k: int|
            0 <= k < dims@.len() ==> ((#[trigger] dims@[k]) matches Dimension::Regex(p)
                ==> crate::regex_support::regex_valid(p@)),
        Option::None => true,
    })
    &&& from_ok(s, stmt.from, stmt.from@.len() as int)
}

/// Resolves the `FROM` clause: a named measurement is kept when the schema
/// knows it, a regex brings in every matching measurement in catalogue order,
/// and a subquery is mapped through the whole pipeline. It succeeds whenever
/// the entries are resolvable.
#[verifier::loop_isolation(false)]
fn from_expand_wildcards(s: &Schemas, from: &Vec<MeasurementSelection>) -> (r: Result<
    Vec<DataSource>,
    Error,
>)
    ensures
        r matches Ok(out) ==> from_resolved(*s, *from, from@.len() as int, out@),
        from_ok(*s, *from, from@.len() as int) ==> r is Ok,
        r matches Err(e) ==> (e is Planning || e is NotImplemented),
    decreases from, 0int, 0int,
{
    let mut out: Vec<DataSource> = Vec::new();
    let mut i: usize = 0;
    while i < from.len()
        invariant
            i <= from@.len(),
            from_resolved(*s, *from, i as int, out@),
        decreases from@.len() - i,
    {
        let ghost out_entry = out@;
        match &from[i] {
            MeasurementSelection::Name(name) => {
                if s.table_exists(name.as_str()) {
                    out.push(DataSource::Table(name.clone()));
                    proof {
                        assert(out@.take(out@.len() - 1) =~= out_entry);
                        assert(out@.skip(out@.len() - 1) =~= seq![out@.last()]);
                    }
                }
            },
            MeasurementSelection::Regex(pat) => {
                let re = match crate::regex_support::compile_regex(pat.as_str()) {
                    Result::Ok(re) => re,
                    Result::Err(e) => {
                        proof {
                            if from_ok(*s, *from, from@.len() as int) {
                                lemma_from_ok_prefix(*s, *from, from@.len() as int, i as int + 1);
                            }
                        }
                        return Err(e);
                    },
                };
                let names = s.table_names();
                let mut k: usize = 0;
                while k < names.len()
                    invariant
                        k <= names@.len(),
                        names@.len() == s.tables@.len(),
                        forall|j: int| 0 <= j < names@.len() ==> names@[j] == #[trigger] s.tables@[j].name,
                        out@.take(out_entry.len() as int) == out_entry,
                        out@.len() >= out_entry.len(),
                        ({
                            let m = matching_catalogue(s.tables@, k as nat, pat@);
                            let seg = out@.skip(out_entry.len() as int);
                            seg.len() == m.len() && forall|j: int|
                                0 <= j < seg.len() ==> ((#[trigger] seg[j]) matches
                                    DataSource::Table(t) && t@ == m[j])
                        }),
                    decreases names@.len() - k,
                {
                    let ghost out_prev = out@;
                    if re.is_match(names[k].as_str()) {
                        out.push(DataSource::Table(names[k].clone()));
                        proof {
                            assert(out@.take(out_entry.len() as int) =~= out_entry);
                            assert(out@.skip(out_entry.len() as int) =~= out_prev.skip(
                                out_entry.len() as int,
                            ).push(out@.last()));
                            assert(matching_catalogue(s.tables@, (k + 1) as nat, pat@)
                                =~= matching_catalogue(s.tables@, k as nat, pat@).push(
                                s.tables@[k as int].name@,
                            ));
                        }
                    } else {
                        proof {
                            assert(matching_catalogue(s.tables@, (k + 1) as nat, pat@)
                                =~= matching_catalogue(s.tables@, k as nat, pat@));
                        }
                    }
                    k = k + 1;
                }
            },
            MeasurementSelection::Subquery(q) => {
                match map_select(s, q) {
                    Result::Ok(sub) => {
                        out.push(DataSource::Subquery(Box::new(sub)));
                        proof {
                            assert(out@.take(out@.len() - 1) =~= out_entry);
                            assert(out@.skip(out@.len() - 1) =~= seq![out@.last()]);
                        }
                    },
                    Result::Err(e) => {
                        proof {
                            if from_ok(*s, *from, from@.len() as int) {
                                lemma_from_ok_prefix(*s, *from, from@.len() as int, i as int + 1);
                                assert(stmt_ok(*s, **q));
                            }
                        }
                        return Err(e);
                    },
                }
            },
        }
        proof {
            let sl = ms_segment_len(*s, from@[i as int]);
            assert(out@.len() == out_entry.len() + sl);
            assert(out@.take(out@.len() - sl) =~= out_entry);
            assert(ms_segment_ok(*s, from@[i as int], out@.skip(out@.len() - sl)));
            assert(from_resolved(*s, *from, i as int + 1, out@));
        }
        i = i + 1;
    }
    Ok(out)
}

/// Resolvability of a prefix follows from resolvability of the whole list.
proof fn lemma_from_ok_prefix(s: Schemas, input: Vec<MeasurementSelection>, k: int, j: int)
    requires
        j <= k,
        k <= input@.len(),
        from_ok(s, input, k),
    ensures
        from_ok(s, input, j),
    decreases k,
{
    if j < k && 0 < k {
        lemma_from_ok_prefix(s, input, k - 1, j);
    }
}

/// Maps a parsed statement to the intermediate form: the feature gate, the
/// `FROM` resolution, the distinct rewrite, the type annotation, and the
/// wildcard expansion of the projections and the `GROUP BY`.
#[verifier::loop_isolation(false)]
pub fn map_select(s: &Schemas, stmt: &SelectStatement) -> (r: Result<Select, Error>)
    ensures
        r matches Ok(sel) ==> map_select_post(*s, *stmt, sel),
        stmt_ok(*s, *stmt) ==> r is Ok,
        (stmt.series_limit is Some || stmt.series_offset is Some) ==> (r matches Err(e)
            && e matches Error::NotImplemented(m) && m@ == "SLIMIT or SOFFSET"@),
        r matches Err(e) ==> (e is Planning || e is NotImplemented),
    decreases stmt, 1int, 0int,
{
    let gate = check_features(stmt);
    if let Result::Err(e) = gate {
        return Err(e);
    }
    let from = match from_expand_wildcards(s, &stmt.from) {
        Result::Ok(f) => f,
        Result::Err(e) => {
            return Err(e);
        },
    };
    let prepared = prepare_fields(s, &from, &stmt.fields);
    let ghost mid_g = prepared@;
    let (has_field_wildcard, has_group_by_wildcard) = has_wildcards(stmt);
    let mut sel = Select {
        fields: prepared,
        from,
        condition: crate::ast::clone_opt_string(&stmt.condition),
        group_by: crate::ast::clone_opt_dimensions(&stmt.group_by),
        fill: crate::ast::clone_opt_fill(&stmt.fill),
        order_by: stmt.order_by,
        limit: stmt.limit,
        offset: stmt.offset,
        timezone: crate::ast::clone_opt_string(&stmt.timezone),
    };
    if !has_field_wildcard && !has_group_by_wildcard {
        proof {
            let gb = sel.group_by;
            match gb {
                Option::Some(dims) => {
                    assert forall|k: int|
                        0 <= k < dims@.len() implies !((#[trigger] dims@[k]) is Wildcard) && !(
                    dims@[k] is Regex) by {
                        match stmt.group_by {
                            Option::Some(d0) => {
                                assert(dims@[k] == d0@[k]);
                            },
                            Option::None => {},
                        }
                    }
                },
                Option::None => {},
            }
            assert(prepared_fields_rel(*s, sel.from, stmt.fields@, mid_g));
            assert(sel.fields@ == mid_g);
        }
        return Ok(sel);
    }
    let (fs, mut ts) = from_field_and_dimensions(s, &sel.from);
    let ghost ts_orig = ts;
    if !has_group_by_wildcard {
        match &stmt.group_by {
            Option::Some(dims) => {
                let mut k: usize = 0;
                while k < dims.len()
                    invariant
                        forall|n: Seq<char>|
                            #[trigger] ts.spec_contains(n) ==> ts_orig.spec_contains(n),
                    decreases dims@.len() - k,
                {
                    match &dims[k] {
                        Dimension::Tag(ident) => {
                            ts.remove(ident.as_str());
                        },
                        _ => {},
                    }
                    k = k + 1;
                }
            },
            Option::None => {},
        }
    }
    proof {
        assert(forall|n: Seq<char>|
            #[trigger] ts.spec_contains(n) ==> ts_orig.spec_contains(n));
    }
    let ghost expanded_via: Option<Seq<VarRef>> = Option::None;
    if has_field_wildcard {
        let entries = build_entries(&fs, &ts, has_group_by_wildcard);
        proof {
            assert forall|k: int|
                0 <= k < entries@.len() implies expansion_entry_sound(
                *s,
                sel.from,
                #[trigger] entries@[k],
            ) by {
                assert(crate::expand::entry_sound(fs, ts, has_group_by_wildcard, entries@[k]));
            }
            assert forall|n: Seq<char>|
                (#[trigger] crate::expand::spec_merged_field_type(
                    *s,
                    sel.from,
                    sel.from@.len(),
                    n,
                )) is Some implies exists|k: int|
                0 <= k < entries@.len() && (#[trigger] entries@[k]).name@ == n
                    && entries@[k].data_type == crate::expand::spec_merged_field_type(
                    *s,
                    sel.from,
                    sel.from@.len(),
                    n,
                ) by {
                assert(fs.spec_get(n) == crate::expand::spec_merged_field_type(
                    *s,
                    sel.from,
                    sel.from@.len(),
                    n,
                ));
            }
            assert(expansion_entries_complete(*s, sel.from, entries@));
        }
        let mut swapped: Vec<Field> = Vec::new();
        core::mem::swap(&mut sel.fields, &mut swapped);
        let expanded = match expand_field_list(swapped, &entries) {
            Result::Ok(out) => out,
            Result::Err(e) => {
                return Err(e);
            },
        };
        sel.fields = expanded;
        proof {
            expanded_via = Option::Some(entries@);
        }
    }
    if has_group_by_wildcard {
        let tags = sorted_tag_names(&ts);
        match &stmt.group_by {
            Option::Some(dims) => {
                let new_dims = match expand_group_by(dims, &tags) {
                    Result::Ok(out) => out,
                    Result::Err(e) => {
                        return Err(e);
                    },
                };
                sel.group_by = Some(new_dims);
            },
            Option::None => {},
        }
    }
    proof {
        let gb = sel.group_by;
        if !has_group_by_wildcard {
            match gb {
                Option::Some(dims) => {
                    assert forall|k: int|
                        0 <= k < dims@.len() implies !((#[trigger] dims@[k]) is Wildcard) && !(
                    dims@[k] is Regex) by {
                        match stmt.group_by {
                            Option::Some(d0) => {
                                assert(dims@[k] == d0@[k]);
                            },
                            Option::None => {},
                        }
                    }
                },
                Option::None => {},
            }
        }
        if forall|i: int|
            0 <= i < stmt.fields@.len() ==> expr_wildcard_free(#[trigger] stmt.fields@[i].expr) {
            assert(!has_field_wildcard);
        }
        assert(prepared_fields_rel(*s, sel.from, stmt.fields@, mid_g));
        match expanded_via {
            Option::Some(ent) => {
                assert(crate::expand::vr_sorted(ent) && (forall|k: int|
                    0 <= k < ent.len() ==> expansion_entry_sound(*s, sel.from, #[trigger] ent[k]))
                    && expansion_entries_complete(*s, sel.from, ent)
                    && crate::expand::fl_expanded(mid_g, ent, sel.fields@));
            },
            Option::None => {
                assert(sel.fields@ == mid_g);
            },
        }
    }
    Ok(sel)
}


/// The expression mentions a column that is a field of the table.
pub open spec fn spec_expr_refs_field(tbl: crate::schema::TableSchema, e: Expr) -> bool
    decreases e, 0int,
{
    match e {
        Expr::VarRef(v) => tbl.spec_column_type(v.name@) matches Some(
            crate::schema::ColumnType::Field(_),
        ),
        Expr::Call(c) => spec_args_ref_field(tbl, c.args),
        Expr::Binary(b) => spec_expr_refs_field(tbl, *b.lhs) || spec_expr_refs_field(tbl, *b.rhs),
        Expr::Nested(inner) => spec_expr_refs_field(tbl, *inner),
        _ => false,
    }
}

/// Some argument mentions a field column of the table.
pub open spec fn spec_args_ref_field(tbl: crate::schema::TableSchema, l: ExprList) -> bool
    decreases l, 1int,
{
    match l {
        ExprList::Empty => false,
        ExprList::Item(head, rest) => spec_expr_refs_field(tbl, *head) || spec_args_ref_field(
            tbl,
            *rest,
        ),
    }
}

/// Some projection mentions a field column of the table.
pub open spec fn spec_fields_ref_table(fields: Seq<Field>, tbl: crate::schema::TableSchema) -> bool {
    exists|i: int| 0 <= i < fields.len() && spec_expr_refs_field(tbl, (#[trigger] fields[i]).expr)
}

/// The expression mentions an output name of the subquery.
pub open spec fn spec_expr_refs_output(subfields: Seq<Field>, e: Expr) -> bool
    decreases e, 0int,
{
    match e {
        Expr::VarRef(v) => crate::type_evaluator::spec_field_by_name(subfields, v.name@) is Some,
        Expr::Call(c) => spec_args_ref_output(subfields, c.args),
        Expr::Binary(b) => spec_expr_refs_output(subfields, *b.lhs) || spec_expr_refs_output(
            subfields,
            *b.rhs,
        ),
        Expr::Nested(inner) => spec_expr_refs_output(subfields, *inner),
        _ => false,
    }
}

/// Some argument mentions an output name of the subquery.
pub open spec fn spec_args_ref_output(subfields: Seq<Field>, l: ExprList) -> bool
    decreases l, 1int,
{
    match l {
        ExprList::Empty => false,
        ExprList::Item(head, rest) => spec_expr_refs_output(subfields, *head)
            || spec_args_ref_output(subfields, *rest),
    }
}

/// Some projection mentions an output name of the subquery.
pub open spec fn spec_fields_ref_sub(fields: Seq<Field>, subfields: Seq<Field>) -> bool {
    exists|i: int|
        0 <= i < fields.len() && spec_expr_refs_output(subfields, (#[trigger] fields[i]).expr)
}

/// Whether the expression mentions a column that is a field of the table.
#[verifier::loop_isolation(false)]
fn expr_references_field(tbl: &crate::schema::TableSchema, e: &Expr) -> (r: bool)
    ensures
        r == spec_expr_refs_field(*tbl, *e),
    decreases e, 0int,
{
    match e {
        Expr::VarRef(v) => {
            match tbl.field_type_by_name(v.name.as_str()) {
                Option::Some(crate::schema::ColumnType::Field(_)) => true,
                _ => false,
            }
        },
        Expr::Call(c) => args_reference_field(tbl, &c.args),
        Expr::Binary(b) => expr_references_field(tbl, &b.lhs) || expr_references_field(
            tbl,
            &b.rhs,
        ),
        Expr::Nested(inner) => expr_references_field(tbl, inner),
        _ => false,
    }
}

/// Whether any argument mentions a field column of the table.
fn args_reference_field(tbl: &crate::schema::TableSchema, l: &ExprList) -> (r: bool)
    ensures
        r == spec_args_ref_field(*tbl, *l),
    decreases l, 1int,
{
    match l {
        ExprList::Empty => false,
        ExprList::Item(head, rest) => expr_references_field(tbl, head) || args_reference_field(
            tbl,
            rest,
        ),
    }
}

/// Whether the expression mentions an output name of the subquery.
#[verifier::loop_isolation(false)]
fn expr_references_output(fields: &Vec<Field>, e: &Expr) -> (r: bool)
    ensures
        r == spec_expr_refs_output(fields@, *e),
    decreases e, 0int,
{
    match e {
        Expr::VarRef(v) => crate::type_evaluator::field_by_name(fields, v.name.as_str()).is_some(),
        Expr::Call(c) => args_reference_output(fields, &c.args),
        Expr::Binary(b) => expr_references_output(fields, &b.lhs) || expr_references_output(
            fields,
            &b.rhs,
        ),
        Expr::Nested(inner) => expr_references_output(fields, inner),
        _ => false,
    }
}

/// Whether any argument mentions an output name of the subquery.
fn args_reference_output(fields: &Vec<Field>, l: &ExprList) -> (r: bool)
    ensures
        r == spec_args_ref_output(fields@, *l),
    decreases l, 1int,
{
    match l {
        ExprList::Empty => false,
        ExprList::Item(head, rest) => expr_references_output(fields, head)
            || args_reference_output(fields, rest),
    }
}

/// Whether any projection mentions a field column of the table.
#[verifier::loop_isolation(false)]
fn fields_reference_table(fields: &Vec<Field>, tbl: &crate::schema::TableSchema) -> (r: bool)
    ensures
        r == spec_fields_ref_table(fields@, *tbl),
{
    let mut i: usize = 0;
    while i < fields.len()
        invariant
            i <= fields@.len(),
            forall|j: int|
                0 <= j < i ==> !spec_expr_refs_field(*tbl, (#[trigger] fields@[j]).expr),
        decreases fields@.len() - i,
    {
        if expr_references_field(tbl, &fields[i].expr) {
            return true;
        }
        i = i + 1;
    }
    false
}

/// Whether any projection mentions an output name of the subquery.
#[verifier::loop_isolation(false)]
fn fields_reference_subquery(fields: &Vec<Field>, sub_fields: &Vec<Field>) -> (r: bool)
    ensures
        r == spec_fields_ref_sub(fields@, sub_fields@),
{
    let mut i: usize = 0;
    while i < fields.len()
        invariant
            i <= fields@.len(),
            forall|j: int|
                0 <= j < i ==> !spec_expr_refs_output(sub_fields@, (#[trigger] fields@[j]).expr),
        decreases fields@.len() - i,
    {
        if expr_references_output(sub_fields, &fields[i].expr) {
            return true;
        }
        i = i + 1;
    }
    false
}

/// A measurement the pruning keeps: known to the schema, with some
/// projection mentioning one of its field columns.
pub open spec fn table_kept(s: Schemas, fields: Vec<Field>, t: String) -> bool {
    match s.spec_table(t@) {
        Option::Some(tbl) => spec_fields_ref_table(fields@, tbl),
        Option::None => false,
    }
}

/// A pruned subquery the pruning keeps: sources remain and some projection
/// mentions one of its output names.
pub open spec fn sub_kept(fields: Vec<Field>, p: Select) -> bool {
    p.from@.len() > 0 && spec_fields_ref_sub(fields@, p.fields@)
}

/// The pruned source list over the first `k` sources: a measurement stays
/// exactly when some projection mentions one of its field columns, and a
/// subquery, recursively pruned, exactly when sources remain in it and some
/// projection mentions one of its output names.
pub open spec fn pruned_from(
    s: Schemas,
    fields: Vec<Field>,
    from: Vec<DataSource>,
    k: int,
    out: Seq<DataSource>,
) -> bool
    decreases from, 0int, k,
{
    if k <= 0 || k > from@.len() {
        out.len() == 0
    } else {
        match from@[k - 1] {
            DataSource::Table(t) => {
                if table_kept(s, fields, t) {
                    &&& out.len() >= 1
                    &&& (out.last() matches DataSource::Table(t2) && t2 == t)
                    &&& pruned_from(s, fields, from, k - 1, out.drop_last())
                } else {
                    pruned_from(s, fields, from, k - 1, out)
                }
            },
            DataSource::Subquery(q) => {
                ||| (out.len() >= 1 && (out.last() matches DataSource::Subquery(pp)
                    && select_pruned(s, *q, *pp) && sub_kept(fields, *pp)) && pruned_from(
                    s,
                    fields,
                    from,
                    k - 1,
                    out.drop_last(),
                ))
                ||| ((exists|p: Select| select_pruned(s, *q, p) && !sub_kept(fields, p))
                    && pruned_from(s, fields, from, k - 1, out))
            },
        }
    }
}

/// The pruned statement: the projections and every other clause untouched,
/// and the sources pruned by the projection-reference rule.
pub open spec fn select_pruned(s: Schemas, sel: Select, out: Select) -> bool
    decreases sel, 1int, 0int,
{
    &&& out.fields@ == sel.fields@
    &&& out.condition == sel.condition
    &&& (match out.group_by {
        Option::Some(dims) => sel.group_by matches Some(d0) && dims@ == d0@,
        Option::None => sel.group_by is None,
    })
    &&& out.fill == sel.fill
    &&& out.order_by == sel.order_by
    &&& out.limit == sel.limit
    &&& out.offset == sel.offset
    &&& out.timezone == sel.timezone
    &&& pruned_from(s, sel.fields, sel.from, sel.from@.len() as int, out.from@)
}

/// Drops the sources that project no field: a measurement stays only when
/// some projection mentions one of its field columns, and a subquery, pruned
/// recursively, only when sources remain and some projection mentions one of
/// its output names. The projections themselves are untouched.
#[verifier::loop_isolation(false)]
#[verifier::rlimit(80)]
#[verifier::spinoff_prover]
pub fn from_drop_empty(s: &Schemas, sel: &Select) -> (r: Select)
    ensures
        select_pruned(*s, *sel, r),
        r.fields@ == sel.fields@,
        no_aliased_time(sel.fields@) ==> no_aliased_time(r.fields@),
        (forall|i: int|
            0 <= i < sel.fields@.len() ==> expr_wildcard_free(#[trigger] sel.fields@[i].expr))
            ==> (forall|i: int|
            0 <= i < r.fields@.len() ==> expr_wildcard_free(#[trigger] r.fields@[i].expr)),
        ({
            match r.group_by {
                Option::Some(dims) => sel.group_by matches Some(d0) && dims@ == d0@,
                Option::None => sel.group_by is None,
            }
        }),
    decreases sel, 1int,
{
    let mut new_from: Vec<DataSource> = Vec::new();
    let mut i: usize = 0;
    while i < sel.from.len()
        invariant
            i <= sel.from@.len(),
            pruned_from(*s, sel.fields, sel.from, i as int, new_from@),
        decreases sel.from@.len() - i,
    {
        let ghost before = new_from@;
        match &sel.from[i] {
            DataSource::Table(t) => {
                let keep = match s.table_schema(t.as_str()) {
                    Option::Some(tbl) => fields_reference_table(&sel.fields, tbl),
                    Option::None => false,
                };
                proof {
                    assert(keep == table_kept(*s, sel.fields, *t));
                }
                if keep {
                    new_from.push(DataSource::Table(t.clone()));
                    proof {
                        assert(new_from@.drop_last() =~= before);
                    }
                }
            },
            DataSource::Subquery(q) => {
                let pruned = from_drop_empty(s, q);
                if pruned.from.len() > 0 && fields_reference_subquery(&sel.fields, &pruned.fields)
                {
                    let ghost pruned_ghost = pruned;
                    new_from.push(DataSource::Subquery(Box::new(pruned)));
                    proof {
                        assert(new_from@.drop_last() =~= before);
                        assert(new_from@.last() matches DataSource::Subquery(pp) && *pp
                            == pruned_ghost);
                        assert(select_pruned(*s, **q, pruned_ghost));
                        assert(sub_kept(sel.fields, pruned_ghost));
                    }
                } else {
                    proof {
                        assert(select_pruned(*s, **q, pruned) && !sub_kept(sel.fields, pruned));
                    }
                }
            },
        }
        proof {
            if new_from@.len() > before.len() {
                assert(new_from@.drop_last() == before);
                assert(pruned_from(*s, sel.fields, sel.from, i as int, new_from@.drop_last()));
            }
            assert(pruned_from(*s, sel.fields, sel.from, i as int + 1, new_from@));
        }
        i = i + 1;
    }
    Select {
        fields: crate::ast::clone_fields(&sel.fields),
        from: new_from,
        condition: crate::ast::clone_opt_string(&sel.condition),
        group_by: crate::ast::clone_opt_dimensions(&sel.group_by),
        fill: crate::ast::clone_opt_fill(&sel.fill),
        order_by: sel.order_by,
        limit: sel.limit,
        offset: sel.offset,
        timezone: crate::ast::clone_opt_string(&sel.timezone),
    }
}

/// Everything the alias pass promises: lengths and expressions kept, every
/// alias given and distinct, a first occurrence keeping its base name and a
/// duplicate getting the smallest free suffix.
pub open spec fn aliases_assigned(before: Seq<Field>, after: Seq<Field>) -> bool {
    &&& after.len() == before.len()
    &&& (forall|i: int| 0 <= i < after.len() ==> (#[trigger] after[i]).expr == before[i].expr)
    &&& (forall|i: int| 0 <= i < after.len() ==> (#[trigger] after[i]).alias is Some)
    &&& (forall|i: int, j: int|
        #![trigger after[i].alias, after[j].alias]
        0 <= i && i < j && j < after.len() ==> (after[i].alias->0)@ != (after[j].alias->0)@)
    &&& (forall|i: int|
        0 <= i < after.len() && !base_seen(before, i) ==> ((#[trigger] after[i]).alias->0)@
            == spec_field_name(before[i]))
    &&& (forall|i: int|
        0 <= i < after.len() && base_seen(before, i) ==> suffixed(before, after, i))
}

/// Everything the time normalizer promises of a whole statement: the
/// projections normalized for an outer statement, each subquery's normalized
/// with a forced `time` alias, and every other clause untouched.
pub open spec fn normalize_post(before: Select, after: Select) -> bool {
    &&& time_normalized(before.fields@, after.fields@, false)
    &&& after.from@.len() == before.from@.len()
    &&& (forall|i: int|
        0 <= i < after.from@.len() ==> ((#[trigger] after.from@[i]) is Table <==> before.from@[i]
            is Table))
    &&& (forall|i: int|
        0 <= i < after.from@.len() ==> ((#[trigger] after.from@[i]) matches DataSource::Table(t)
            ==> (before.from@[i] matches DataSource::Table(t0) && t@ == t0@)))
    &&& (forall|i: int|
        0 <= i < after.from@.len() ==> ((#[trigger] after.from@[i]) matches DataSource::Subquery(
            q2,
        ) ==> (before.from@[i] matches DataSource::Subquery(q) && time_normalized(
            q.fields@,
            q2.fields@,
            true,
        ) && q2.from@ == q.from@ && q2.condition == q.condition && q2.group_by == q.group_by
            && q2.fill == q.fill && q2.order_by == q.order_by && q2.limit == q.limit && q2.offset
            == q.offset && q2.timezone == q.timezone)))
    &&& after.group_by == before.group_by
    &&& after.condition == before.condition
    &&& after.fill == before.fill
    &&& after.order_by == before.order_by
    &&& after.limit == before.limit
    &&& after.offset == before.offset
    &&& after.timezone == before.timezone
}

/// The whole rewrite, step by step: some mapping of the statement, pruned,
/// time-normalized, and alias-assigned, gives the outcome.
pub open spec fn rewrite_post(s: Schemas, stmt: SelectStatement, outsel: Select) -> bool {
    exists|mapped: Select, pruned: Select, normalized: Select|
        #![trigger map_select_post(s, stmt, mapped), select_pruned(s, mapped, pruned), normalize_post(pruned, normalized)]
        map_select_post(s, stmt, mapped) && select_pruned(s, mapped, pruned) && normalize_post(
            pruned,
            normalized,
        ) && aliases_assigned(normalized.fields@, outsel.fields@) && outsel.from@
            == normalized.from@ && outsel.condition == normalized.condition && outsel.group_by
            == normalized.group_by && outsel.fill == normalized.fill && outsel.order_by
            == normalized.order_by && outsel.limit == normalized.limit && outsel.offset
            == normalized.offset && outsel.timezone == normalized.timezone
}

/// Rewrites a parsed statement into the normalized form: unsupported features
/// refused, sources resolved and pruned, wildcards expanded, types annotated,
/// the time projection first, and every projection given a distinct alias.
#[verifier::loop_isolation(false)]
pub fn rewrite_statement(s: &Schemas, stmt: &SelectStatement) -> (r: Result<SelectQuery, Error>)
    ensures
        r matches Ok(out) ==> rewrite_post(*s, *stmt, out.select),
        stmt_ok(*s, *stmt) ==> r is Ok,
        r matches Err(e) ==> (e is Planning || e is NotImplemented),
        r matches Ok(out) ==> {
            &&& out.select.fields@.len() >= 1
            &&& ({
                let head = out.select.fields@[0];
                head.expr matches Expr::VarRef(v) && v.name@ == "time"@ && v.data_type == Some(
                    VarRefDataType::Timestamp,
                )
            })
            &&& out.select.fields@[0].alias is Some
            &&& (no_aliased_time(stmt.fields@) ==> (out.select.fields@[0].alias->0)@ == "time"@)
            &&& (forall|i: int|
                0 <= i < out.select.fields@.len() ==> (#[trigger] out.select.fields@[i]).alias
                    is Some)
            &&& (forall|i: int, j: int|
                #![trigger out.select.fields@[i].alias, out.select.fields@[j].alias]
                0 <= i && i < j && j < out.select.fields@.len() ==> (
                out.select.fields@[i].alias->0)@ != (out.select.fields@[j].alias->0)@)
            &&& out.has_multiple_measurements == (exists|a: Seq<char>, b: Seq<char>|
                a != b && #[trigger] tables_of(out.select.from@).contains(a)
                    && #[trigger] tables_of(out.select.from@).contains(b))
            &&& (match out.select.group_by {
                Option::Some(dims) => forall|k: int|
                    0 <= k < dims@.len() ==> !((#[trigger] dims@[k]) is Wildcard) && !(
                    dims@[k] is Regex),
                Option::None => true,
            })
            &&& ((forall|i: int|
                0 <= i < stmt.fields@.len() ==> expr_wildcard_free(
                    #[trigger] stmt.fields@[i].expr,
                )) ==> (forall|k: int|
                0 <= k < out.select.fields@.len() ==> expr_wildcard_free(
                    (#[trigger] out.select.fields@[k]).expr,
                )))
        },
        (stmt.series_limit is Some || stmt.series_offset is Some) ==> (r matches Err(e)
            && e matches Error::NotImplemented(m) && m@ == "SLIMIT or SOFFSET"@),
{
    let mapped = match map_select(s, stmt) {
        Result::Ok(sel) => sel,
        Result::Err(e) => {
            return Err(e);
        },
    };
    let ghost mapped_g = mapped;
    let mut select = from_drop_empty(s, &mapped);
    let ghost pruned_g = select;
    normalize_time(&mut select);
    let ghost normalized_g = select;
    field_list_rewrite_aliases(&mut select.fields);
    proof {
        assert(map_select_post(*s, *stmt, mapped_g) && select_pruned(*s, mapped_g, pruned_g)
            && normalize_post(pruned_g, normalized_g));
        assert(aliases_assigned(normalized_g.fields@, select.fields@));
        assert(rewrite_post(*s, *stmt, select));
    }
    let has_multiple = has_multiple_measurements(&select);
    proof {
        assert(select.fields@.len() >= 1);
        assert(select.fields@[0].expr matches Expr::VarRef(v) && v.name@ == "time"@
            && v.data_type == Some(VarRefDataType::Timestamp));
        assert(select.fields@[0].alias is Some);
        if no_aliased_time(stmt.fields@) {
            assert((select.fields@[0].alias->0)@ == "time"@);
        }
    }
    Ok(SelectQuery { select, has_multiple_measurements: has_multiple })
}


/// Aliases are assigned stably: when every projection already carries an
/// alias and the aliases are pairwise distinct, a list that the alias pass
/// relates to it by its own rules carries the same aliases again. This is the
/// sense in which rewriting an already rewritten statement changes nothing.
pub proof fn lemma_alias_pass_stable(before: Seq<Field>, after: Seq<Field>)
    requires
        forall|i: int| 0 <= i < before.len() ==> (#[trigger] before[i]).alias is Some,
        forall|i: int, j: int|
            #![trigger before[i].alias, before[j].alias]
            0 <= i && i < j && j < before.len() ==> (before[i].alias->0)@ != (before[j].alias->0)@,
        after.len() == before.len(),
        forall|i: int|
            0 <= i < after.len() && (forall|j: int|
                0 <= j < i ==> spec_field_name(#[trigger] before[j]) != spec_field_name(
                    before[i],
                )) ==> ((#[trigger] after[i]).alias->0)@ == spec_field_name(before[i]),
        forall|i: int| 0 <= i < after.len() ==> (#[trigger] after[i]).alias is Some,
    ensures
        forall|i: int|
            0 <= i < after.len() ==> ((#[trigger] after[i]).alias->0)@ == (before[i].alias->0)@,
{
    assert forall|i: int|
        0 <= i < after.len() implies ((#[trigger] after[i]).alias->0)@ == (
    before[i].alias->0)@ by {
        assert forall|j: int|
            0 <= j < i implies spec_field_name(#[trigger] before[j]) != spec_field_name(
            before[i],
        ) by {
            assert(spec_field_name(before[j]) == (before[j].alias->0)@);
            assert(spec_field_name(before[i]) == (before[i].alias->0)@);
        }
        assert(spec_field_name(before[i]) == (before[i].alias->0)@);
    }
}

} // verus!
