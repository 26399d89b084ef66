use vstd::prelude::*;

use crate::ast::{Dimension, Field, FillClause, OrderByDirection};

verus! {

/// One resolved entry of the `FROM` clause: a measurement known to the schema
/// or an already rewritten subquery.
#[derive(Debug)]
pub enum DataSource {
    Table(String),
    Subquery(Box<Select>),
}

/// The intermediate representation of a `SELECT` statement produced by the
/// rewrite: wildcards expanded, sources resolved, and types annotated.
#[derive(Debug)]
pub struct Select {
    pub fields: Vec<Field>,
    pub from: Vec<DataSource>,
    pub condition: Option<String>,
    pub group_by: Option<Vec<Dimension>>,
    pub fill: Option<FillClause>,
    pub order_by: Option<OrderByDirection>,
    pub limit: Option<u64>,
    pub offset: Option<u64>,
    pub timezone: Option<String>,
}

/// A rewritten statement, together with whether it draws on more than one
/// distinct measurement.
#[derive(Debug)]
pub struct SelectQuery {
    pub select: Select,
    pub has_multiple_measurements: bool,
}

/// The set of table names transitively reachable through a `FROM` list,
/// descending through subqueries.
pub open spec fn tables_of(from: Seq<DataSource>) -> Set<Seq<char>>
    decreases from,
{
    Set::new(
        |n: Seq<char>|
            exists|i: int|
                0 <= i < from.len() && ds_contributes(#[trigger] from[i], n),
    )
}

/// Whether one data source reaches a table name.
pub open spec fn ds_contributes(ds: DataSource, n: Seq<char>) -> bool
    decreases ds,
{
    match ds {
        DataSource::Table(t) => t@ == n,
        DataSource::Subquery(q) => exists|i: int|
            0 <= i < q.from@.len() && ds_contributes(#[trigger] q.from@[i], n),
    }
}

/// `GROUP BY` has a time dimension.
pub open spec fn spec_has_time_dimension(group_by: Option<Vec<Dimension>>) -> bool {
    match group_by {
        Option::None => false,
        Option::Some(dims) => exists|i: int|
            0 <= i < dims@.len() && (#[trigger] dims@[i]) is Time,
    }
}

impl Select {
    /// True when the statement's `GROUP BY` has a time dimension.
    #[verifier::loop_isolation(false)]
    pub fn has_time_dimension(&self) -> (r: bool)
        ensures
            r == spec_has_time_dimension(self.group_by),
    {
        match &self.group_by {
            Option::None => false,
            Option::Some(dims) => {
                let mut i: usize = 0;
                while i < dims.len()
                    invariant
                        i <= dims@.len(),
                        forall|j: int| 0 <= j < i ==> !((#[trigger] dims@[j]) is Time),
                    decreases dims@.len() - i,
                {
                    if matches!(&dims[i], Dimension::Time { .. }) {
                        assert(spec_has_time_dimension(self.group_by)) by {
                            assert((dims@[i as int]) is Time);
                        }
                        return true;
                    }
                    i = i + 1;
                }
                false
            },
        }
    }
}


/// A table name reachable from one of the first `k` sources.
pub open spec fn prefix_contributes(from: Seq<DataSource>, k: int, n: Seq<char>) -> bool {
    exists|j: int| 0 <= j < k && ds_contributes(#[trigger] from[j], n)
}

/// Extending the prefix by one source adds exactly its contributions.
pub proof fn lemma_prefix_step(from: Seq<DataSource>, k: int, n: Seq<char>)
    requires
        0 <= k < from.len(),
    ensures
        prefix_contributes(from, k + 1, n) == (prefix_contributes(from, k, n) || ds_contributes(
            from[k],
            n,
        )),
{
    if prefix_contributes(from, k + 1, n) {
        let j = choose|j: int| 0 <= j < k + 1 && ds_contributes(#[trigger] from[j], n);
        if j < k {
            assert(prefix_contributes(from, k, n));
        }
    }
    if ds_contributes(from[k], n) {
        assert(prefix_contributes(from, k + 1, n));
    }
}

/// A subquery source contributes exactly what its own sources reach.
pub proof fn lemma_subquery_contributes(ds: DataSource, n: Seq<char>)
    requires
        ds is Subquery,
    ensures
        ds_contributes(ds, n) == prefix_contributes(
            ds->Subquery_0.from@,
            ds->Subquery_0.from@.len() as int,
            n,
        ),
{
    match ds {
        DataSource::Subquery(q) => {
            if ds_contributes(ds, n) {
                let i = choose|i: int|
                    0 <= i < q.from@.len() && ds_contributes(#[trigger] q.from@[i], n);
                assert(0 <= i < q.from@.len() && ds_contributes(q.from@[i], n));
                assert(prefix_contributes(q.from@, q.from@.len() as int, n));
            }
            if prefix_contributes(q.from@, q.from@.len() as int, n) {
                let j = choose|j: int|
                    0 <= j < q.from@.len() && ds_contributes(#[trigger] q.from@[j], n);
                assert(ds_contributes(ds, n));
            }
        },
        DataSource::Table(_) => {},
    }
}

/// Membership in the transitive table set is contribution by some source.
pub proof fn lemma_tables_of_contains(from: Seq<DataSource>, n: Seq<char>)
    ensures
        tables_of(from).contains(n) == prefix_contributes(from, from.len() as int, n),
{
}

} // verus!
