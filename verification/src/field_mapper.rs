use vstd::prelude::*;

use crate::ast::VarRefDataType;
use crate::text::str_eq;
use crate::type_evaluator::merge_opt;

verus! {

broadcast use vstd::std_specs::vec::axiom_vec_index_decreases;

/// One column name with a resolved type.
#[derive(Debug)]
pub struct TypeEntry {
    pub name: String,
    pub data_type: VarRefDataType,
}

/// A bag of typed names; a name's effective type is the smallest one recorded
/// for it, which makes recording independent of order.
#[derive(Debug)]
pub struct TypeMap {
    pub entries: Vec<TypeEntry>,
}

/// The smallest type recorded for a name, over the entries from position `j`.
pub open spec fn spec_tm_min(entries: Seq<TypeEntry>, j: nat, name: Seq<char>) -> Option<
    VarRefDataType,
>
    decreases entries.len() - j,
{
    if j >= entries.len() {
        Option::None
    } else {
        merge_opt(
            if entries[j as int].name@ == name {
                Option::Some(entries[j as int].data_type)
            } else {
                Option::None
            },
            spec_tm_min(entries, j + 1, name),
        )
    }
}

/// Recording one more entry refines a name's type by the merge, and no other
/// name's.
proof fn lemma_tm_min_push(entries: Seq<TypeEntry>, j: nat, e: TypeEntry, name: Seq<char>)
    requires
        j <= entries.len(),
    ensures
        spec_tm_min(entries.push(e), j, name) == merge_opt(
            spec_tm_min(entries, j, name),
            if e.name@ == name {
                Option::Some(e.data_type)
            } else {
                Option::None
            },
        ),
    decreases entries.len() - j,
{
    if j == entries.len() {
        assert(spec_tm_min(entries.push(e), j + 1, name) is None);
    } else {
        lemma_tm_min_push(entries, j + 1, e, name);
        assert(entries.push(e)[j as int] == entries[j as int]);
    }
}

/// A name has an effective type exactly when some entry bears it.
pub proof fn lemma_tm_min_present(entries: Seq<TypeEntry>, j: nat, name: Seq<char>)
    requires
        j <= entries.len(),
    ensures
        (spec_tm_min(entries, j, name) is Some) <==> exists|i: int|
            j <= i < entries.len() && (#[trigger] entries[i]).name@ == name,
    decreases entries.len() - j,
{
    if j < entries.len() {
        lemma_tm_min_present(entries, j + 1, name);
    }
}

impl TypeMap {
    /// The effective type of a name.
    pub open spec fn spec_get(self, name: Seq<char>) -> Option<VarRefDataType> {
        spec_tm_min(self.entries@, 0, name)
    }

    /// An empty map.
    pub fn new() -> (r: Self)
        ensures
            forall|n: Seq<char>| r.spec_get(n) is None,
    {
        TypeMap { entries: Vec::new() }
    }

    /// The effective type of a name.
    #[verifier::loop_isolation(false)]
    pub fn get(&self, name: &str) -> (r: Option<VarRefDataType>)
        ensures
            r == self.spec_get(name@),
    {
        let mut acc: Option<VarRefDataType> = None;
        let mut i: usize = self.entries.len();
        while i > 0
            invariant
                i <= self.entries@.len(),
                acc == spec_tm_min(self.entries@, i as nat, name@),
            decreases i,
        {
            i = i - 1;
            if str_eq(self.entries[i].name.as_str(), name) {
                acc = match acc {
                    Some(y) => Some(self.entries[i].data_type.merge_min(y)),
                    None => Some(self.entries[i].data_type),
                };
            }
        }
        acc
    }

    /// Records a type for a name; the smaller of the recorded types wins.
    pub fn record(&mut self, name: String, data_type: VarRefDataType)
        ensures
            forall|n: Seq<char>|
                final(self).spec_get(n) == merge_opt(
                    old(self).spec_get(n),
                    if name@ == n {
                        Option::Some(data_type)
                    } else {
                        Option::None
                    },
                ),
    {
        let ghost before = self.entries@;
        let ghost e = TypeEntry { name: name, data_type: data_type };
        self.entries.push(TypeEntry { name, data_type });
        proof {
            assert forall|n: Seq<char>|
                final(self).spec_get(n) == merge_opt(
                    old(self).spec_get(n),
                    if e.name@ == n {
                        Option::Some(e.data_type)
                    } else {
                        Option::None
                    },
                ) by {
                lemma_tm_min_push(before, 0, e, n);
            }
        }
    }
}

/// Whether a name is among the strings from position `j` on.
pub open spec fn spec_names_contain(names: Seq<String>, j: nat, name: Seq<char>) -> bool
    decreases names.len() - j,
{
    if j >= names.len() {
        false
    } else {
        names[j as int]@ == name || spec_names_contain(names, j + 1, name)
    }
}

pub proof fn lemma_names_contain_push(names: Seq<String>, j: nat, e: String, name: Seq<char>)
    requires
        j <= names.len(),
    ensures
        spec_names_contain(names.push(e), j, name) == (spec_names_contain(names, j, name)
            || e@ == name),
    decreases names.len() - j,
{
    if j == names.len() {
        assert(!spec_names_contain(names.push(e), j + 1, name));
    } else {
        lemma_names_contain_push(names, j + 1, e, name);
        assert(names.push(e)[j as int] == names[j as int]);
    }
}

/// A bag of tag names; what counts is only which names are present.
#[derive(Debug)]
pub struct TagSet {
    pub entries: Vec<String>,
}

impl TagSet {
    /// Whether the name is present.
    pub open spec fn spec_contains(self, name: Seq<char>) -> bool {
        spec_names_contain(self.entries@, 0, name)
    }

    /// An empty set.
    pub fn new() -> (r: Self)
        ensures
            forall|n: Seq<char>| !r.spec_contains(n),
    {
        TagSet { entries: Vec::new() }
    }

    /// Whether the name is present.
    #[verifier::loop_isolation(false)]
    pub fn contains(&self, name: &str) -> (r: bool)
        ensures
            r == self.spec_contains(name@),
    {
        let mut i: usize = self.entries.len();
        let mut found = false;
        while i > 0
            invariant
                i <= self.entries@.len(),
                found == spec_names_contain(self.entries@, i as nat, name@),
            decreases i,
        {
            i = i - 1;
            if str_eq(self.entries[i].as_str(), name) {
                found = true;
            }
        }
        found
    }

    /// Records a tag name.
    pub fn record(&mut self, name: String)
        ensures
            forall|n: Seq<char>|
                final(self).spec_contains(n) == (old(self).spec_contains(n) || name@ == n),
    {
        let ghost before = self.entries@;
        let ghost e = name;
        self.entries.push(name);
        proof {
            assert forall|n: Seq<char>|
                final(self).spec_contains(n) == (old(self).spec_contains(n) || e@ == n) by {
                lemma_names_contain_push(before, 0, e, n);
            }
        }
    }

    /// Takes a name out.
    #[verifier::loop_isolation(false)]
    pub fn remove(&mut self, name: &str)
        ensures
            forall|n: Seq<char>|
                final(self).spec_contains(n) == (old(self).spec_contains(n) && n != name@),
    {
        let mut kept: Vec<String> = Vec::new();
        let mut i: usize = 0;
        proof {
            assert forall|n: Seq<char>| !spec_names_contain(kept@, 0, n) by {
                assert(kept@.len() == 0);
            }
        }
        while i < self.entries.len()
            invariant
                i <= self.entries@.len(),
                forall|n: Seq<char>|
                    spec_names_contain(kept@, 0, n) == (spec_names_contain_upto(
                        self.entries@,
                        i as nat,
                        n,
                    ) && n != name@),
            decreases self.entries@.len() - i,
        {
            let keep = !str_eq(self.entries[i].as_str(), name);
            let ghost kept_before = kept@;
            if keep {
                let cloned = self.entries[i].clone();
                kept.push(cloned);
            }
            proof {
                assert forall|n: Seq<char>|
                    spec_names_contain(kept@, 0, n) == (spec_names_contain_upto(
                        self.entries@,
                        (i + 1) as nat,
                        n,
                    ) && n != name@) by {
                    if keep {
                        lemma_names_contain_push(kept_before, 0, self.entries@[i as int], n);
                    }
                    lemma_names_contain_upto_step(self.entries@, i as nat, n);
                }
            }
            i = i + 1;
        }
        proof {
            assert forall|n: Seq<char>|
                spec_names_contain_upto(self.entries@, self.entries@.len(), n)
                    == old(self).spec_contains(n) by {
                lemma_names_upto_full(self.entries@, n);
            }
        }
        self.entries = kept;
    }
}

/// Whether a name is among the strings before position `j`.
pub open spec fn spec_names_contain_upto(names: Seq<String>, j: nat, name: Seq<char>) -> bool
    decreases j,
{
    if j == 0 {
        false
    } else {
        names[j - 1]@ == name || spec_names_contain_upto(names, (j - 1) as nat, name)
    }
}

proof fn lemma_names_contain_upto_step(names: Seq<String>, j: nat, name: Seq<char>)
    requires
        j < names.len(),
    ensures
        spec_names_contain_upto(names, j + 1, name) == (spec_names_contain_upto(names, j, name)
            || names[j as int]@ == name),
{
}

proof fn lemma_names_upto_full(names: Seq<String>, name: Seq<char>)
    ensures
        spec_names_contain_upto(names, names.len(), name) == spec_names_contain(names, 0, name),
{
    lemma_names_upto_general(names, names.len(), name);
    lemma_names_contain_general(names, 0, name);
}

pub proof fn lemma_names_contain_general(names: Seq<String>, j: nat, name: Seq<char>)
    requires
        j <= names.len(),
    ensures
        spec_names_contain(names, j, name) == exists|k: int|
            j <= k < names.len() && (#[trigger] names[k]@) == name,
    decreases names.len() - j,
{
    if j < names.len() {
        lemma_names_contain_general(names, j + 1, name);
    }
}

proof fn lemma_names_upto_general(names: Seq<String>, j: nat, name: Seq<char>)
    requires
        j <= names.len(),
    ensures
        spec_names_contain_upto(names, j, name) == exists|k: int|
            0 <= k < j && (#[trigger] names[k]@) == name,
    decreases j,
{
    if j > 0 {
        lemma_names_upto_general(names, (j - 1) as nat, name);
    }
}

} // verus!
