use vstd::prelude::*;

use crate::ast::VarRefDataType;
use crate::text::{str_eq, str_eq_string};

verus! {

/// What kind of column a name denotes in a measurement.
#[derive(Debug, Clone, Copy, PartialEq, Eq, Structural)]
pub enum ColumnType {
    Tag,
    Field(VarRefDataType),
}

impl ColumnType {
    /// A value column carries one of the five field types.
    pub open spec fn wf(self) -> bool {
        match self {
            ColumnType::Tag => true,
            ColumnType::Field(t) => t.spec_is_field_type(),
        }
    }
}

/// One column of a measurement.
#[derive(Debug)]
pub struct Column {
    pub name: String,
    pub column_type: ColumnType,
}

/// The typed columns of one measurement.
///
/// The time column is implicit: the schema never lists it, and the rewrite
/// treats the name `time` as the timestamp on its own.
#[derive(Debug)]
pub struct TableSchema {
    pub name: String,
    pub columns: Vec<Column>,
}

/// The first column of the name, if any.
pub open spec fn spec_col_find(cols: Seq<Column>, name: Seq<char>) -> Option<ColumnType>
    decreases cols.len(),
{
    if cols.len() == 0 {
        Option::None
    } else if cols[0].name@ == name {
        Option::Some(cols[0].column_type)
    } else {
        spec_col_find(cols.skip(1), name)
    }
}

impl TableSchema {
    /// Column names are distinct, none is `time`, and field columns carry
    /// field types.
    pub open spec fn wf(self) -> bool {
        &&& forall|i: int, j: int|
            #![trigger self.columns@[i], self.columns@[j]]
            0 <= i < j < self.columns@.len() ==> self.columns@[i].name@ != self.columns@[j].name@
        &&& forall|i: int|
            0 <= i < self.columns@.len() ==> (#[trigger] self.columns@[i].name@) != "time"@
        &&& forall|i: int|
            0 <= i < self.columns@.len() ==> (#[trigger] self.columns@[i].column_type).wf()
    }

    /// The type of the named column.
    pub open spec fn spec_column_type(self, name: Seq<char>) -> Option<ColumnType> {
        spec_col_find(self.columns@, name)
    }

    /// A fresh schema with no columns yet.
    pub fn new(name: String) -> (r: Self)
        ensures
            r.wf(),
            r.name == name,
            r.columns@.len() == 0,
    {
        TableSchema { name, columns: Vec::new() }
    }

    /// Adds a column, refusing a duplicate name, the name `time`, and a tag
    /// type posing as a field; reports whether it was added.
    #[verifier::loop_isolation(false)]
    pub fn add_column(&mut self, name: String, column_type: ColumnType) -> (r: bool)
        requires
            old(self).wf(),
        ensures
            final(self).wf(),
            final(self).name == old(self).name,
            r ==> final(self).columns@ == old(self).columns@.push(
                Column { name: name, column_type: column_type },
            ),
            !r ==> *final(self) == *old(self),
            r == (old(self).spec_column_type(name@) is None && name@ != "time"@
                && column_type.wf()),
    {
        let type_ok = match column_type {
            ColumnType::Tag => true,
            ColumnType::Field(t) => t.is_field_type(),
        };
        if !type_ok || str_eq_string("time", &name) {
            proof {
                lemma_col_find_present(self.columns@, name@);
            }
            return false;
        }
        let mut i: usize = 0;
        while i < self.columns.len()
            invariant
                i <= self.columns@.len(),
                forall|j: int| 0 <= j < i ==> (#[trigger] self.columns@[j].name@) != name@,
            decreases self.columns@.len() - i,
        {
            if str_eq_string(self.columns[i].name.as_str(), &name) {
                proof {
                    lemma_col_find_present(self.columns@, name@);
                }
                return false;
            }
            i = i + 1;
        }
        proof {
            lemma_col_find_present(self.columns@, name@);
        }
        self.columns.push(Column { name, column_type });
        true
    }

    /// The type of the named column.
    #[verifier::loop_isolation(false)]
    pub fn field_type_by_name(&self, name: &str) -> (r: Option<ColumnType>)
        ensures
            r == self.spec_column_type(name@),
    {
        let mut i: usize = 0;
        proof {
            assert(self.columns@.skip(0) =~= self.columns@);
        }
        while i < self.columns.len()
            invariant
                i <= self.columns@.len(),
                spec_col_find(self.columns@, name@) == spec_col_find(
                    self.columns@.skip(i as int),
                    name@,
                ),
            decreases self.columns@.len() - i,
        {
            proof {
                assert(self.columns@.skip(i as int)[0] == self.columns@[i as int]);
                assert(self.columns@.skip(i as int).skip(1) =~= self.columns@.skip(i + 1));
            }
            if str_eq(self.columns[i].name.as_str(), name) {
                return Some(self.columns[i].column_type);
            }
            i = i + 1;
        }
        None
    }
}

/// Finding a column is the same as one of the columns bearing the name.
pub proof fn lemma_col_find_present(cols: Seq<Column>, name: Seq<char>)
    ensures
        (spec_col_find(cols, name) is Some) <==> exists|i: int|
            0 <= i < cols.len() && (#[trigger] cols[i].name@) == name,
    decreases cols.len(),
{
    if cols.len() > 0 {
        lemma_col_find_present(cols.skip(1), name);
        if cols[0].name@ == name {
        } else {
            assert forall|i: int|
                0 <= i < cols.len() && (#[trigger] cols[i].name@) == name implies exists|j: int|
                0 <= j < cols.skip(1).len() && (#[trigger] cols.skip(1)[j].name@) == name by {
                assert(cols.skip(1)[i - 1] == cols[i]);
            }
        }
    }
}

/// The first table of the name, if any.
pub open spec fn spec_table_find(tables: Seq<TableSchema>, name: Seq<char>) -> Option<TableSchema>
    decreases tables.len(),
{
    if tables.len() == 0 {
        Option::None
    } else if tables[0].name@ == name {
        Option::Some(tables[0])
    } else {
        spec_table_find(tables.skip(1), name)
    }
}

/// The catalogue of measurements the rewrite consults.
#[derive(Debug)]
pub struct Schemas {
    pub tables: Vec<TableSchema>,
}

impl Schemas {
    /// Table names are distinct and every table is well formed.
    pub open spec fn wf(self) -> bool {
        &&& forall|i: int, j: int|
            #![trigger self.tables@[i], self.tables@[j]]
            0 <= i < j < self.tables@.len() ==> self.tables@[i].name@ != self.tables@[j].name@
        &&& forall|i: int| 0 <= i < self.tables@.len() ==> (#[trigger] self.tables@[i]).wf()
    }

    /// The table of the given name.
    pub open spec fn spec_table(self, name: Seq<char>) -> Option<TableSchema> {
        spec_table_find(self.tables@, name)
    }

    /// An empty catalogue.
    pub fn new() -> (r: Self)
        ensures
            r.wf(),
            r.tables@.len() == 0,
    {
        Schemas { tables: Vec::new() }
    }

    /// Adds a measurement, refusing a duplicate or ill-formed one; reports
    /// whether it was added.
    #[verifier::loop_isolation(false)]
    pub fn add_table(&mut self, t: TableSchema) -> (r: bool)
        requires
            old(self).wf(),
        ensures
            final(self).wf(),
            r ==> final(self).tables@ == old(self).tables@.push(t),
            !r ==> *final(self) == *old(self),
    {
        let wf_cols = t.check_wf();
        if !wf_cols {
            return false;
        }
        let mut i: usize = 0;
        while i < self.tables.len()
            invariant
                i <= self.tables@.len(),
                forall|j: int| 0 <= j < i ==> (#[trigger] self.tables@[j].name@) != t.name@,
            decreases self.tables@.len() - i,
        {
            if str_eq_string(self.tables[i].name.as_str(), &t.name) {
                return false;
            }
            i = i + 1;
        }
        self.tables.push(t);
        true
    }

    /// Whether the named table exists.
    #[verifier::loop_isolation(false)]
    pub fn table_exists(&self, name: &str) -> (r: bool)
        ensures
            r == (self.spec_table(name@) is Some),
    {
        self.table_schema(name).is_some()
    }

    /// All table names, in catalogue order.
    #[verifier::loop_isolation(false)]
    pub fn table_names(&self) -> (r: Vec<String>)
        ensures
            r@.len() == self.tables@.len(),
            forall|i: int| 0 <= i < r@.len() ==> r@[i] == #[trigger] self.tables@[i].name,
    {
        let mut names: Vec<String> = Vec::new();
        let mut i: usize = 0;
        while i < self.tables.len()
            invariant
                i <= self.tables@.len(),
                names@.len() == i,
                forall|j: int| 0 <= j < i ==> names@[j] == #[trigger] self.tables@[j].name,
            decreases self.tables@.len() - i,
        {
            names.push(self.tables[i].name.clone());
            i = i + 1;
        }
        names
    }

    /// The schema of the named table.
    #[verifier::loop_isolation(false)]
    pub fn table_schema(&self, name: &str) -> (r: Option<&TableSchema>)
        ensures
            match r {
                Option::Some(t) => self.spec_table(name@) == Option::Some(*t),
                Option::None => self.spec_table(name@) is None,
            },
    {
        let mut i: usize = 0;
        proof {
            assert(self.tables@.skip(0) =~= self.tables@);
        }
        while i < self.tables.len()
            invariant
                i <= self.tables@.len(),
                spec_table_find(self.tables@, name@) == spec_table_find(
                    self.tables@.skip(i as int),
                    name@,
                ),
            decreases self.tables@.len() - i,
        {
            proof {
                assert(self.tables@.skip(i as int)[0] == self.tables@[i as int]);
                assert(self.tables@.skip(i as int).skip(1) =~= self.tables@.skip(i + 1));
            }
            if str_eq(self.tables[i].name.as_str(), name) {
                return Some(&self.tables[i]);
            }
            i = i + 1;
        }
        None
    }
}

impl TableSchema {
    /// Checks well-formedness of the columns at run time.
    #[verifier::loop_isolation(false)]
    pub fn check_wf(&self) -> (r: bool)
        ensures
            r == self.wf(),
    {
        let mut i: usize = 0;
        while i < self.columns.len()
            invariant
                i <= self.columns@.len(),
                forall|a: int, b: int|
                    #![trigger self.columns@[a], self.columns@[b]]
                    0 <= a < b < i ==> self.columns@[a].name@ != self.columns@[b].name@,
                forall|a: int| 0 <= a < i ==> (#[trigger] self.columns@[a].name@) != "time"@,
                forall|a: int| 0 <= a < i ==> (#[trigger] self.columns@[a].column_type).wf(),
            decreases self.columns@.len() - i,
        {
            let c = &self.columns[i];
            let ok_type = match c.column_type {
                ColumnType::Tag => true,
                ColumnType::Field(t) => t.is_field_type(),
            };
            if !ok_type || str_eq_string("time", &c.name) {
                return false;
            }
            let mut j: usize = 0;
            while j < i
                invariant
                    j <= i,
                    i < self.columns@.len(),
                    forall|a: int|
                        0 <= a < j ==> self.columns@[a].name@ != #[trigger] self.columns@[
                            i as int
                        ].name@,
                decreases i - j,
            {
                if str_eq_string(self.columns[j].name.as_str(), &self.columns[i].name) {
                    return false;
                }
                j = j + 1;
            }
            i = i + 1;
        }
        true
    }
}

} // verus!
