use vstd::prelude::*;

verus! {

/// The declared SQL type of a column, as normalized by the introspection
/// adapter: one tag per type family of the fixed mapping table. A declared
/// type outside that table is carried verbatim under `Other` so that the
/// mapper can report it per column.
#[derive(Debug, PartialEq)]
pub enum SqlTypeTag {
    SmallInt,
    Integer,
    BigInt,
    Float,
    Double,
    Text,
    Bool,
    Other(String),
}

/// One column of an introspected table: immutable once loaded.
#[derive(Debug)]
pub struct ColumnDescriptor {
    pub name: String,
    pub sql_type: SqlTypeTag,
    pub nullable: bool,
    /// Ordinal position among the table's declared columns.
    pub ordinal: usize,
}

/// One introspected table: its columns in declared order (the order of the
/// sequence is the generated field order) and its primary-key column names.
#[derive(Debug)]
pub struct TableDescriptor {
    pub name: String,
    pub columns: Vec<ColumnDescriptor>,
    pub primary_key: Vec<String>,
}

/// One foreign-key constraint: a many-to-one edge from the child table's
/// column to the parent table's column.
#[derive(Debug, PartialEq)]
pub struct ForeignKeyDescriptor {
    pub child_table: String,
    pub child_column: String,
    pub parent_table: String,
    pub parent_column: String,
}

impl Clone for ForeignKeyDescriptor {
    fn clone(&self) -> (r: Self)
        ensures
            r == *self,
    {
        ForeignKeyDescriptor {
            child_table: self.child_table.clone(),
            child_column: self.child_column.clone(),
            parent_table: self.parent_table.clone(),
            parent_column: self.parent_column.clone(),
        }
    }
}

/// Table names are unique within a loaded snapshot.
pub open spec fn tables_wf(tables: Seq<TableDescriptor>) -> bool {
    forall|i: int, j: int|
        0 <= i < j < tables.len() ==> tables[i].name@ != tables[j].name@
}

/// Everything loaded for one schema at one point in time; read-only for the
/// rest of the pipeline, which only filters or projects it.
#[derive(Debug)]
pub struct SchemaSnapshot {
    pub tables: Vec<TableDescriptor>,
    pub foreign_keys: Vec<ForeignKeyDescriptor>,
}

impl SchemaSnapshot {
    /// The snapshot invariant: table names unique.
    pub open spec fn wf(&self) -> bool {
        tables_wf(self.tables@)
    }

    /// Builds a snapshot, refusing a table list with a repeated name.
    pub fn new(tables: Vec<TableDescriptor>, foreign_keys: Vec<ForeignKeyDescriptor>) -> (r:
        Option<SchemaSnapshot>)
        ensures
            r matches Some(s) ==> s.wf() && s.tables == tables && s.foreign_keys == foreign_keys,
            r is None <==> !tables_wf(tables@),
    {
        let n = tables.len();
        let mut i: usize = 0;
        while i < n
            invariant
                i <= n,
                n == tables@.len(),
                forall|p: int, q: int| 0 <= p < q < i ==> tables@[p].name@ != tables@[q].name@,
            decreases n - i,
        {
            let mut j: usize = 0;
            while j < i
                invariant
                    j <= i < n,
                    n == tables@.len(),
                    forall|q: int| 0 <= q < j ==> tables@[q].name@ != tables@[i as int].name@,
                decreases i - j,
            {
                if tables[j].name.eq(&tables[i].name) {
                    return None;
                }
                j += 1;
            }
            i += 1;
        }
        Some(SchemaSnapshot { tables, foreign_keys })
    }
}

} // verus!
