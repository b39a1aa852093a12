use crate::schema::{ColumnDescriptor, SqlTypeTag};
use vstd::prelude::*;

verus! {

/// The scalar kind a column maps to: one name per variant of the wire
/// value union.
#[derive(Debug, Clone, Copy, PartialEq, Eq, Structural)]
pub enum ScalarKind {
    SmallInt,
    Int,
    BigInt,
    Float,
    Double,
    String,
    Boolean,
}

/// The pipeline-internal projection of a column: its scalar kind and
/// whether generated fields and arguments wrap it as optional. Derived per
/// emission run, never persisted.
#[derive(Debug)]
pub struct MappedColumn {
    pub name: String,
    pub kind: ScalarKind,
    pub is_optional: bool,
}

/// The fixed mapping table from declared SQL type to scalar kind; a
/// declared type outside the table has no kind.
pub open spec fn spec_map_sql_type(t: SqlTypeTag) -> Option<ScalarKind> {
    match t {
        SqlTypeTag::SmallInt => Some(ScalarKind::SmallInt),
        SqlTypeTag::Integer => Some(ScalarKind::Int),
        SqlTypeTag::BigInt => Some(ScalarKind::BigInt),
        SqlTypeTag::Float => Some(ScalarKind::Float),
        SqlTypeTag::Double => Some(ScalarKind::Double),
        SqlTypeTag::Text => Some(ScalarKind::String),
        SqlTypeTag::Bool => Some(ScalarKind::Boolean),
        SqlTypeTag::Other(_) => None,
    }
}

pub fn map_sql_type(t: &SqlTypeTag) -> (r: Option<ScalarKind>)
    ensures
        r == spec_map_sql_type(*t),
{
    match *t {
        SqlTypeTag::SmallInt => Some(ScalarKind::SmallInt),
        SqlTypeTag::Integer => Some(ScalarKind::Int),
        SqlTypeTag::BigInt => Some(ScalarKind::BigInt),
        SqlTypeTag::Float => Some(ScalarKind::Float),
        SqlTypeTag::Double => Some(ScalarKind::Double),
        SqlTypeTag::Text => Some(ScalarKind::String),
        SqlTypeTag::Bool => Some(ScalarKind::Boolean),
        SqlTypeTag::Other(_) => None,
    }
}

/// Maps one column, or nothing when its declared type is unrecognized;
/// the column's nullability becomes the optionality flag.
pub open spec fn spec_map_column(c: ColumnDescriptor) -> Option<MappedColumn> {
    match spec_map_sql_type(c.sql_type) {
        Some(k) => Some(MappedColumn { name: c.name, kind: k, is_optional: c.nullable }),
        None => None,
    }
}

pub fn map_column(c: &ColumnDescriptor) -> (r: Option<MappedColumn>)
    ensures
        r == spec_map_column(*c),
{
    match map_sql_type(&c.sql_type) {
        Some(k) => Some(MappedColumn { name: c.name.clone(), kind: k, is_optional: c.nullable }),
        None => None,
    }
}

/// The mapped columns of a table in declared order, unrecognized ones
/// excluded.
pub open spec fn spec_mapped_columns(cols: Seq<ColumnDescriptor>) -> Seq<MappedColumn>
    decreases cols.len(),
{
    if cols.len() == 0 {
        Seq::empty()
    } else {
        let prefix = spec_mapped_columns(cols.drop_last());
        match spec_map_column(cols.last()) {
            Some(m) => prefix.push(m),
            None => prefix,
        }
    }
}

pub fn map_columns(cols: &Vec<ColumnDescriptor>) -> (r: Vec<MappedColumn>)
    ensures
        r@ == spec_mapped_columns(cols@),
{
    let mut out: Vec<MappedColumn> = Vec::new();
    let mut i: usize = 0;
    while i < cols.len()
        invariant
            i <= cols@.len(),
            out@ == spec_mapped_columns(cols@.take(i as int)),
        decreases cols@.len() - i,
    {
        match map_column(&cols[i]) {
            Some(m) => out.push(m),
            None => (),
        }
        proof {
            assert(cols@.take(i + 1).drop_last() =~= cols@.take(i as int));
            assert(cols@.take(i + 1).last() == cols@[i as int]);
        }
        i += 1;
    }
    proof {
        assert(cols@.take(cols@.len() as int) =~= cols@);
    }
    out
}

} // verus!
