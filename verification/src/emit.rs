use crate::filter::{contains_name, name_in};
use crate::mapper::{map_columns, spec_mapped_columns, MappedColumn, ScalarKind};
use crate::schema::{ForeignKeyDescriptor, TableDescriptor};
use vstd::prelude::*;
use vstd::string::StringExecFns;

verus! {

/// The source-text name of a scalar kind.
pub open spec fn kind_name(k: ScalarKind) -> Seq<char> {
    match k {
        ScalarKind::SmallInt => "SmallInt"@,
        ScalarKind::Int => "Int"@,
        ScalarKind::BigInt => "BigInt"@,
        ScalarKind::Float => "Float"@,
        ScalarKind::Double => "Double"@,
        ScalarKind::String => "String"@,
        ScalarKind::Boolean => "Boolean"@,
    }
}

/// A field's type text: the kind's name, wrapped as optional when the
/// column is nullable.
pub open spec fn type_text(k: ScalarKind, optional: bool) -> Seq<char> {
    if optional {
        "Option<"@ + kind_name(k) + ">"@
    } else {
        kind_name(k)
    }
}

/// One generated field line for a mapped column.
pub open spec fn field_line(c: MappedColumn) -> Seq<char> {
    "    "@ + c.name@ + ": "@ + type_text(c.kind, c.is_optional) + ",\n"@
}

/// The field lines of the mapped columns, in declared order.
pub open spec fn fields_text(cols: Seq<MappedColumn>) -> Seq<char>
    decreases cols.len(),
{
    if cols.len() == 0 {
        Seq::empty()
    } else {
        fields_text(cols.drop_last()) + field_line(cols.last())
    }
}

/// The primary-key column names, comma-separated.
pub open spec fn pk_list(pks: Seq<String>) -> Seq<char>
    decreases pks.len(),
{
    if pks.len() == 0 {
        Seq::empty()
    } else if pks.len() == 1 {
        pks[0]@
    } else {
        pk_list(pks.drop_last()) + ", "@ + pks.last()@
    }
}

/// One data-entity declaration: one field per mapped column in declared
/// order, the primary-key columns annotated in the head.
pub open spec fn entity_text(t: TableDescriptor) -> Seq<char> {
    "entity "@ + t.name@ + " ("@ + pk_list(t.primary_key@) + ") {\n"@ + fields_text(
        spec_mapped_columns(t.columns@),
    ) + "}\n"@
}

/// The entity block: one declaration per table, blank-line separated.
pub open spec fn entities_text(ts: Seq<TableDescriptor>) -> Seq<char>
    decreases ts.len(),
{
    if ts.len() == 0 {
        Seq::empty()
    } else {
        entities_text(ts.drop_last()) + entity_text(ts.last()) + "\n"@
    }
}

/// The first mapped column with the given name, if any.
pub open spec fn spec_find_col(cols: Seq<MappedColumn>, name: Seq<char>) -> Option<MappedColumn>
    decreases cols.len(),
{
    if cols.len() == 0 {
        None
    } else if cols[0].name@ == name {
        Some(cols[0])
    } else {
        spec_find_col(cols.drop_first(), name)
    }
}

/// Whether the named column of this table is optional; a name with no
/// mapped column counts as required.
pub open spec fn spec_col_optional(cols: Seq<MappedColumn>, name: Seq<char>) -> bool {
    match spec_find_col(cols, name) {
        Some(c) => c.is_optional,
        None => false,
    }
}

/// Whether a filtered edge leaves the named table through the named column;
/// such a column is presented as its relation field, not as a scalar field.
pub open spec fn is_fk_column(
    fks: Seq<ForeignKeyDescriptor>,
    t_name: Seq<char>,
    col_name: Seq<char>,
) -> bool {
    exists|i: int|
        0 <= i < fks.len() && fks[i].child_table@ == t_name && fks[i].child_column@ == col_name
}

/// The scalar fields of an object type: the mapped columns in declared
/// order, those consumed by a has-one relation excluded.
pub open spec fn api_scalar_fields(
    cols: Seq<MappedColumn>,
    fks: Seq<ForeignKeyDescriptor>,
    t_name: Seq<char>,
) -> Seq<char>
    decreases cols.len(),
{
    if cols.len() == 0 {
        Seq::empty()
    } else {
        api_scalar_fields(cols.drop_last(), fks, t_name) + if !is_fk_column(
            fks,
            t_name,
            cols.last().name@,
        ) {
            field_line(cols.last())
        } else {
            Seq::empty()
        }
    }
}

/// A has-one relation field on the child side: named after the foreign-key
/// column, typed as a reference to the parent's generated type, optional
/// exactly when the foreign-key column is nullable.
pub open spec fn has_one_line(fk: ForeignKeyDescriptor, cols: Seq<MappedColumn>) -> Seq<char> {
    if spec_col_optional(cols, fk.child_column@) {
        "    "@ + fk.child_column@ + ": Option<HasOne<"@ + fk.parent_table@ + ">>,\n"@
    } else {
        "    "@ + fk.child_column@ + ": HasOne<"@ + fk.parent_table@ + ">,\n"@
    }
}

/// The has-one fields of the table named `t_name`, in filtered edge order.
pub open spec fn has_one_fields(
    fks: Seq<ForeignKeyDescriptor>,
    t_name: Seq<char>,
    cols: Seq<MappedColumn>,
) -> Seq<char>
    decreases fks.len(),
{
    if fks.len() == 0 {
        Seq::empty()
    } else {
        has_one_fields(fks.drop_last(), t_name, cols) + if fks.last().child_table@ == t_name {
            has_one_line(fks.last(), cols)
        } else {
            Seq::empty()
        }
    }
}

/// A table name pluralized: unchanged when it already ends in `s`.
pub open spec fn pluralize(n: Seq<char>) -> Seq<char> {
    if n.len() > 0 && n.last() == 's' {
        n
    } else {
        n + "s"@
    }
}

/// A has-many relation field on the parent side: named as the pluralized
/// child table, typed as a sequence of the child's generated type, always
/// present.
pub open spec fn has_many_line(fk: ForeignKeyDescriptor) -> Seq<char> {
    "    "@ + pluralize(fk.child_table@) + ": HasMany<"@ + fk.child_table@ + ">,\n"@
}

/// The has-many fields of the table named `t_name`, in filtered edge order.
pub open spec fn has_many_fields(fks: Seq<ForeignKeyDescriptor>, t_name: Seq<char>) -> Seq<char>
    decreases fks.len(),
{
    if fks.len() == 0 {
        Seq::empty()
    } else {
        has_many_fields(fks.drop_last(), t_name) + if fks.last().parent_table@ == t_name {
            has_many_line(fks.last())
        } else {
            Seq::empty()
        }
    }
}

/// One queryable object-type declaration: the scalar fields, then the
/// has-one fields, then the has-many fields.
pub open spec fn api_type_text(t: TableDescriptor, fks: Seq<ForeignKeyDescriptor>) -> Seq<char> {
    "type "@ + t.name@ + " {\n"@ + api_scalar_fields(
        spec_mapped_columns(t.columns@),
        fks,
        t.name@,
    ) + has_one_fields(
        fks,
        t.name@,
        spec_mapped_columns(t.columns@),
    ) + has_many_fields(fks, t.name@) + "}\n"@
}

/// The object-type block: one declaration per table, blank-line separated.
pub open spec fn api_types_text(
    ts: Seq<TableDescriptor>,
    fks: Seq<ForeignKeyDescriptor>,
) -> Seq<char>
    decreases ts.len(),
{
    if ts.len() == 0 {
        Seq::empty()
    } else {
        api_types_text(ts.drop_last(), fks) + api_type_text(ts.last(), fks) + "\n"@
    }
}

/// The create arguments: every mapped non-primary-key column, required or
/// optional as mapped.
pub open spec fn create_fields(cols: Seq<MappedColumn>, pks: Seq<String>) -> Seq<char>
    decreases cols.len(),
{
    if cols.len() == 0 {
        Seq::empty()
    } else {
        create_fields(cols.drop_last(), pks) + if !name_in(pks, cols.last().name@) {
            field_line(cols.last())
        } else {
            Seq::empty()
        }
    }
}

/// The primary-key arguments, as mapped.
pub open spec fn pk_fields(cols: Seq<MappedColumn>, pks: Seq<String>) -> Seq<char>
    decreases cols.len(),
{
    if cols.len() == 0 {
        Seq::empty()
    } else {
        pk_fields(cols.drop_last(), pks) + if name_in(pks, cols.last().name@) {
            field_line(cols.last())
        } else {
            Seq::empty()
        }
    }
}

/// The update value arguments: every mapped non-primary-key column, made
/// optional whatever its own optionality - an absent argument leaves the
/// column unchanged.
pub open spec fn update_value_fields(cols: Seq<MappedColumn>, pks: Seq<String>) -> Seq<char>
    decreases cols.len(),
{
    if cols.len() == 0 {
        Seq::empty()
    } else {
        update_value_fields(cols.drop_last(), pks) + if !name_in(pks, cols.last().name@) {
            "    "@ + cols.last().name@ + ": Option<"@ + kind_name(cols.last().kind) + ">,\n"@
        } else {
            Seq::empty()
        }
    }
}

/// The three operation declarations of one table: create takes the non-key
/// columns as mapped, update the key plus the other columns all-optional,
/// delete the key alone.
pub open spec fn mutations_text_one(t: TableDescriptor) -> Seq<char> {
    let cols = spec_mapped_columns(t.columns@);
    let pks = t.primary_key@;
    "mutation create_"@ + t.name@ + " {\n"@ + create_fields(cols, pks) + "}\n"@
        + "mutation update_"@ + t.name@ + " {\n"@ + pk_fields(cols, pks) + update_value_fields(
        cols,
        pks,
    ) + "}\n"@ + "mutation delete_"@ + t.name@ + " {\n"@ + pk_fields(cols, pks) + "}\n"@
}

/// The mutation block: the three declarations per table, blank-line
/// separated per table.
pub open spec fn mutations_text(ts: Seq<TableDescriptor>) -> Seq<char>
    decreases ts.len(),
{
    if ts.len() == 0 {
        Seq::empty()
    } else {
        mutations_text(ts.drop_last()) + mutations_text_one(ts.last()) + "\n"@
    }
}

fn kind_name_str(k: ScalarKind) -> (r: &'static str)
    ensures
        r@ == kind_name(k),
{
    match k {
        ScalarKind::SmallInt => "SmallInt",
        ScalarKind::Int => "Int",
        ScalarKind::BigInt => "BigInt",
        ScalarKind::Float => "Float",
        ScalarKind::Double => "Double",
        ScalarKind::String => "String",
        ScalarKind::Boolean => "Boolean",
    }
}

fn push_field_line(out: &mut String, c: &MappedColumn)
    ensures
        final(out)@ == old(out)@ + field_line(*c),
{
    out.append("    ");
    out.append(c.name.as_str());
    out.append(": ");
    if c.is_optional {
        out.append("Option<");
        out.append(kind_name_str(c.kind));
        out.append(">");
    } else {
        out.append(kind_name_str(c.kind));
    }
    out.append(",\n");
    proof {
        assert(final(out)@ =~= old(out)@ + field_line(*c));
    }
}

fn push_fields(out: &mut String, cols: &Vec<MappedColumn>)
    ensures
        final(out)@ == old(out)@ + fields_text(cols@),
{
    let mut i: usize = 0;
    while i < cols.len()
        invariant
            i <= cols@.len(),
            out@ == old(out)@ + fields_text(cols@.take(i as int)),
        decreases cols@.len() - i,
    {
        push_field_line(out, &cols[i]);
        proof {
            assert(cols@.take(i + 1).drop_last() =~= cols@.take(i as int));
            assert(cols@.take(i + 1).last() == cols@[i as int]);
            assert(out@ =~= old(out)@ + fields_text(cols@.take(i + 1)));
        }
        i += 1;
    }
    proof {
        assert(cols@.take(cols@.len() as int) =~= cols@);
    }
}

fn push_pk_list(out: &mut String, pks: &Vec<String>)
    ensures
        final(out)@ == old(out)@ + pk_list(pks@),
{
    let mut i: usize = 0;
    while i < pks.len()
        invariant
            i <= pks@.len(),
            out@ == old(out)@ + pk_list(pks@.take(i as int)),
        decreases pks@.len() - i,
    {
        if i > 0 {
            out.append(", ");
        }
        out.append(pks[i].as_str());
        proof {
            assert(pks@.take(i + 1).drop_last() =~= pks@.take(i as int));
            assert(pks@.take(i + 1).last() == pks@[i as int]);
            assert(out@ =~= old(out)@ + pk_list(pks@.take(i + 1)));
        }
        i += 1;
    }
    proof {
        assert(pks@.take(pks@.len() as int) =~= pks@);
    }
}

/// The Entity emitter: one plain data declaration per table.
pub fn emit_entities(tables: &Vec<TableDescriptor>) -> (r: String)
    ensures
        r@ == entities_text(tables@),
{
    let mut out = String::new();
    let mut i: usize = 0;
    while i < tables.len()
        invariant
            i <= tables@.len(),
            out@ == entities_text(tables@.take(i as int)),
        decreases tables@.len() - i,
    {
        let t = &tables[i];
        out.append("entity ");
        out.append(t.name.as_str());
        out.append(" (");
        push_pk_list(&mut out, &t.primary_key);
        out.append(") {\n");
        let cols = map_columns(&t.columns);
        push_fields(&mut out, &cols);
        out.append("}\n");
        out.append("\n");
        proof {
            assert(tables@.take(i + 1).drop_last() =~= tables@.take(i as int));
            assert(tables@.take(i + 1).last() == tables@[i as int]);
            assert(out@ =~= entities_text(tables@.take(i + 1)));
        }
        i += 1;
    }
    proof {
        assert(tables@.take(tables@.len() as int) =~= tables@);
    }
    out
}

fn col_optional(cols: &Vec<MappedColumn>, name: &String) -> (r: bool)
    ensures
        r == spec_col_optional(cols@, name@),
{
    let mut i: usize = 0;
    proof {
        assert(cols@.skip(0) =~= cols@);
    }
    while i < cols.len()
        invariant
            i <= cols@.len(),
            spec_find_col(cols@, name@) == spec_find_col(cols@.skip(i as int), name@),
        decreases cols@.len() - i,
    {
        proof {
            assert(cols@.skip(i as int).drop_first() =~= cols@.skip(i + 1));
            assert(cols@.skip(i as int)[0] == cols@[i as int]);
        }
        if cols[i].name.eq(name) {
            return cols[i].is_optional;
        }
        i += 1;
    }
    proof {
        assert(cols@.skip(cols@.len() as int) =~= Seq::<MappedColumn>::empty());
    }
    false
}

fn push_pluralized(out: &mut String, n: &String)
    ensures
        final(out)@ == old(out)@ + pluralize(n@),
{
    out.append(n.as_str());
    let len = n.as_str().unicode_len();
    if !(len > 0 && n.as_str().get_char(len - 1) == 's') {
        out.append("s");
    }
    proof {
        assert(final(out)@ =~= old(out)@ + pluralize(n@));
    }
}

fn fk_column(fks: &Vec<ForeignKeyDescriptor>, t_name: &String, col_name: &String) -> (r: bool)
    ensures
        r == is_fk_column(fks@, t_name@, col_name@),
{
    let mut i: usize = 0;
    while i < fks.len()
        invariant
            i <= fks@.len(),
            forall|k: int|
                0 <= k < i ==> !(fks@[k].child_table@ == t_name@ && fks@[k].child_column@
                    == col_name@),
        decreases fks@.len() - i,
    {
        if fks[i].child_table.eq(t_name) && fks[i].child_column.eq(col_name) {
            return true;
        }
        i += 1;
    }
    false
}

fn push_api_scalar_fields(
    out: &mut String,
    cols: &Vec<MappedColumn>,
    fks: &Vec<ForeignKeyDescriptor>,
    t_name: &String,
)
    ensures
        final(out)@ == old(out)@ + api_scalar_fields(cols@, fks@, t_name@),
{
    let mut i: usize = 0;
    while i < cols.len()
        invariant
            i <= cols@.len(),
            out@ == old(out)@ + api_scalar_fields(cols@.take(i as int), fks@, t_name@),
        decreases cols@.len() - i,
    {
        if !fk_column(fks, t_name, &cols[i].name) {
            push_field_line(out, &cols[i]);
        }
        proof {
            assert(cols@.take(i + 1).drop_last() =~= cols@.take(i as int));
            assert(cols@.take(i + 1).last() == cols@[i as int]);
            assert(out@ =~= old(out)@ + api_scalar_fields(cols@.take(i + 1), fks@, t_name@));
        }
        i += 1;
    }
    proof {
        assert(cols@.take(cols@.len() as int) =~= cols@);
    }
}

fn push_has_one_fields(
    out: &mut String,
    fks: &Vec<ForeignKeyDescriptor>,
    t_name: &String,
    cols: &Vec<MappedColumn>,
)
    ensures
        final(out)@ == old(out)@ + has_one_fields(fks@, t_name@, cols@),
{
    let mut i: usize = 0;
    while i < fks.len()
        invariant
            i <= fks@.len(),
            out@ == old(out)@ + has_one_fields(fks@.take(i as int), t_name@, cols@),
        decreases fks@.len() - i,
    {
        let fk = &fks[i];
        if fk.child_table.eq(t_name) {
            out.append("    ");
            out.append(fk.child_column.as_str());
            if col_optional(cols, &fk.child_column) {
                out.append(": Option<HasOne<");
                out.append(fk.parent_table.as_str());
                out.append(">>,\n");
            } else {
                out.append(": HasOne<");
                out.append(fk.parent_table.as_str());
                out.append(">,\n");
            }
        }
        proof {
            assert(fks@.take(i + 1).drop_last() =~= fks@.take(i as int));
            assert(fks@.take(i + 1).last() == fks@[i as int]);
            assert(out@ =~= old(out)@ + has_one_fields(fks@.take(i + 1), t_name@, cols@));
        }
        i += 1;
    }
    proof {
        assert(fks@.take(fks@.len() as int) =~= fks@);
    }
}

fn push_has_many_fields(out: &mut String, fks: &Vec<ForeignKeyDescriptor>, t_name: &String)
    ensures
        final(out)@ == old(out)@ + has_many_fields(fks@, t_name@),
{
    let mut i: usize = 0;
    while i < fks.len()
        invariant
            i <= fks@.len(),
            out@ == old(out)@ + has_many_fields(fks@.take(i as int), t_name@),
        decreases fks@.len() - i,
    {
        let fk = &fks[i];
        if fk.parent_table.eq(t_name) {
            out.append("    ");
            push_pluralized(out, &fk.child_table);
            out.append(": HasMany<");
            out.append(fk.child_table.as_str());
            out.append(">,\n");
        }
        proof {
            assert(fks@.take(i + 1).drop_last() =~= fks@.take(i as int));
            assert(fks@.take(i + 1).last() == fks@[i as int]);
            assert(out@ =~= old(out)@ + has_many_fields(fks@.take(i + 1), t_name@));
        }
        i += 1;
    }
    proof {
        assert(fks@.take(fks@.len() as int) =~= fks@);
    }
}

/// The relation-aware API-type emitter: per table, the scalar fields plus
/// one relation field per filtered edge touching the table - a has-one
/// field on the child side and a has-many field on the parent side.
pub fn emit_api_types(
    tables: &Vec<TableDescriptor>,
    foreign_keys: &Vec<ForeignKeyDescriptor>,
) -> (r: String)
    ensures
        r@ == api_types_text(tables@, foreign_keys@),
{
    let mut out = String::new();
    let mut i: usize = 0;
    while i < tables.len()
        invariant
            i <= tables@.len(),
            out@ == api_types_text(tables@.take(i as int), foreign_keys@),
        decreases tables@.len() - i,
    {
        let t = &tables[i];
        out.append("type ");
        out.append(t.name.as_str());
        out.append(" {\n");
        let cols = map_columns(&t.columns);
        push_api_scalar_fields(&mut out, &cols, foreign_keys, &t.name);
        push_has_one_fields(&mut out, foreign_keys, &t.name, &cols);
        push_has_many_fields(&mut out, foreign_keys, &t.name);
        out.append("}\n");
        out.append("\n");
        proof {
            assert(tables@.take(i + 1).drop_last() =~= tables@.take(i as int));
            assert(tables@.take(i + 1).last() == tables@[i as int]);
            assert(out@ =~= api_types_text(tables@.take(i + 1), foreign_keys@));
        }
        i += 1;
    }
    proof {
        assert(tables@.take(tables@.len() as int) =~= tables@);
    }
    out
}

fn push_create_fields(out: &mut String, cols: &Vec<MappedColumn>, pks: &Vec<String>)
    ensures
        final(out)@ == old(out)@ + create_fields(cols@, pks@),
{
    let mut i: usize = 0;
    while i < cols.len()
        invariant
            i <= cols@.len(),
            out@ == old(out)@ + create_fields(cols@.take(i as int), pks@),
        decreases cols@.len() - i,
    {
        if !contains_name(pks, &cols[i].name) {
            push_field_line(out, &cols[i]);
        }
        proof {
            assert(cols@.take(i + 1).drop_last() =~= cols@.take(i as int));
            assert(cols@.take(i + 1).last() == cols@[i as int]);
            assert(out@ =~= old(out)@ + create_fields(cols@.take(i + 1), pks@));
        }
        i += 1;
    }
    proof {
        assert(cols@.take(cols@.len() as int) =~= cols@);
    }
}

fn push_pk_fields(out: &mut String, cols: &Vec<MappedColumn>, pks: &Vec<String>)
    ensures
        final(out)@ == old(out)@ + pk_fields(cols@, pks@),
{
    let mut i: usize = 0;
    while i < cols.len()
        invariant
            i <= cols@.len(),
            out@ == old(out)@ + pk_fields(cols@.take(i as int), pks@),
        decreases cols@.len() - i,
    {
        if contains_name(pks, &cols[i].name) {
            push_field_line(out, &cols[i]);
        }
        proof {
            assert(cols@.take(i + 1).drop_last() =~= cols@.take(i as int));
            assert(cols@.take(i + 1).last() == cols@[i as int]);
            assert(out@ =~= old(out)@ + pk_fields(cols@.take(i + 1), pks@));
        }
        i += 1;
    }
    proof {
        assert(cols@.take(cols@.len() as int) =~= cols@);
    }
}

fn push_update_value_fields(out: &mut String, cols: &Vec<MappedColumn>, pks: &Vec<String>)
    ensures
        final(out)@ == old(out)@ + update_value_fields(cols@, pks@),
{
    let mut i: usize = 0;
    while i < cols.len()
        invariant
            i <= cols@.len(),
            out@ == old(out)@ + update_value_fields(cols@.take(i as int), pks@),
        decreases cols@.len() - i,
    {
        if !contains_name(pks, &cols[i].name) {
            out.append("    ");
            out.append(cols[i].name.as_str());
            out.append(": Option<");
            out.append(kind_name_str(cols[i].kind));
            out.append(">,\n");
        }
        proof {
            assert(cols@.take(i + 1).drop_last() =~= cols@.take(i as int));
            assert(cols@.take(i + 1).last() == cols@[i as int]);
            assert(out@ =~= old(out)@ + update_value_fields(cols@.take(i + 1), pks@));
        }
        i += 1;
    }
    proof {
        assert(cols@.take(cols@.len() as int) =~= cols@);
    }
}

/// The three kinds of generated declaration block, in emission order: the
/// fixed dispatch table from a declaration kind to its rendering routine.
#[derive(Debug, Clone, Copy, PartialEq, Eq, Structural)]
pub enum DeclarationKind {
    Entity,
    ApiType,
    Mutation,
}

/// What the routine for each declaration kind renders.
pub open spec fn spec_emit_block(
    kind: DeclarationKind,
    tables: Seq<TableDescriptor>,
    fks: Seq<ForeignKeyDescriptor>,
) -> Seq<char> {
    match kind {
        DeclarationKind::Entity => entities_text(tables),
        DeclarationKind::ApiType => api_types_text(tables, fks),
        DeclarationKind::Mutation => mutations_text(tables),
    }
}

/// Dispatches a declaration kind to its rendering routine; `fks` is the
/// filtered edge set, read by the object-type routine alone.
pub fn emit_block(
    kind: DeclarationKind,
    tables: &Vec<TableDescriptor>,
    fks: &Vec<ForeignKeyDescriptor>,
) -> (r: String)
    ensures
        r@ == spec_emit_block(kind, tables@, fks@),
{
    match kind {
        DeclarationKind::Entity => emit_entities(tables),
        DeclarationKind::ApiType => emit_api_types(tables, fks),
        DeclarationKind::Mutation => emit_mutations(tables),
    }
}

#[verifier::rlimit(100)]
fn push_table_mutations(out: &mut String, t: &TableDescriptor)
    ensures
        final(out)@ == old(out)@ + mutations_text_one(*t),
{
    let cols = map_columns(&t.columns);
    out.append("mutation create_");
    out.append(t.name.as_str());
    out.append(" {\n");
    push_create_fields(out, &cols, &t.primary_key);
    out.append("}\n");
    proof {
        assert(out@ =~= old(out)@ + ("mutation create_"@ + t.name@ + " {\n"@ + create_fields(
            spec_mapped_columns(t.columns@),
            t.primary_key@,
        ) + "}\n"@));
    }
    let ghost mid1 = out@;
    out.append("mutation update_");
    out.append(t.name.as_str());
    out.append(" {\n");
    push_pk_fields(out, &cols, &t.primary_key);
    push_update_value_fields(out, &cols, &t.primary_key);
    out.append("}\n");
    proof {
        assert(out@ =~= mid1 + ("mutation update_"@ + t.name@ + " {\n"@ + pk_fields(
            spec_mapped_columns(t.columns@),
            t.primary_key@,
        ) + update_value_fields(spec_mapped_columns(t.columns@), t.primary_key@) + "}\n"@));
    }
    let ghost mid2 = out@;
    out.append("mutation delete_");
    out.append(t.name.as_str());
    out.append(" {\n");
    push_pk_fields(out, &cols, &t.primary_key);
    out.append("}\n");
    proof {
        assert(out@ =~= mid2 + ("mutation delete_"@ + t.name@ + " {\n"@ + pk_fields(
            spec_mapped_columns(t.columns@),
            t.primary_key@,
        ) + "}\n"@));
        assert(out@ =~= old(out)@ + mutations_text_one(*t));
    }
}

/// The Mutation emitter: create, update and delete declarations per table.
pub fn emit_mutations(tables: &Vec<TableDescriptor>) -> (r: String)
    ensures
        r@ == mutations_text(tables@),
{
    let mut out = String::new();
    let mut i: usize = 0;
    while i < tables.len()
        invariant
            i <= tables@.len(),
            out@ == mutations_text(tables@.take(i as int)),
        decreases tables@.len() - i,
    {
        push_table_mutations(&mut out, &tables[i]);
        out.append("\n");
        proof {
            assert(tables@.take(i + 1).drop_last() =~= tables@.take(i as int));
            assert(tables@.take(i + 1).last() == tables@[i as int]);
            assert(out@ =~= mutations_text(tables@.take(i + 1)));
        }
        i += 1;
    }
    proof {
        assert(tables@.take(tables@.len() as int) =~= tables@);
    }
    out
}

} // verus!
