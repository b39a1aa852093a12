use crate::emit::{api_types_text, emit_block, entities_text, mutations_text, DeclarationKind};
use crate::filter::{remove_unsafe_foreign_keys_for_codegen, spec_dropped_foreign_keys,
    spec_filter_foreign_keys};
use crate::mapper::spec_map_column;
use crate::schema::{ForeignKeyDescriptor, SchemaSnapshot, TableDescriptor};
use vstd::prelude::*;
use vstd::string::StringExecFns;

verus! {

/// What the pipeline reports while recovering: an edge the Safety Filter
/// excluded, or a column whose declared SQL type has no mapping. Neither
/// stops the run.
#[derive(Debug)]
pub enum Diagnostic {
    UnsafeForeignKey(ForeignKeyDescriptor),
    UnmappedColumn { table: String, column: String },
}

/// The per-column diagnostics of one table, in declared column order.
pub open spec fn table_column_diags(t: TableDescriptor) -> Seq<Diagnostic>
    decreases t.columns@.len(),
{
    table_column_diags_rec(t, t.columns@.len() as int)
}

pub open spec fn table_column_diags_rec(t: TableDescriptor, n: int) -> Seq<Diagnostic>
    decreases n,
{
    if n <= 0 {
        Seq::empty()
    } else {
        table_column_diags_rec(t, n - 1) + if spec_map_column(t.columns@[n - 1]) is None {
            seq![Diagnostic::UnmappedColumn { table: t.name, column: t.columns@[n - 1].name }]
        } else {
            Seq::empty()
        }
    }
}

/// The per-column diagnostics of all tables, in table order.
pub open spec fn unmapped_column_diags(ts: Seq<TableDescriptor>) -> Seq<Diagnostic>
    decreases ts.len(),
{
    if ts.len() == 0 {
        Seq::empty()
    } else {
        unmapped_column_diags(ts.drop_last()) + table_column_diags(ts.last())
    }
}

/// The known table names, in introspection order.
pub open spec fn table_names(ts: Seq<TableDescriptor>) -> Seq<String> {
    ts.map_values(|t: TableDescriptor| t.name)
}

/// The dropped edges, reported as diagnostics in input order.
pub open spec fn fk_diags(fks: Seq<ForeignKeyDescriptor>, names: Seq<String>) -> Seq<Diagnostic> {
    spec_dropped_foreign_keys(fks, names).map_values(
        |fk: ForeignKeyDescriptor| Diagnostic::UnsafeForeignKey(fk),
    )
}

/// Everything one run reports: the dropped edges, then the unmapped
/// columns.
pub open spec fn print_diags(
    tables: Seq<TableDescriptor>,
    fks: Seq<ForeignKeyDescriptor>,
) -> Seq<Diagnostic> {
    fk_diags(fks, table_names(tables)) + unmapped_column_diags(tables)
}

/// The fixed import declarations the generated text depends on.
pub open spec fn header_text() -> Seq<char> {
    "use wundergraph::query_builder::types::{HasMany, HasOne};\n"@
        + "use wundergraph::scalar::WundergraphScalarValue;\n"@
        + "use wundergraph::WundergraphEntity;\n"@
}

/// The complete generated text of one run: the fixed imports, then the
/// entity, object-type and mutation blocks, in that order, with the
/// object-type block built over the emission-safe edges only.
pub open spec fn print_text(
    tables: Seq<TableDescriptor>,
    fks: Seq<ForeignKeyDescriptor>,
) -> Seq<char> {
    header_text() + "\n"@ + entities_text(tables) + api_types_text(
        tables,
        spec_filter_foreign_keys(fks, table_names(tables)),
    ) + mutations_text(tables)
}

fn table_names_vec(tables: &Vec<TableDescriptor>) -> (r: Vec<String>)
    ensures
        r@ == table_names(tables@),
{
    let mut out: Vec<String> = Vec::new();
    let mut i: usize = 0;
    while i < tables.len()
        invariant
            i <= tables@.len(),
            out@ == table_names(tables@.take(i as int)),
        decreases tables@.len() - i,
    {
        out.push(tables[i].name.clone());
        proof {
            assert(out@ =~= table_names(tables@.take(i + 1)));
        }
        i += 1;
    }
    proof {
        assert(tables@.take(tables@.len() as int) =~= tables@);
        assert(out@ =~= table_names(tables@));
    }
    out
}

fn push_table_diags(out: &mut Vec<Diagnostic>, t: &TableDescriptor)
    ensures
        final(out)@ == old(out)@ + table_column_diags(*t),
{
    let mut j: usize = 0;
    while j < t.columns.len()
        invariant
            j <= t.columns@.len(),
            out@ == old(out)@ + table_column_diags_rec(*t, j as int),
        decreases t.columns@.len() - j,
    {
        if crate::mapper::map_column(&t.columns[j]).is_none() {
            out.push(
                Diagnostic::UnmappedColumn {
                    table: t.name.clone(),
                    column: t.columns[j].name.clone(),
                },
            );
        }
        proof {
            assert(out@ =~= old(out)@ + table_column_diags_rec(*t, j + 1));
        }
        j += 1;
    }
}

/// The whole pipeline after introspection: filters the edges, maps the
/// columns, and renders the three blocks; returns the generated text and
/// the recovered-diagnostics channel.
pub fn print(snapshot: &SchemaSnapshot) -> (r: (String, Vec<Diagnostic>))
    ensures
        r.0@ == print_text(snapshot.tables@, snapshot.foreign_keys@),
        r.1@ == print_diags(snapshot.tables@, snapshot.foreign_keys@),
{
    let names = table_names_vec(&snapshot.tables);
    let (safe, dropped) = remove_unsafe_foreign_keys_for_codegen(&snapshot.foreign_keys, &names);
    let mut out = String::new();
    out.append("use wundergraph::query_builder::types::{HasMany, HasOne};\n");
    out.append("use wundergraph::scalar::WundergraphScalarValue;\n");
    out.append("use wundergraph::WundergraphEntity;\n");
    out.append("\n");
    let entities = emit_block(DeclarationKind::Entity, &snapshot.tables, &safe);
    out.append(entities.as_str());
    let api_types = emit_block(DeclarationKind::ApiType, &snapshot.tables, &safe);
    out.append(api_types.as_str());
    let mutations = emit_block(DeclarationKind::Mutation, &snapshot.tables, &safe);
    out.append(mutations.as_str());
    proof {
        assert(out@ =~= print_text(snapshot.tables@, snapshot.foreign_keys@));
    }
    let mut diags: Vec<Diagnostic> = Vec::new();
    let mut i: usize = 0;
    while i < dropped.len()
        invariant
            i <= dropped@.len(),
            diags@ == dropped@.take(i as int).map_values(
                |fk: ForeignKeyDescriptor| Diagnostic::UnsafeForeignKey(fk),
            ),
        decreases dropped@.len() - i,
    {
        diags.push(Diagnostic::UnsafeForeignKey(dropped[i].clone()));
        proof {
            assert(diags@ =~= dropped@.take(i + 1).map_values(
                |fk: ForeignKeyDescriptor| Diagnostic::UnsafeForeignKey(fk),
            ));
        }
        i += 1;
    }
    proof {
        assert(dropped@.take(dropped@.len() as int) =~= dropped@);
        assert(diags@ =~= fk_diags(snapshot.foreign_keys@, names@));
    }
    let mut j: usize = 0;
    while j < snapshot.tables.len()
        invariant
            j <= snapshot.tables@.len(),
            diags@ == fk_diags(snapshot.foreign_keys@, table_names(snapshot.tables@))
                + unmapped_column_diags(snapshot.tables@.take(j as int)),
        decreases snapshot.tables@.len() - j,
    {
        push_table_diags(&mut diags, &snapshot.tables[j]);
        proof {
            assert(snapshot.tables@.take(j + 1).drop_last() =~= snapshot.tables@.take(j as int));
            assert(snapshot.tables@.take(j + 1).last() == snapshot.tables@[j as int]);
            assert(diags@ =~= fk_diags(snapshot.foreign_keys@, table_names(snapshot.tables@))
                + unmapped_column_diags(snapshot.tables@.take(j + 1)));
        }
        j += 1;
    }
    proof {
        assert(snapshot.tables@.take(snapshot.tables@.len() as int) =~= snapshot.tables@);
        assert(diags@ =~= print_diags(snapshot.tables@, snapshot.foreign_keys@));
    }
    (out, diags)
}

/// Emission determinism: the generated text is a function of the snapshot
/// alone, so two runs over an unchanged snapshot yield byte-identical text
/// and identical diagnostics.
pub proof fn lemma_emission_deterministic(
    first: (Seq<char>, Seq<Diagnostic>),
    second: (Seq<char>, Seq<Diagnostic>),
    tables: Seq<TableDescriptor>,
    fks: Seq<ForeignKeyDescriptor>,
)
    requires
        first.0 == print_text(tables, fks),
        first.1 == print_diags(tables, fks),
        second.0 == print_text(tables, fks),
        second.1 == print_diags(tables, fks),
    ensures
        first == second,
{
}

} // verus!
