use crate::schema::ForeignKeyDescriptor;
use vstd::prelude::*;

verus! {

/// Whether the name `n` occurs in the list of known table names.
pub open spec fn name_in(names: Seq<String>, n: Seq<char>) -> bool {
    exists|i: int| 0 <= i < names.len() && names[i]@ == n
}

/// An edge is locally safe when its parent table is known and it is not a
/// strict self-reference.
pub open spec fn fk_locally_safe(fk: ForeignKeyDescriptor, names: Seq<String>) -> bool {
    name_in(names, fk.parent_table@) && fk.child_table@ != fk.parent_table@
}

/// Two edges connect the same (child table, parent table) pair.
pub open spec fn same_pair(a: ForeignKeyDescriptor, b: ForeignKeyDescriptor) -> bool {
    a.child_table@ == b.child_table@ && a.parent_table@ == b.parent_table@
}

/// Whether some edge of `s` connects the same pair as `fk`.
pub open spec fn pair_in(s: Seq<ForeignKeyDescriptor>, fk: ForeignKeyDescriptor) -> bool {
    exists|i: int| 0 <= i < s.len() && same_pair(s[i], fk)
}

/// The emission-safe subset of the edges, in input order: an edge is kept
/// when it is locally safe and no earlier kept edge connects its pair.
pub open spec fn spec_filter_foreign_keys(
    fks: Seq<ForeignKeyDescriptor>,
    names: Seq<String>,
) -> Seq<ForeignKeyDescriptor>
    decreases fks.len(),
{
    if fks.len() == 0 {
        Seq::empty()
    } else {
        let prefix = spec_filter_foreign_keys(fks.drop_last(), names);
        if fk_locally_safe(fks.last(), names) && !pair_in(prefix, fks.last()) {
            prefix.push(fks.last())
        } else {
            prefix
        }
    }
}

/// The edges the filter excludes, in input order: the complement channel,
/// so that a caller can report what was dropped.
pub open spec fn spec_dropped_foreign_keys(
    fks: Seq<ForeignKeyDescriptor>,
    names: Seq<String>,
) -> Seq<ForeignKeyDescriptor>
    decreases fks.len(),
{
    if fks.len() == 0 {
        Seq::empty()
    } else {
        let prefix = spec_dropped_foreign_keys(fks.drop_last(), names);
        let kept = spec_filter_foreign_keys(fks.drop_last(), names);
        if fk_locally_safe(fks.last(), names) && !pair_in(kept, fks.last()) {
            prefix
        } else {
            prefix.push(fks.last())
        }
    }
}

pub(crate) fn contains_name(names: &Vec<String>, x: &String) -> (r: bool)
    ensures
        r == name_in(names@, x@),
{
    let mut i: usize = 0;
    while i < names.len()
        invariant
            i <= names@.len(),
            forall|k: int| 0 <= k < i ==> names@[k]@ != x@,
        decreases names@.len() - i,
    {
        if names[i].eq(x) {
            return true;
        }
        i += 1;
    }
    false
}

fn contains_pair(kept: &Vec<ForeignKeyDescriptor>, fk: &ForeignKeyDescriptor) -> (r: bool)
    ensures
        r == pair_in(kept@, *fk),
{
    let mut i: usize = 0;
    while i < kept.len()
        invariant
            i <= kept@.len(),
            forall|k: int| 0 <= k < i ==> !same_pair(kept@[k], *fk),
        decreases kept@.len() - i,
    {
        if kept[i].child_table.eq(&fk.child_table) && kept[i].parent_table.eq(&fk.parent_table) {
            return true;
        }
        i += 1;
    }
    false
}

/// The Safety Filter: splits the raw edges into the emission-safe subset
/// and the dropped remainder, both in input order. Dropping never stops
/// the run; the second channel only reports.
pub fn remove_unsafe_foreign_keys_for_codegen(
    fks: &Vec<ForeignKeyDescriptor>,
    table_names: &Vec<String>,
) -> (r: (Vec<ForeignKeyDescriptor>, Vec<ForeignKeyDescriptor>))
    ensures
        r.0@ == spec_filter_foreign_keys(fks@, table_names@),
        r.1@ == spec_dropped_foreign_keys(fks@, table_names@),
{
    let mut kept: Vec<ForeignKeyDescriptor> = Vec::new();
    let mut dropped: Vec<ForeignKeyDescriptor> = Vec::new();
    let mut i: usize = 0;
    while i < fks.len()
        invariant
            i <= fks@.len(),
            kept@ == spec_filter_foreign_keys(fks@.take(i as int), table_names@),
            dropped@ == spec_dropped_foreign_keys(fks@.take(i as int), table_names@),
        decreases fks@.len() - i,
    {
        let fk = &fks[i];
        let safe = contains_name(table_names, &fk.parent_table) && !fk.child_table.eq(
            &fk.parent_table,
        ) && !contains_pair(&kept, fk);
        if safe {
            kept.push(fk.clone());
        } else {
            dropped.push(fk.clone());
        }
        proof {
            assert(fks@.take(i + 1).drop_last() =~= fks@.take(i as int));
            assert(fks@.take(i + 1).last() == fks@[i as int]);
        }
        i += 1;
    }
    proof {
        assert(fks@.take(fks@.len() as int) =~= fks@);
    }
    (kept, dropped)
}

/// Every kept edge is locally safe: its parent is known and it is not a
/// self-reference.
proof fn lemma_filter_elements_safe(fks: Seq<ForeignKeyDescriptor>, names: Seq<String>)
    ensures
        forall|i: int|
            0 <= i < spec_filter_foreign_keys(fks, names).len() ==> fk_locally_safe(
                #[trigger] spec_filter_foreign_keys(fks, names)[i],
                names,
            ),
    decreases fks.len(),
{
    if fks.len() > 0 {
        lemma_filter_elements_safe(fks.drop_last(), names);
        let f = spec_filter_foreign_keys(fks, names);
        let prefix = spec_filter_foreign_keys(fks.drop_last(), names);
        assert forall|i: int| 0 <= i < f.len() implies fk_locally_safe(
            #[trigger] f[i],
            names,
        ) by {
            if i < prefix.len() {
                assert(f[i] == prefix[i]);
            } else {
                assert(f[i] == fks.last());
            }
        }
    }
}

/// Every kept edge stems from the input.
proof fn lemma_filter_elements_from_input(fks: Seq<ForeignKeyDescriptor>, names: Seq<String>)
    ensures
        forall|i: int|
            0 <= i < spec_filter_foreign_keys(fks, names).len() ==> exists|j: int|
                0 <= j < fks.len() && #[trigger] spec_filter_foreign_keys(fks, names)[i] == fks[j],
    decreases fks.len(),
{
    if fks.len() > 0 {
        lemma_filter_elements_from_input(fks.drop_last(), names);
        let f = spec_filter_foreign_keys(fks, names);
        let prefix = spec_filter_foreign_keys(fks.drop_last(), names);
        assert forall|i: int| 0 <= i < f.len() implies exists|j: int|
            0 <= j < fks.len() && #[trigger] f[i] == fks[j] by {
            if i < prefix.len() {
                let j = choose|j: int| 0 <= j < fks.drop_last().len() && prefix[i] == fks.drop_last()[j];
                assert(f[i] == fks[j]);
            } else {
                assert(f[i] == fks[fks.len() - 1]);
            }
        }
    }
}

/// The filter never emits an edge whose parent table is absent from the
/// known table set.
pub proof fn lemma_filter_parents_known(fks: Seq<ForeignKeyDescriptor>, names: Seq<String>)
    ensures
        forall|i: int|
            0 <= i < spec_filter_foreign_keys(fks, names).len() ==> name_in(
                names,
                (#[trigger] spec_filter_foreign_keys(fks, names)[i]).parent_table@,
            ),
{
    lemma_filter_elements_safe(fks, names);
}

/// The filter excludes every strict self-reference.
pub proof fn lemma_filter_no_self_reference(fks: Seq<ForeignKeyDescriptor>, names: Seq<String>)
    ensures
        forall|i: int|
            0 <= i < spec_filter_foreign_keys(fks, names).len() ==> (
            #[trigger] spec_filter_foreign_keys(fks, names)[i]).child_table@ != spec_filter_foreign_keys(
                fks,
                names,
            )[i].parent_table@,
{
    lemma_filter_elements_safe(fks, names);
}

/// No two kept edges connect the same (child table, parent table) pair.
pub proof fn lemma_filter_no_duplicate_pairs(fks: Seq<ForeignKeyDescriptor>, names: Seq<String>)
    ensures
        forall|i: int, j: int|
            0 <= i < j < spec_filter_foreign_keys(fks, names).len() ==> !same_pair(
                #[trigger] spec_filter_foreign_keys(fks, names)[i],
                #[trigger] spec_filter_foreign_keys(fks, names)[j],
            ),
    decreases fks.len(),
{
    if fks.len() > 0 {
        lemma_filter_no_duplicate_pairs(fks.drop_last(), names);
        let f = spec_filter_foreign_keys(fks, names);
        let prefix = spec_filter_foreign_keys(fks.drop_last(), names);
        assert forall|i: int, j: int| 0 <= i < j < f.len() implies !same_pair(
            #[trigger] f[i],
            #[trigger] f[j],
        ) by {
            if j < prefix.len() {
            } else if f.len() > prefix.len() {
                assert(f[j] == fks.last());
                assert(!pair_in(prefix, fks.last()));
                assert(!same_pair(prefix[i], fks.last()));
            }
        }
    }
}

/// Of several locally safe edges on one pair, exactly the first in input
/// order survives: an edge preceded by no safe edge on its pair is kept.
pub proof fn lemma_filter_keeps_first(
    fks: Seq<ForeignKeyDescriptor>,
    names: Seq<String>,
    k: int,
)
    requires
        0 <= k < fks.len(),
        fk_locally_safe(fks[k], names),
        forall|j: int|
            0 <= j < k ==> !(fk_locally_safe(#[trigger] fks[j], names) && same_pair(
                fks[j],
                fks[k],
            )),
    ensures
        spec_filter_foreign_keys(fks, names).contains(fks[k]),
    decreases fks.len(),
{
    let f = spec_filter_foreign_keys(fks, names);
    let prefix = spec_filter_foreign_keys(fks.drop_last(), names);
    if k == fks.len() - 1 {
        lemma_filter_elements_safe(fks.drop_last(), names);
        lemma_filter_elements_from_input(fks.drop_last(), names);
        if pair_in(prefix, fks[k]) {
            let i = choose|i: int| 0 <= i < prefix.len() && same_pair(prefix[i], fks[k]);
            let j = choose|j: int|
                0 <= j < fks.drop_last().len() && prefix[i] == fks.drop_last()[j];
            assert(fks.drop_last()[j] == fks[j]);
            assert(fk_locally_safe(fks[j], names) && same_pair(fks[j], fks[k]));
            assert(false);
        }
        assert(f == prefix.push(fks[k]));
        assert(f[f.len() - 1] == fks[k]);
    } else {
        assert(fks.drop_last()[k] == fks[k]);
        assert(forall|j: int| 0 <= j < k ==> fks.drop_last()[j] == fks[j]);
        lemma_filter_keeps_first(fks.drop_last(), names, k);
        let i = choose|i: int| 0 <= i < prefix.len() && prefix[i] == fks[k];
        if fk_locally_safe(fks.last(), names) && !pair_in(prefix, fks.last()) {
            assert(f[i] == fks[k]);
        } else {
            assert(f[i] == fks[k]);
        }
    }
}

} // verus!
