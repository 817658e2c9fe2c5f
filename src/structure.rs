//! Loading a structure: the atoms of the atom records, in input order.
//!
//! Lines that are not atom records are passed over. The first malformed atom
//! record fails the whole load. An atom's 0-based position in the result is
//! its node's identity in the graph.
use vstd::prelude::*;
use crate::atom::{all_wf, atoms_view, Atom, AtomView};
use crate::error::PdbError;
use crate::record::{is_atom_line, is_atom_record, parse_atom_record, parse_record};

verus! {

/// The view of each line of `lines`, in order.
pub open spec fn lines_view(lines: Seq<Vec<u8>>) -> Seq<Seq<u8>> {
    lines.map_values(|l: Vec<u8>| l@)
}

/// The atoms of the atom records among `lines`, in order, or the error of the
/// first malformed atom record.
pub open spec fn load_spec(lines: Seq<Seq<u8>>) -> Result<Seq<AtomView>, PdbError>
    decreases lines.len(),
{
    if lines.len() == 0 {
        Ok(Seq::empty())
    } else {
        match load_spec(lines.drop_last()) {
            Err(e) => Err(e),
            Ok(atoms) => if !is_atom_record(lines.last()) {
                Ok(atoms)
            } else {
                match parse_record(lines.last()) {
                    Ok(a) => Ok(atoms.push(a)),
                    Err(e) => Err(e),
                }
            },
        }
    }
}

/// The atom records among `lines`, in order.
pub open spec fn atom_lines(lines: Seq<Seq<u8>>) -> Seq<Seq<u8>> {
    lines.filter(|l: Seq<u8>| is_atom_record(l))
}

proof fn lemma_load_error_stays(lines: Seq<Seq<u8>>, i: int)
    requires
        0 <= i <= lines.len(),
        load_spec(lines.subrange(0, i)) is Err,
    ensures
        load_spec(lines) == load_spec(lines.subrange(0, i)),
    decreases lines.len(),
{
    if i < lines.len() {
        assert(lines.drop_last().subrange(0, i) =~= lines.subrange(0, i));
        lemma_load_error_stays(lines.drop_last(), i);
    } else {
        assert(lines.subrange(0, i) =~= lines);
    }
}

/// Loading reads the atom records alone: it gives the same result on the
/// atom records of `lines` as on `lines`.
pub proof fn lemma_load_reads_atom_lines(lines: Seq<Seq<u8>>)
    ensures
        load_spec(lines) == load_spec(atom_lines(lines)),
    decreases lines.len(),
{
    let p = |l: Seq<u8>| is_atom_record(l);
    if lines.len() > 0 {
        let init = lines.drop_last();
        lemma_load_reads_atom_lines(init);
        assert(init.push(lines.last()) =~= lines);
        init.lemma_filter_push(lines.last(), p);
        if is_atom_record(lines.last()) {
            assert(atom_lines(lines).drop_last() =~= atom_lines(init));
        }
    } else {
        reveal(Seq::filter);
    }
}

/// Node numbering follows the atom records alone: inputs whose atom records
/// are the same lines in the same order load the same atoms, however the
/// other lines stand among them.
pub proof fn lemma_other_lines_keep_numbering(a: Seq<Seq<u8>>, b: Seq<Seq<u8>>)
    requires
        atom_lines(a) == atom_lines(b),
    ensures
        load_spec(a) == load_spec(b),
{
    lemma_load_reads_atom_lines(a);
    lemma_load_reads_atom_lines(b);
}

/// On a successful load, node `k` is the `k`-th atom record of the input:
/// there is one atom per atom record, in input order.
pub proof fn lemma_load_keeps_order(lines: Seq<Seq<u8>>)
    requires
        load_spec(lines) is Ok,
    ensures
        load_spec(lines)->Ok_0.len() == atom_lines(lines).len(),
        forall|k: int|
            0 <= k < atom_lines(lines).len() ==> parse_record(#[trigger] atom_lines(lines)[k])
                == Ok::<AtomView, PdbError>(load_spec(lines)->Ok_0[k]),
{
    lemma_load_reads_atom_lines(lines);
    lemma_load_atoms_in_order(atom_lines(lines));
}

proof fn lemma_load_atoms_in_order(lines: Seq<Seq<u8>>)
    requires
        load_spec(lines) is Ok,
        forall|k: int| 0 <= k < lines.len() ==> is_atom_record(#[trigger] lines[k]),
    ensures
        load_spec(lines)->Ok_0.len() == lines.len(),
        forall|k: int|
            0 <= k < lines.len() ==> parse_record(#[trigger] lines[k]) == Ok::<AtomView, PdbError>(
                load_spec(lines)->Ok_0[k],
            ),
    decreases lines.len(),
{
    if lines.len() > 0 {
        let init = lines.drop_last();
        assert(forall|k: int| 0 <= k < init.len() ==> init[k] == lines[k]);
        lemma_load_atoms_in_order(init);
    }
}

/// Reads the atoms of the atom records among `lines`, in order.
pub fn load_atoms(lines: &Vec<Vec<u8>>) -> (r: Result<Vec<Atom>, PdbError>)
    ensures
        match r {
            Ok(atoms) => load_spec(lines_view(lines@)) == Ok::<Seq<AtomView>, PdbError>(
                atoms_view(atoms@),
            ) && all_wf(atoms_view(atoms@)),
            Err(e) => load_spec(lines_view(lines@)) == Err::<Seq<AtomView>, PdbError>(e),
        },
{
    let ghost all = lines_view(lines@);
    let mut atoms: Vec<Atom> = Vec::new();
    let mut i: usize = 0;
    assert(atoms_view(atoms@) =~= Seq::empty());
    while i < lines.len()
        invariant
            i <= lines@.len(),
            all == lines_view(lines@),
            load_spec(all.subrange(0, i as int)) == Ok::<Seq<AtomView>, PdbError>(
                atoms_view(atoms@),
            ),
            all_wf(atoms_view(atoms@)),
        decreases lines@.len() - i,
    {
        let line = lines[i].as_slice();
        assert(all.subrange(0, i + 1).drop_last() =~= all.subrange(0, i as int));
        assert(all.subrange(0, i + 1).last() == line@);
        if is_atom_line(line) {
            match parse_atom_record(line) {
                Ok(a) => {
                    let ghost before = atoms@;
                    atoms.push(a);
                    assert(atoms_view(atoms@) =~= atoms_view(before).push(a@));
                },
                Err(e) => {
                    proof {
                        lemma_load_error_stays(all, i + 1);
                        assert(all.subrange(0, all.len() as int) =~= all);
                    }
                    return Err(e);
                },
            }
        }
        i = i + 1;
    }
    assert(all.subrange(0, i as int) =~= all);
    Ok(atoms)
}

} // verus!
