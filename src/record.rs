//! Fixed-column atom records.
//!
//! An atom record is a line that starts with `ATOM`. Its coordinates stand in
//! three eight-column fields and its element symbol in a two-column field;
//! the offsets below are 0-based and half-open.
use vstd::prelude::*;
use crate::atom::{Atom, AtomView, COORD_LIMIT};
use crate::error::PdbError;
use crate::text::{decimal_milli, lemma_pow10_monotone, milli_of, pow10, trim, trimmed_bounds};

verus! {

pub const X_START: usize = 30;
pub const X_END: usize = 38;
pub const Y_START: usize = 38;
pub const Y_END: usize = 46;
pub const Z_START: usize = 46;
pub const Z_END: usize = 54;
pub const ELEMENT_START: usize = 76;
pub const ELEMENT_END: usize = 78;

/// Whether `line` starts with the tag `ATOM`.
pub open spec fn is_atom_record(line: Seq<u8>) -> bool {
    line.len() >= 4 && line[0] == 65 && line[1] == 84 && line[2] == 79 && line[3] == 77
}

/// The coordinate, in milliångström, written in columns `lo..hi` of `line`.
pub open spec fn coordinate_field(line: Seq<u8>, lo: int, hi: int) -> Option<int> {
    milli_of(trim(line.subrange(lo, hi)))
}

/// What an atom record holds, or why `line` is not one.
pub open spec fn parse_record(line: Seq<u8>) -> Result<AtomView, PdbError> {
    if !is_atom_record(line) {
        Err(PdbError::NotAnAtomRecord)
    } else if line.len() < ELEMENT_END {
        Err(PdbError::MalformedRecord)
    } else {
        match (
            coordinate_field(line, X_START as int, X_END as int),
            coordinate_field(line, Y_START as int, Y_END as int),
            coordinate_field(line, Z_START as int, Z_END as int),
        ) {
            (Some(x), Some(y), Some(z)) => Ok(
                AtomView {
                    x,
                    y,
                    z,
                    element: trim(line.subrange(ELEMENT_START as int, ELEMENT_END as int)),
                },
            ),
            _ => Err(PdbError::MalformedRecord),
        }
    }
}

/// Whether `line` starts with the tag `ATOM`.
pub fn is_atom_line(line: &[u8]) -> (r: bool)
    ensures
        r == is_atom_record(line@),
{
    line.len() >= 4 && line[0] == 65 && line[1] == 84 && line[2] == 79 && line[3] == 77
}

/// Reads the coordinate in columns `lo..hi` of `line`, an eight-column field.
fn coordinate(line: &[u8], lo: usize, hi: usize) -> (r: Option<i64>)
    requires
        lo <= hi <= line@.len(),
        hi - lo == 8,
    ensures
        match r {
            Some(v) => coordinate_field(line@, lo as int, hi as int) == Some(v as int) && -COORD_LIMIT
                < v < COORD_LIMIT,
            None => coordinate_field(line@, lo as int, hi as int) is None,
        },
{
    let (a, b) = trimmed_bounds(line, lo, hi);
    let r = decimal_milli(line, a, b);
    proof {
        lemma_pow10_monotone((b - a) as nat, 8);
        reveal_with_fuel(pow10, 9);
    }
    r
}

/// Parses one atom record: its three coordinates and its element symbol.
/// The symbol is trimmed but not checked against the radius table here.
pub fn parse_atom_record(line: &[u8]) -> (r: Result<Atom, PdbError>)
    ensures
        match r {
            Ok(a) => parse_record(line@) == Ok::<AtomView, PdbError>(a@) && a@.wf(),
            Err(e) => parse_record(line@) == Err::<AtomView, PdbError>(e),
        },
{
    if !is_atom_line(line) {
        return Err(PdbError::NotAnAtomRecord);
    }
    if line.len() < ELEMENT_END {
        return Err(PdbError::MalformedRecord);
    }
    let x = match coordinate(line, X_START, X_END) {
        Some(v) => v,
        None => return Err(PdbError::MalformedRecord),
    };
    let y = match coordinate(line, Y_START, Y_END) {
        Some(v) => v,
        None => return Err(PdbError::MalformedRecord),
    };
    let z = match coordinate(line, Z_START, Z_END) {
        Some(v) => v,
        None => return Err(PdbError::MalformedRecord),
    };
    let (a, b) = trimmed_bounds(line, ELEMENT_START, ELEMENT_END);
    let mut element: Vec<u8> = Vec::new();
    let mut i: usize = a;
    while i < b
        invariant
            a <= i <= b <= line@.len(),
            element@ == line@.subrange(a as int, i as int),
        decreases b - i,
    {
        element.push(line[i]);
        i = i + 1;
        assert(element@ =~= line@.subrange(a as int, i as int));
    }
    Ok(Atom { x, y, z, element })
}

} // verus!
