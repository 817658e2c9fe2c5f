//! The whole conversion: atom records in, edges out.
use vstd::prelude::*;
use crate::error::PdbError;
use crate::graph::{build_graph, build_spec, edges_view, Edge, EdgeView};
use crate::structure::{lines_view, load_atoms, load_spec};
use crate::text::{decimal_milli, milli_of, trim, trimmed_bounds};

verus! {

/// The scaling factor used where none is given: 2.5, in thousandths.
pub const DEFAULT_SCALE: u32 = 2500;

/// The longest scaling factor text, once trimmed, that is read.
pub const MAX_SCALE_TEXT: usize = 15;

/// The scaling factor that `text` writes, in thousandths: a non-negative
/// decimal with at most three digits after the point.
pub open spec fn scale_of(text: Seq<u8>) -> Option<int> {
    let t = trim(text);
    if t.len() <= MAX_SCALE_TEXT {
        match milli_of(t) {
            Some(v) => if 0 <= v <= u32::MAX {
                Some(v)
            } else {
                None
            },
            None => None,
        }
    } else {
        None
    }
}

/// The edges of the structure that `lines` describe, or the first error.
pub open spec fn convert_spec(lines: Seq<Seq<u8>>, scale: int) -> Result<Seq<EdgeView>, PdbError> {
    match load_spec(lines) {
        Ok(atoms) => build_spec(atoms, scale),
        Err(e) => Err(e),
    }
}

/// Reads a scaling factor, in thousandths (`"2.5"` gives `2500`).
pub fn parse_scale(text: &[u8]) -> (r: Option<u32>)
    ensures
        match r {
            Some(v) => scale_of(text@) == Some(v as int),
            None => scale_of(text@) is None,
        },
{
    let (a, b) = trimmed_bounds(text, 0, text.len());
    proof {
        assert(text@.subrange(0, text@.len() as int) =~= text@);
    }
    if b - a > MAX_SCALE_TEXT {
        return None;
    }
    match decimal_milli(text, a, b) {
        Some(v) => {
            if 0 <= v && v <= 4_294_967_295 {
                Some(v as u32)
            } else {
                None
            }
        },
        None => None,
    }
}

/// Loads the atoms of `lines` and builds their graph, for a scaling factor in
/// thousandths.
pub fn convert(lines: &Vec<Vec<u8>>, scale: u32) -> (r: Result<Vec<Edge>, PdbError>)
    ensures
        match r {
            Ok(edges) => convert_spec(lines_view(lines@), scale as int) == Ok::<
                Seq<EdgeView>,
                PdbError,
            >(edges_view(edges@)),
            Err(e) => convert_spec(lines_view(lines@), scale as int) == Err::<
                Seq<EdgeView>,
                PdbError,
            >(e),
        },
{
    match load_atoms(lines) {
        Ok(atoms) => build_graph(&atoms, scale),
        Err(e) => Err(e),
    }
}

/// The conversion is a function of the lines and the scaling factor alone:
/// the same input gives the same edges, in the same order, every time.
pub proof fn lemma_convert_repeatable(a: Seq<Seq<u8>>, b: Seq<Seq<u8>>, scale: int)
    requires
        a == b,
    ensures
        convert_spec(a, scale) == convert_spec(b, scale),
{
}

} // verus!
