//! The ways a conversion can fail.
use vstd::prelude::*;

verus! {

#[derive(Clone, Copy, Debug, PartialEq, Eq, Structural)]
pub enum PdbError {
    /// The line does not start with the `ATOM` tag.
    NotAnAtomRecord,
    /// An `ATOM` line is too short for its columns, or a coordinate is not a
    /// decimal number.
    MalformedRecord,
    /// An atom's element symbol is not in the radius table.
    UnknownElement,
}

} // verus!
