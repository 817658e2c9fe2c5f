//! Atoms: a position and an element symbol.
//!
//! Coordinates are whole numbers of milliångström (thousandths of an
//! ångström), as written with three decimals in atom records.
use vstd::prelude::*;

verus! {

/// Every coordinate of a well-formed atom is strictly between
/// `-COORD_LIMIT` and `COORD_LIMIT`; an eight-column field cannot write more.
pub const COORD_LIMIT: i64 = 100_000_000_000;

/// One atom, as read from one atom record.
#[derive(Debug)]
pub struct Atom {
    pub x: i64,
    pub y: i64,
    pub z: i64,
    /// The trimmed element symbol, byte for byte.
    pub element: Vec<u8>,
}

/// The mathematical value of an [`Atom`].
pub struct AtomView {
    pub x: int,
    pub y: int,
    pub z: int,
    pub element: Seq<u8>,
}

impl View for Atom {
    type V = AtomView;

    open spec fn view(&self) -> AtomView {
        AtomView { x: self.x as int, y: self.y as int, z: self.z as int, element: self.element@ }
    }
}

impl AtomView {
    pub open spec fn wf(self) -> bool {
        -COORD_LIMIT < self.x < COORD_LIMIT && -COORD_LIMIT < self.y < COORD_LIMIT
            && -COORD_LIMIT < self.z < COORD_LIMIT
    }
}

/// The view of each atom of `atoms`, in order.
pub open spec fn atoms_view(atoms: Seq<Atom>) -> Seq<AtomView> {
    atoms.map_values(|a: Atom| a@)
}

/// Every atom of `atoms` is well formed.
pub open spec fn all_wf(atoms: Seq<AtomView>) -> bool {
    forall|k: int| 0 <= k < atoms.len() ==> (#[trigger] atoms[k]).wf()
}

} // verus!
