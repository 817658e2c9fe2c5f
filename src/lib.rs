//! Turns atom records into a weighted proximity graph: two atoms are joined
//! when they stand closer than a cutoff scaled from their covalent radii.
//!
//! [`structure::load_atoms`] reads the atoms, [`graph::build_graph`] joins
//! them, and [`convert::convert`] does both.
pub mod atom;
pub mod convert;
pub mod error;
pub mod graph;
pub mod radii;
pub mod record;
pub mod structure;
pub mod text;
