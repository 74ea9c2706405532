//! Layout data for a planar field display: the fixed lattice of sample
//! points and the starting placement of the field sources.

pub mod grid;
pub mod sources;
