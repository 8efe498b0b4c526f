//! Cartesian and Quadray (IVM) vectors, the exact transform between them, and
//! tetrahedron volumes computed from edge lengths.
pub mod vlib;
pub mod tetrahedron;
