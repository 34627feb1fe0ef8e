//! A three-dimensional cellular automaton over a fixed cubic lattice.
//!
//! The lattice is a cube of side [`codec::GAME_SIZE`] centered at the origin,
//! stored as a flat vector of cell states. Each generation, every cell is
//! classified against a rule table by its count of live neighbors, and the
//! transitions are applied only after the whole lattice has been scanned, so
//! that all cells advance simultaneously. The live cells can be projected
//! into positioned point records for rendering, and a random sampler
//! produces seed coordinates for the initial population.

pub mod codec;
pub mod engine;
pub mod lattice;
pub mod neighbors;
pub mod render;
pub mod rule;
pub mod seed;
pub mod spawn;
