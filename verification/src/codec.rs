//! Bidirectional mapping between 3D cell coordinates and flat lattice indices.
//!
//! The lattice is a cube of side `GAME_SIZE` centered at the origin: a cell
//! coordinate is valid on an axis when it lies in `[-HALF_GAME, HALF_GAME)`.
//! Encoding shifts each axis by `+HALF_GAME` and combines the axes as
//! `x + GAME_SIZE * y + GAME_SIZE^2 * z`; decoding inverts this with division
//! and remainder. The mapping is a bijection between in-bounds coordinates
//! and indices below `LATTICE_LEN`.

use vstd::prelude::*;
use vstd::arithmetic::div_mod::{
    lemma_div_denominator, lemma_div_is_ordered, lemma_div_pos_is_pos,
    lemma_fundamental_div_mod, lemma_fundamental_div_mod_converse_div,
    lemma_fundamental_div_mod_converse_mod,
};

verus! {

/// Side length of the cubic lattice, in cells.
pub const GAME_SIZE: i32 = 50;

/// Half the side length: coordinates run over `[-HALF_GAME, HALF_GAME)`.
pub const HALF_GAME: i32 = 25;

/// The side length squared, the stride of one layer of the lattice.
pub const GAME_SIZE_SQ: i32 = 2500;

/// Total number of cells in the lattice, the side length cubed.
pub const LATTICE_LEN: usize = 125000;

/// A coordinate fell outside the lattice on some axis.
#[derive(Clone, Copy, PartialEq, Eq, Structural, Debug)]
pub struct BoundsViolation;

/// A cell coordinate is inside the lattice on one axis.
pub open spec fn in_bounds(c: int) -> bool {
    -(HALF_GAME as int) <= c < HALF_GAME as int
}

/// The flat lattice index of the cell at coordinate `(x, y, z)`.
pub open spec fn index_of(x: int, y: int, z: int) -> int {
    (x + HALF_GAME as int) + (GAME_SIZE as int) * (y + HALF_GAME as int) + (GAME_SIZE_SQ as int)
        * (z + HALF_GAME as int)
}

/// The x coordinate of the cell at flat index `i`.
pub open spec fn x_of(i: int) -> int {
    i % (GAME_SIZE as int) - HALF_GAME as int
}

/// The y coordinate of the cell at flat index `i`.
pub open spec fn y_of(i: int) -> int {
    (i / (GAME_SIZE as int)) % (GAME_SIZE as int) - HALF_GAME as int
}

/// The z coordinate of the cell at flat index `i`.
pub open spec fn z_of(i: int) -> int {
    i / (GAME_SIZE_SQ as int) - HALF_GAME as int
}

/// Encode a cell coordinate as a flat lattice index, rejecting coordinates
/// outside the lattice instead of producing an out-of-range index.
pub fn convert_loc_to_index(x: i32, y: i32, z: i32) -> (r: Result<usize, BoundsViolation>)
    ensures
        r is Ok <==> (in_bounds(x as int) && in_bounds(y as int) && in_bounds(z as int)),
        r is Ok ==> r->Ok_0 == index_of(x as int, y as int, z as int),
        r is Ok ==> r->Ok_0 < LATTICE_LEN,
{
    if x < -HALF_GAME || x >= HALF_GAME || y < -HALF_GAME || y >= HALF_GAME || z < -HALF_GAME
        || z >= HALF_GAME {
        return Err(BoundsViolation);
    }
    let sx = (x + HALF_GAME) as usize;
    let sy = (y + HALF_GAME) as usize;
    let sz = (z + HALF_GAME) as usize;
    proof {
        assert((GAME_SIZE as usize) * sy == 50 * (sy as int));
        assert((GAME_SIZE_SQ as usize) * sz == 2500 * (sz as int));
    }
    Ok(sx + (GAME_SIZE as usize) * sy + (GAME_SIZE_SQ as usize) * sz)
}

/// Decode a flat lattice index back into the cell coordinate it encodes.
pub fn convert_index_to_loc(index: usize) -> (r: (i32, i32, i32))
    requires
        index < LATTICE_LEN,
    ensures
        r.0 == x_of(index as int),
        r.1 == y_of(index as int),
        r.2 == z_of(index as int),
        in_bounds(r.0 as int),
        in_bounds(r.1 as int),
        in_bounds(r.2 as int),
{
    proof {
        lemma_div_is_ordered(index as int, LATTICE_LEN as int - 1, GAME_SIZE_SQ as int);
        lemma_div_pos_is_pos(index as int, GAME_SIZE_SQ as int);
    }
    let x = (index % (GAME_SIZE as usize)) as i32 - HALF_GAME;
    let y = ((index / (GAME_SIZE as usize)) % (GAME_SIZE as usize)) as i32 - HALF_GAME;
    let z = (index / (GAME_SIZE_SQ as usize)) as i32 - HALF_GAME;
    (x, y, z)
}

/// An in-bounds coordinate encodes to an index inside the lattice.
pub proof fn lemma_index_of_in_range(x: int, y: int, z: int)
    requires
        in_bounds(x),
        in_bounds(y),
        in_bounds(z),
    ensures
        0 <= index_of(x, y, z) < LATTICE_LEN,
{
}

/// Round trip at cell granularity: decoding the index of an in-bounds cell
/// coordinate recovers exactly that coordinate.
pub proof fn lemma_loc_index_roundtrip(x: int, y: int, z: int)
    requires
        in_bounds(x),
        in_bounds(y),
        in_bounds(z),
    ensures
        x_of(index_of(x, y, z)) == x,
        y_of(index_of(x, y, z)) == y,
        z_of(index_of(x, y, z)) == z,
{
    let g = GAME_SIZE as int;
    let h = HALF_GAME as int;
    let i = index_of(x, y, z);
    let q = (y + h) + g * (z + h);
    assert(q * g == 50 * (y + h) + 2500 * (z + h)) by (nonlinear_arith)
        requires
            g == 50,
            q == (y + h) + g * (z + h),
    ;
    assert(i == q * g + (x + h));
    lemma_fundamental_div_mod_converse_mod(i, g, q, x + h);
    lemma_fundamental_div_mod_converse_div(i, g, q, x + h);
    assert((z + h) * g == 50 * (z + h)) by (nonlinear_arith)
        requires
            g == 50,
    ;
    assert(q == (z + h) * g + (y + h));
    lemma_fundamental_div_mod_converse_mod(q, g, z + h, y + h);
    lemma_fundamental_div_mod_converse_div(q, g, z + h, y + h);
    lemma_index_of_in_range(x, y, z);
    lemma_div_denominator(i, g, g);
    assert(i / (GAME_SIZE_SQ as int) == (i / g) / g);
}

/// The inverse round trip: every index inside the lattice decodes to an
/// in-bounds coordinate which encodes back to the same index.
pub proof fn lemma_index_loc_roundtrip(i: int)
    requires
        0 <= i < LATTICE_LEN,
    ensures
        in_bounds(x_of(i)),
        in_bounds(y_of(i)),
        in_bounds(z_of(i)),
        index_of(x_of(i), y_of(i), z_of(i)) == i,
{
    let g = GAME_SIZE as int;
    lemma_fundamental_div_mod(i, g);
    lemma_div_pos_is_pos(i, g);
    lemma_fundamental_div_mod(i / g, g);
    lemma_div_denominator(i, g, g);
    lemma_div_is_ordered(i, LATTICE_LEN as int - 1, g);
    lemma_div_is_ordered(i / g, (LATTICE_LEN as int - 1) / g, g);
    lemma_div_pos_is_pos(i / g, g);
}

} // verus!
