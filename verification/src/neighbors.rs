//! Counting live cells among the 26 neighbors of a lattice cell.
//!
//! The 27 offsets of `{-1, 0, 1}^3` are numbered x-fastest by a flat code
//! in `[0, 27)`; code 13 is the zero offset and is skipped, leaving 26
//! neighbor offsets. An offset whose target's coordinate magnitude reaches
//! half the side on any axis is omitted entirely — no wraparound, no
//! reflection, no virtual padding — so boundary cells see fewer than 26
//! candidates. The magnitude test is an intentional edge policy: the cells
//! at coordinate `-HALF_GAME` exist in the lattice and get their own
//! neighbor counts, but they are never read as neighbors of other cells.

use vstd::prelude::*;
use vstd::arithmetic::div_mod::lemma_div_is_ordered;
use crate::codec::{
    convert_index_to_loc, convert_loc_to_index, in_bounds, index_of, lemma_index_of_in_range,
    x_of, y_of, z_of, HALF_GAME, LATTICE_LEN,
};
use crate::lattice::Lattice;

verus! {

/// Flat code of the k-th neighbor offset, skipping the zero offset at 13.
pub open spec fn offset_code(k: int) -> int {
    if k < 13 {
        k
    } else {
        k + 1
    }
}

/// The x component of the k-th neighbor offset.
pub open spec fn delta_x(k: int) -> int {
    offset_code(k) % 3 - 1
}

/// The y component of the k-th neighbor offset.
pub open spec fn delta_y(k: int) -> int {
    (offset_code(k) / 3) % 3 - 1
}

/// The z component of the k-th neighbor offset.
pub open spec fn delta_z(k: int) -> int {
    offset_code(k) / 9 - 1
}

/// A coordinate may be read as a neighbor: its magnitude stays strictly
/// below half the side. Stricter than the lattice bounds on the low side,
/// so the cells at coordinate `-HALF_GAME` are never counted as neighbors.
pub open spec fn neighbor_in_range(c: int) -> bool {
    -(HALF_GAME as int) < c < HALF_GAME as int
}

/// Contribution of the k-th offset to the live-neighbor count of the cell
/// at `(x, y, z)`: 1 when the target passes the magnitude test on every
/// axis and is live, 0 otherwise (skipped targets contribute nothing).
pub open spec fn neighbor_contrib(s: Seq<bool>, x: int, y: int, z: int, k: int) -> int {
    let nx = x + delta_x(k);
    let ny = y + delta_y(k);
    let nz = z + delta_z(k);
    if neighbor_in_range(nx) && neighbor_in_range(ny) && neighbor_in_range(nz) && s[index_of(
        nx,
        ny,
        nz,
    )] {
        1int
    } else {
        0int
    }
}

/// Live cells among the targets of the first `n` neighbor offsets.
pub open spec fn neighbor_count_prefix(s: Seq<bool>, x: int, y: int, z: int, n: int) -> int
    decreases n,
{
    if n <= 0 {
        0
    } else {
        neighbor_count_prefix(s, x, y, z, n - 1) + neighbor_contrib(s, x, y, z, n - 1)
    }
}

/// Number of live cells among the up-to-26 in-lattice neighbors of the
/// cell at `(x, y, z)`.
pub open spec fn live_neighbor_count(s: Seq<bool>, x: int, y: int, z: int) -> int {
    neighbor_count_prefix(s, x, y, z, 26)
}

/// On an all-dead lattice every neighbor contribution is zero.
pub proof fn lemma_count_prefix_all_dead(s: Seq<bool>, x: int, y: int, z: int, n: int)
    requires
        s.len() == LATTICE_LEN,
        forall|j: int| 0 <= j < s.len() ==> !s[j],
        n >= 0,
    ensures
        neighbor_count_prefix(s, x, y, z, n) == 0,
    decreases n,
{
    if n > 0 {
        lemma_count_prefix_all_dead(s, x, y, z, n - 1);
        let nx = x + delta_x(n - 1);
        let ny = y + delta_y(n - 1);
        let nz = z + delta_z(n - 1);
        if neighbor_in_range(nx) && neighbor_in_range(ny) && neighbor_in_range(nz) {
            lemma_index_of_in_range(nx, ny, nz);
            assert(!s[index_of(nx, ny, nz)]);
        }
    }
}

/// The k-th neighbor offset passes the magnitude test on all three axes.
pub open spec fn offset_stays(x: int, y: int, z: int, k: int) -> bool {
    neighbor_in_range(x + delta_x(k)) && neighbor_in_range(y + delta_y(k)) && neighbor_in_range(
        z + delta_z(k),
    )
}

/// Number of in-range neighbor candidates among the first `n` offsets.
pub open spec fn stays_prefix(x: int, y: int, z: int, n: int) -> int
    decreases n,
{
    if n <= 0 {
        0
    } else {
        stays_prefix(x, y, z, n - 1) + if offset_stays(x, y, z, n - 1) {
            1int
        } else {
            0int
        }
    }
}

/// The live-neighbor count never exceeds the number of in-range
/// candidates, and reaches it exactly when every cell is live.
pub proof fn lemma_count_vs_candidates(s: Seq<bool>, x: int, y: int, z: int, n: int)
    requires
        s.len() == LATTICE_LEN,
        n >= 0,
    ensures
        neighbor_count_prefix(s, x, y, z, n) <= stays_prefix(x, y, z, n),
        (forall|j: int| 0 <= j < s.len() ==> s[j]) ==> neighbor_count_prefix(s, x, y, z, n)
            == stays_prefix(x, y, z, n),
    decreases n,
{
    if n > 0 {
        lemma_count_vs_candidates(s, x, y, z, n - 1);
        let nx = x + delta_x(n - 1);
        let ny = y + delta_y(n - 1);
        let nz = z + delta_z(n - 1);
        if neighbor_in_range(nx) && neighbor_in_range(ny) && neighbor_in_range(nz) {
            lemma_index_of_in_range(nx, ny, nz);
        }
    }
}

/// A cell no offset of which reaches the boundary magnitude has all 26
/// candidates, so on an all-live lattice its neighbor count is exactly 26.
pub proof fn lemma_interior_sees_26(s: Seq<bool>, x: int, y: int, z: int)
    requires
        s.len() == LATTICE_LEN,
        forall|j: int| 0 <= j < s.len() ==> s[j],
        neighbor_in_range(x - 1) && neighbor_in_range(x + 1),
        neighbor_in_range(y - 1) && neighbor_in_range(y + 1),
        neighbor_in_range(z - 1) && neighbor_in_range(z + 1),
    ensures
        live_neighbor_count(s, x, y, z) == 26,
{
    lemma_count_vs_candidates(s, x, y, z, 26);
    assert(stays_prefix(x, y, z, 26) == 26) by {
        reveal_with_fuel(stays_prefix, 27);
    }
}

/// Boundary omission at a corner cell: at most 7 of the 26 offsets pass
/// the magnitude test (exactly 7 at the high corner; the low corner keeps
/// a single candidate, since coordinate `-HALF_GAME` itself is skipped),
/// so the neighbor count is at most 7 whatever the lattice holds.
pub proof fn lemma_corner_sees_at_most_7(s: Seq<bool>, x: int, y: int, z: int)
    requires
        s.len() == LATTICE_LEN,
        x == -(HALF_GAME as int) || x == HALF_GAME as int - 1,
        y == -(HALF_GAME as int) || y == HALF_GAME as int - 1,
        z == -(HALF_GAME as int) || z == HALF_GAME as int - 1,
    ensures
        live_neighbor_count(s, x, y, z) <= 7,
{
    lemma_count_vs_candidates(s, x, y, z, 26);
    assert(stays_prefix(x, y, z, 26) <= 7) by {
        reveal_with_fuel(stays_prefix, 27);
    }
}

/// Count the live neighbors of the cell at flat index `index`, skipping
/// every offset whose target's coordinate magnitude reaches half the side
/// on some axis.
pub fn count_neighbors(cell_locations: &Lattice, index: usize) -> (n: u32)
    requires
        cell_locations.wf(),
        index < LATTICE_LEN,
    ensures
        n == live_neighbor_count(
            cell_locations@,
            x_of(index as int),
            y_of(index as int),
            z_of(index as int),
        ),
        n <= 26,
{
    let (x, y, z) = convert_index_to_loc(index);
    let mut count: u32 = 0;
    let mut k: usize = 0;
    while k < 26
        invariant
            k <= 26,
            count <= k,
            cell_locations.wf(),
            x == x_of(index as int),
            y == y_of(index as int),
            z == z_of(index as int),
            in_bounds(x as int),
            in_bounds(y as int),
            in_bounds(z as int),
            count == neighbor_count_prefix(cell_locations@, x as int, y as int, z as int, k as int),


        decreases 26 - k,
    {
        let code: usize = if k < 13 {
            k
        } else {
            k + 1
        };
        proof {
            lemma_div_is_ordered(code as int, 26, 3);
            lemma_div_is_ordered(code as int, 26, 9);
        }
        let dx = (code % 3) as i32 - 1;
        let dy = ((code / 3) % 3) as i32 - 1;
        let dz = (code / 9) as i32 - 1;
        let nx = x + dx;
        let ny = y + dy;
        let nz = z + dz;
        let skip = nx <= -HALF_GAME || nx >= HALF_GAME || ny <= -HALF_GAME || ny >= HALF_GAME
            || nz <= -HALF_GAME || nz >= HALF_GAME;
        if !skip {
            match convert_loc_to_index(nx, ny, nz) {
                Ok(neighbor_index) => {
                    if cell_locations.is_live(neighbor_index) {
                        count = count + 1;
                    }
                },
                Err(_) => {
                    proof {
                        assert(false);
                    }
                },
            }
        }
        k = k + 1;
    }
    count
}

} // verus!
