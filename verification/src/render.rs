//! Projection of live cells into positioned point records.
//!
//! Every live cell yields one record, in flat index order: its decoded
//! coordinate together with its Chebyshev distance from the origin (the
//! largest coordinate magnitude). An external renderer scales that distance
//! by the lattice half-width and blends the cell's color from it; those
//! floating-point steps, the fixed unit scale and the fixed alpha stay with
//! the renderer, which replaces the whole record list every generation.

use vstd::prelude::*;
use vstd::math::abs;
use crate::codec::{convert_index_to_loc, x_of, y_of, z_of, LATTICE_LEN};
use crate::lattice::Lattice;

verus! {

/// One live cell, decoded for rendering: its cell coordinate and its
/// Chebyshev distance from the origin.
#[derive(Clone, Copy, PartialEq, Eq, Structural, Debug)]
pub struct RenderPoint {
    pub x: i32,
    pub y: i32,
    pub z: i32,
    pub distance: u32,
}

/// Chebyshev distance of a coordinate from the origin: the largest
/// magnitude among its axes.
pub open spec fn chebyshev(x: int, y: int, z: int) -> int {
    let ax = abs(x) as int;
    let ay = abs(y) as int;
    let az = abs(z) as int;
    if ax >= ay && ax >= az {
        ax
    } else if ay >= az {
        ay
    } else {
        az
    }
}

/// The render record of the cell at flat index `i`.
pub open spec fn point_at(i: int) -> RenderPoint {
    RenderPoint {
        x: x_of(i) as i32,
        y: y_of(i) as i32,
        z: z_of(i) as i32,
        distance: chebyshev(x_of(i), y_of(i), z_of(i)) as u32,
    }
}

/// Render records of the live cells among the first `n` lattice indices,
/// in index order.
pub open spec fn render_prefix(s: Seq<bool>, n: int) -> Seq<RenderPoint>
    decreases n,
{
    if n <= 0 {
        Seq::empty()
    } else if s[n - 1] {
        render_prefix(s, n - 1).push(point_at(n - 1))
    } else {
        render_prefix(s, n - 1)
    }
}

/// Render records of all live cells of the lattice, in index order.
pub open spec fn render_points_of(s: Seq<bool>) -> Seq<RenderPoint> {
    render_prefix(s, LATTICE_LEN as int)
}

/// Build one render record per live cell, in flat index order, each with
/// its decoded coordinate and Chebyshev distance from the origin.
pub fn create_render_points(cell_locations: &Lattice) -> (r: Vec<RenderPoint>)
    requires
        cell_locations.wf(),
    ensures
        r@ == render_points_of(cell_locations@),
{
    let mut out: Vec<RenderPoint> = Vec::new();
    let mut i: usize = 0;
    while i < LATTICE_LEN
        invariant
            i <= LATTICE_LEN,
            cell_locations.wf(),
            out@ == render_prefix(cell_locations@, i as int),
        decreases LATTICE_LEN - i,
    {
        if cell_locations.is_live(i) {
            let (x, y, z) = convert_index_to_loc(i);
            let ax = if x < 0 {
                -x
            } else {
                x
            };
            let ay = if y < 0 {
                -y
            } else {
                y
            };
            let az = if z < 0 {
                -z
            } else {
                z
            };
            let d = if ax >= ay && ax >= az {
                ax
            } else if ay >= az {
                ay
            } else {
                az
            };
            out.push(RenderPoint { x, y, z, distance: d as u32 });
            proof {
                assert(out@.last() == point_at(i as int));
                assert(out@ =~= render_prefix(cell_locations@, i as int + 1));
            }
        }
        i = i + 1;
    }
    out
}

} // verus!
