//! The spawn sampler: a bounded random set of seed coordinates.
//!
//! Each axis gets a start value `center - distance / 2`, clamped into
//! `[-HALF_GAME, HALF_GAME]`; the sampler then draws independent uniform
//! integer coordinates from `[start, start + distance)` per axis, so the
//! points fill a clamped axis-aligned cube.

use vstd::prelude::*;
use rand::Rng;
use crate::codec::HALF_GAME;

verus! {

/// Per-axis start of the sampling cube: the center shifted down by half
/// the extent, truncated to the lattice boundary when it falls outside.
pub open spec fn axis_start(center: int, distance: int) -> int {
    let raw = center - distance / 2;
    if raw < -(HALF_GAME as int) {
        -(HALF_GAME as int)
    } else if raw > HALF_GAME as int {
        HALF_GAME as int
    } else {
        raw
    }
}

/// Relies on rand::Rng::gen_range on the thread-local generator: it
/// returns a value of the given half-open range, and panics only when the
/// range is empty, which the precondition rules out. Nothing more is
/// assumed of the draw, so every caller must hold for every value of the
/// range.
#[verifier::external_body]
fn random_in_range(low: i32, high: i32) -> (r: i32)
    requires
        low < high,
    ensures
        low <= r < high,
{
    rand::thread_rng().gen_range(low..high)
}

/// Compute one axis start: `center - distance / 2`, clamped into
/// `[-HALF_GAME, HALF_GAME]`.
fn clamp_start(center: i32, distance: i32) -> (r: i32)
    requires
        distance >= 1,
    ensures
        r as int == axis_start(center as int, distance as int),
        -(HALF_GAME as int) <= r as int <= HALF_GAME as int,
{
    let raw: i64 = center as i64 - (distance as i64) / 2;
    if raw < -(HALF_GAME as i64) {
        -HALF_GAME
    } else if raw > HALF_GAME as i64 {
        HALF_GAME
    } else {
        raw as i32
    }
}

/// Draw exactly `points` independent random coordinates, each axis uniform
/// over `[axis_start, axis_start + distance)` for its clamped start.
pub fn create_random_spawn_points(points: usize, center: (i32, i32, i32), distance: i32) -> (r:
    Vec<(i32, i32, i32)>)
    requires
        1 <= distance,
        distance <= i32::MAX - HALF_GAME,
    ensures
        r@.len() == points,
        forall|j: int| #![auto]
            0 <= j < r@.len() ==> axis_start(center.0 as int, distance as int) <= r@[j].0 as int
                && (r@[j].0 as int) < axis_start(center.0 as int, distance as int) + distance,
        forall|j: int| #![auto]
            0 <= j < r@.len() ==> axis_start(center.1 as int, distance as int) <= r@[j].1 as int
                && (r@[j].1 as int) < axis_start(center.1 as int, distance as int) + distance,
        forall|j: int| #![auto]
            0 <= j < r@.len() ==> axis_start(center.2 as int, distance as int) <= r@[j].2 as int
                && (r@[j].2 as int) < axis_start(center.2 as int, distance as int) + distance,
{
    let x_start = clamp_start(center.0, distance);
    let y_start = clamp_start(center.1, distance);
    let z_start = clamp_start(center.2, distance);
    let mut out: Vec<(i32, i32, i32)> = Vec::new();
    let mut n: usize = 0;
    while n < points
        invariant
            n <= points,
            out@.len() == n,
            1 <= distance,
            distance <= i32::MAX - HALF_GAME,
            x_start as int == axis_start(center.0 as int, distance as int),
            y_start as int == axis_start(center.1 as int, distance as int),
            z_start as int == axis_start(center.2 as int, distance as int),
            -(HALF_GAME as int) <= x_start as int <= HALF_GAME as int,
            -(HALF_GAME as int) <= y_start as int <= HALF_GAME as int,
            -(HALF_GAME as int) <= z_start as int <= HALF_GAME as int,
            forall|j: int| #![auto]
                0 <= j < out@.len() ==> x_start as int <= out@[j].0 as int && (out@[j].0 as int)
                    < x_start as int + distance,
            forall|j: int| #![auto]
                0 <= j < out@.len() ==> y_start as int <= out@[j].1 as int && (out@[j].1 as int)
                    < y_start as int + distance,
            forall|j: int| #![auto]
                0 <= j < out@.len() ==> z_start as int <= out@[j].2 as int && (out@[j].2 as int)
                    < z_start as int + distance,
        decreases points - n,
    {
        let x = random_in_range(x_start, x_start + distance);
        let y = random_in_range(y_start, y_start + distance);
        let z = random_in_range(z_start, z_start + distance);
        out.push((x, y, z));
        n = n + 1;
    }
    out
}

} // verus!
