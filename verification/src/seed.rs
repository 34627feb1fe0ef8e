//! Seeding the lattice with an initial live population.
//!
//! A list of sampled coordinates is first validated against the lattice
//! bounds as a whole — a single out-of-range coordinate rejects the list
//! and leaves the lattice untouched — and only then applied, marking each
//! listed cell live.

use vstd::prelude::*;
use crate::codec::{
    convert_loc_to_index, in_bounds, index_of, lemma_loc_index_roundtrip, x_of, y_of, z_of,
    BoundsViolation, HALF_GAME, LATTICE_LEN,
};
use crate::lattice::Lattice;
use crate::spawn::{axis_start, create_random_spawn_points};

verus! {

/// Every coordinate of the list lies inside the lattice on all three axes.
pub open spec fn all_in_bounds(points: Seq<(i32, i32, i32)>) -> bool {
    forall|j: int|
        0 <= j < points.len() ==> in_bounds(#[trigger] points[j].0 as int) && in_bounds(
            points[j].1 as int,
        ) && in_bounds(points[j].2 as int)
}

/// Some coordinate among the first `n` of the list encodes to index `i`.
pub open spec fn seeded_before(points: Seq<(i32, i32, i32)>, n: int, i: int) -> bool {
    exists|j: int|
        0 <= j < n && index_of(points[j].0 as int, points[j].1 as int, points[j].2 as int) == i
}

/// Some coordinate of the list encodes to index `i`.
pub open spec fn seeds_index(points: Seq<(i32, i32, i32)>, i: int) -> bool {
    seeded_before(points, points.len() as int, i)
}

/// The lattice contents after seeding: each cell keeps its old state or
/// becomes alive when some listed coordinate encodes to it.
pub open spec fn seeded_lattice(s0: Seq<bool>, points: Seq<(i32, i32, i32)>) -> Seq<bool> {
    Seq::new(s0.len(), |i: int| s0[i] || seeds_index(points, i))
}

/// Seeding one more coordinate seeds exactly that coordinate's index.
proof fn lemma_seeded_step(points: Seq<(i32, i32, i32)>, n: int, i: int)
    requires
        0 <= n < points.len(),
    ensures
        seeded_before(points, n + 1, i) <==> (seeded_before(points, n, i) || index_of(
            points[n].0 as int,
            points[n].1 as int,
            points[n].2 as int,
        ) == i),
{
    if seeded_before(points, n + 1, i) {
        let w = choose|w: int|
            0 <= w < n + 1 && index_of(points[w].0 as int, points[w].1 as int, points[w].2 as int)
                == i;
        if w < n {
            assert(seeded_before(points, n, i));
        }
    }
    if seeded_before(points, n, i) {
        let w = choose|w: int|
            0 <= w < n && index_of(points[w].0 as int, points[w].1 as int, points[w].2 as int)
                == i;
        assert(0 <= w < n + 1 && index_of(points[w].0 as int, points[w].1 as int, points[w].2 as int) == i);
    }
}

/// Mark the cell of every listed coordinate live. A coordinate outside the
/// lattice on any axis rejects the whole list: the lattice is unchanged
/// and the bounds violation is reported to the caller.
pub fn seed_cells(cell_locations: &mut Lattice, points: &Vec<(i32, i32, i32)>) -> (r: Result<
    (),
    BoundsViolation,
>)
    requires
        old(cell_locations).wf(),
    ensures
        final(cell_locations).wf(),
        r is Ok <==> all_in_bounds(points@),
        r is Err ==> final(cell_locations)@ == old(cell_locations)@,
        r is Ok ==> final(cell_locations)@ == seeded_lattice(old(cell_locations)@, points@),
{
    let mut j: usize = 0;
    while j < points.len()
        invariant
            j <= points@.len(),
            cell_locations.wf(),
            cell_locations@ == old(cell_locations)@,
            forall|k: int| #![auto]
                0 <= k < j ==> in_bounds(points@[k].0 as int) && in_bounds(points@[k].1 as int)
                    && in_bounds(points@[k].2 as int),
        decreases points@.len() - j,
    {
        let p = points[j];
        if convert_loc_to_index(p.0, p.1, p.2).is_err() {
            return Err(BoundsViolation);
        }
        j = j + 1;
    }
    proof {
        assert(all_in_bounds(points@));
    }
    let ghost s0 = cell_locations@;
    let mut k: usize = 0;
    #[verifier::loop_isolation(false)]
    while k < points.len()
        invariant
            k <= points@.len(),
            cell_locations.wf(),
            s0.len() == LATTICE_LEN,
            all_in_bounds(points@),
            forall|i: int| #![auto]
                0 <= i < LATTICE_LEN ==> cell_locations@[i] == (s0[i] || seeded_before(
                    points@,
                    k as int,
                    i,
                )),
        decreases points@.len() - k,
    {
        let p = points[k];
        proof {
            assert(in_bounds(points@[k as int].0 as int) && in_bounds(points@[k as int].1 as int)
                && in_bounds(points@[k as int].2 as int));
        }
        let ghost prev = cell_locations@;
        match convert_loc_to_index(p.0, p.1, p.2) {
            Ok(index) => {
                cell_locations.set_cell(index, true);
                proof {
                    assert(index as int == index_of(
                        points@[k as int].0 as int,
                        points@[k as int].1 as int,
                        points@[k as int].2 as int,
                    ));
                    assert(cell_locations@ == prev.update(index as int, true));
                    assert(forall|i: int| #![auto]
                        0 <= i < LATTICE_LEN ==> prev[i] == (s0[i] || seeded_before(
                            points@,
                            k as int,
                            i,
                        )));
                    assert forall|i: int| #![auto]
                        0 <= i < LATTICE_LEN implies cell_locations@[i] == (s0[i] || seeded_before(
                        points@,
                        k + 1,
                        i,
                    )) by {
                        lemma_seeded_step(points@, k as int, i);
                        if i == index as int {
                            assert(seeded_before(points@, k + 1, i));
                        } else {
                            assert(cell_locations@[i] == prev[i]);
                        }
                    }
                }
            },
            Err(_) => {
                proof {
                    assert(false);
                }
            },
        }
        k = k + 1;
    }
    proof {
        assert(s0 == old(cell_locations)@);
        assert forall|i: int| #![auto]
            0 <= i < LATTICE_LEN implies cell_locations@[i] == (old(cell_locations)@[i]
            || seeds_index(points@, i)) by {
            assert(cell_locations@[i] == (s0[i] || seeded_before(points@, k as int, i)));
        }
        assert(cell_locations@ =~= seeded_lattice(old(cell_locations)@, points@));
    }
    Ok(())
}

/// Whether the cell at index `i` lies inside the clamped sampling cube
/// described by `center` and `distance`.
pub open spec fn in_sample_cube(center: (i32, i32, i32), distance: int, i: int) -> bool {
    &&& axis_start(center.0 as int, distance) <= x_of(i) < axis_start(center.0 as int, distance)
        + distance
    &&& axis_start(center.1 as int, distance) <= y_of(i) < axis_start(center.1 as int, distance)
        + distance
    &&& axis_start(center.2 as int, distance) <= z_of(i) < axis_start(center.2 as int, distance)
        + distance
}

/// Every coordinate of the list lies in the clamped per-axis sampling
/// ranges given by `center` and `distance`.
pub open spec fn all_in_sample_ranges(
    pts: Seq<(i32, i32, i32)>,
    center: (i32, i32, i32),
    distance: int,
) -> bool {
    forall|j: int| #![auto]
        0 <= j < pts.len() ==> {
            &&& axis_start(center.0 as int, distance) <= pts[j].0 as int
            &&& (pts[j].0 as int) < axis_start(center.0 as int, distance) + distance
            &&& axis_start(center.1 as int, distance) <= pts[j].1 as int
            &&& (pts[j].1 as int) < axis_start(center.1 as int, distance) + distance
            &&& axis_start(center.2 as int, distance) <= pts[j].2 as int
            &&& (pts[j].2 as int) < axis_start(center.2 as int, distance) + distance
        }
}

/// Seed the lattice once at startup: draw `points` random coordinates in
/// the clamped cube given by `center` and `distance` and mark their cells
/// live. When some drawn coordinate falls outside the lattice, nothing is
/// changed and the violation is reported; when the whole sampling cube
/// lies inside the lattice, success is guaranteed. On success the lattice
/// is exactly the old one seeded with some sequence of exactly `points`
/// coordinates from the sampling ranges, so no live cell is lost and
/// every newly live cell lies inside the sampling cube.
pub fn initialize_game(
    cell_locations: &mut Lattice,
    points: usize,
    center: (i32, i32, i32),
    distance: i32,
) -> (r: Result<(), BoundsViolation>)
    requires
        old(cell_locations).wf(),
        1 <= distance,
        distance <= i32::MAX - HALF_GAME,
    ensures
        final(cell_locations).wf(),
        r is Err ==> final(cell_locations)@ == old(cell_locations)@,
        (axis_start(center.0 as int, distance as int) + distance <= HALF_GAME as int
            && axis_start(center.1 as int, distance as int) + distance <= HALF_GAME as int
            && axis_start(center.2 as int, distance as int) + distance <= HALF_GAME as int) ==> r
            is Ok,
        r is Ok ==> forall|i: int| #![auto]
            0 <= i < LATTICE_LEN && old(cell_locations)@[i] ==> final(cell_locations)@[i],
        r is Ok ==> forall|i: int| #![auto]
            0 <= i < LATTICE_LEN && !old(cell_locations)@[i] && final(cell_locations)@[i]
                ==> in_sample_cube(center, distance as int, i),
        r is Ok ==> exists|pts: Seq<(i32, i32, i32)>|
            pts.len() == points && #[trigger] all_in_sample_ranges(pts, center, distance as int)
                && final(cell_locations)@ == seeded_lattice(old(cell_locations)@, pts),
{
    let sampled = create_random_spawn_points(points, center, distance);
    let r = seed_cells(cell_locations, &sampled);
    proof {
        if axis_start(center.0 as int, distance as int) + distance <= HALF_GAME as int
            && axis_start(center.1 as int, distance as int) + distance <= HALF_GAME as int
            && axis_start(center.2 as int, distance as int) + distance <= HALF_GAME as int {
            assert forall|w: int| #![auto]
                0 <= w < sampled@.len() implies in_bounds(sampled@[w].0 as int) && in_bounds(
                sampled@[w].1 as int,
            ) && in_bounds(sampled@[w].2 as int) by {}
            assert(all_in_bounds(sampled@));
        }
        if r is Ok {
            assert(all_in_bounds(sampled@));
            assert(cell_locations@ == seeded_lattice(old(cell_locations)@, sampled@));
            assert(all_in_sample_ranges(sampled@, center, distance as int));
            assert(sampled@.len() == points);
            assert forall|i: int| #![auto]
                0 <= i < LATTICE_LEN && old(cell_locations)@[i] implies cell_locations@[i] by {
                assert(cell_locations@[i] == (old(cell_locations)@[i] || seeds_index(
                    sampled@,
                    i,
                )));
            }
            assert forall|i: int| #![auto]
                0 <= i < LATTICE_LEN && !old(cell_locations)@[i] && cell_locations@[i]
                    implies in_sample_cube(center, distance as int, i) by {
                assert(cell_locations@[i] == (old(cell_locations)@[i] || seeds_index(
                    sampled@,
                    i,
                )));
                assert(seeds_index(sampled@, i));
                let w = choose|w: int| #![auto]
                    0 <= w < sampled@.len() && index_of(
                        sampled@[w].0 as int,
                        sampled@[w].1 as int,
                        sampled@[w].2 as int,
                    ) == i;
                assert(in_bounds(sampled@[w].0 as int) && in_bounds(sampled@[w].1 as int)
                    && in_bounds(sampled@[w].2 as int));
                lemma_loc_index_roundtrip(
                    sampled@[w].0 as int,
                    sampled@[w].1 as int,
                    sampled@[w].2 as int,
                );
            }
        }
    }
    r
}

} // verus!
