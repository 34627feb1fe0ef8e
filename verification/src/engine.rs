//! The generation update engine.
//!
//! Each generation is advanced in two phases. Phase A makes two read-only
//! scans over the same lattice snapshot: one partitions the currently-live
//! cells into survivors and deaths by the survival table, the other collects
//! the currently-dead cells that the spawn table turns alive. The scans are
//! independent, so a caller may run them concurrently on an immutable
//! lattice. Phase B applies all recorded transitions only after both scans
//! are complete, which keeps the generation simultaneous: no cell's fate
//! depends on the scan order.

use vstd::prelude::*;
use crate::codec::{x_of, y_of, z_of, LATTICE_LEN};
use crate::lattice::Lattice;
use crate::neighbors::{count_neighbors, lemma_count_prefix_all_dead, live_neighbor_count};
use crate::rule::GameRule;

verus! {

/// Whether the cell at flat index `i` is alive in the next generation:
/// a live cell consults the survival table at its live-neighbor count, a
/// dead cell consults the spawn table.
pub open spec fn next_alive(s: Seq<bool>, rule: GameRule, i: int) -> bool {
    let n = live_neighbor_count(s, x_of(i), y_of(i), z_of(i));
    if s[i] {
        rule.survival@[n]
    } else {
        rule.spawn@[n]
    }
}

/// Pushing a value onto a sequence keeps every value it contained, adds
/// the pushed value, and adds nothing else.
proof fn lemma_push_contains(s: Seq<usize>, v: usize)
    ensures
        s.push(v).contains(v),
        forall|u: usize| s.contains(u) ==> #[trigger] s.push(v).contains(u),
        forall|u: usize| #[trigger] s.push(v).contains(u) ==> s.contains(u) || u == v,
{
    assert(s.push(v)[s.len() as int] == v);
    assert forall|u: usize| s.contains(u) implies #[trigger] s.push(v).contains(u) by {
        let w = choose|w: int| 0 <= w < s.len() && s[w] == u;
        assert(s.push(v)[w] == u);
    }
    assert forall|u: usize| #[trigger] s.push(v).contains(u) implies s.contains(u) || u == v by {
        let w = choose|w: int| 0 <= w < s.push(v).len() && s.push(v)[w] == u;
        if w < s.len() {
            assert(s[w] == u);
        }
    }
}

/// Phase A, live scan: partition the currently-live cells into those whose
/// neighbor count satisfies the survival table (first list, they stay
/// alive) and the rest (second list, they die). Read-only.
pub fn classify_live(cell_locations: &Lattice, game_rule: &GameRule) -> (r: (Vec<usize>, Vec<usize>))
    requires
        cell_locations.wf(),
    ensures
        forall|j: int| #![auto]
            0 <= j < r.0@.len() ==> r.0@[j] < LATTICE_LEN && cell_locations@[r.0@[j] as int]
                && next_alive(cell_locations@, *game_rule, r.0@[j] as int),
        forall|j: int| #![auto]
            0 <= j < r.1@.len() ==> r.1@[j] < LATTICE_LEN && cell_locations@[r.1@[j] as int]
                && !next_alive(cell_locations@, *game_rule, r.1@[j] as int),
        forall|m: int| #![auto]
            0 <= m < LATTICE_LEN && cell_locations@[m] && next_alive(
                cell_locations@,
                *game_rule,
                m,
            ) ==> r.0@.contains(m as usize),
        forall|m: int| #![auto]
            0 <= m < LATTICE_LEN && cell_locations@[m] && !next_alive(
                cell_locations@,
                *game_rule,
                m,
            ) ==> r.1@.contains(m as usize),
{
    let mut alive: Vec<usize> = Vec::new();
    let mut dead: Vec<usize> = Vec::new();
    let mut i: usize = 0;
    while i < LATTICE_LEN
        invariant
            i <= LATTICE_LEN,
            cell_locations.wf(),
            forall|j: int| #![auto]
                0 <= j < alive@.len() ==> alive@[j] < LATTICE_LEN && cell_locations@[alive@[j] as int]
                    && next_alive(cell_locations@, *game_rule, alive@[j] as int),
            forall|j: int| #![auto]
                0 <= j < dead@.len() ==> dead@[j] < LATTICE_LEN && cell_locations@[dead@[j] as int]
                    && !next_alive(cell_locations@, *game_rule, dead@[j] as int),
            forall|m: int| #![auto]
                0 <= m < i && cell_locations@[m] && next_alive(cell_locations@, *game_rule, m)
                    ==> alive@.contains(m as usize),
            forall|m: int| #![auto]
                0 <= m < i && cell_locations@[m] && !next_alive(cell_locations@, *game_rule, m)
                    ==> dead@.contains(m as usize),
        decreases LATTICE_LEN - i,
    {
        if cell_locations.is_live(i) {
            let neighbors = count_neighbors(cell_locations, i);
            let ghost prev_alive = alive@;
            let ghost prev_dead = dead@;
            if game_rule.survival[neighbors as usize] {
                alive.push(i);
                proof {
                    lemma_push_contains(prev_alive, i);
                    assert forall|m: int| #![auto]
                        0 <= m < i + 1 && cell_locations@[m] && next_alive(
                            cell_locations@,
                            *game_rule,
                            m,
                        ) implies alive@.contains(m as usize) by {
                        if m < i {
                            assert(prev_alive.contains(m as usize));
                        }
                    }
                }
            } else {
                dead.push(i);
                proof {
                    lemma_push_contains(prev_dead, i);
                    assert forall|m: int| #![auto]
                        0 <= m < i + 1 && cell_locations@[m] && !next_alive(
                            cell_locations@,
                            *game_rule,
                            m,
                        ) implies dead@.contains(m as usize) by {
                        if m < i {
                            assert(prev_dead.contains(m as usize));
                        }
                    }
                }
            }
        }
        i = i + 1;
    }
    (alive, dead)
}

/// Phase A, dead scan: collect the currently-dead cells whose neighbor
/// count satisfies the spawn table; they become alive. Read-only.
pub fn classify_dead(cell_locations: &Lattice, game_rule: &GameRule) -> (r: Vec<usize>)
    requires
        cell_locations.wf(),
    ensures
        forall|j: int| #![auto]
            0 <= j < r@.len() ==> r@[j] < LATTICE_LEN && !cell_locations@[r@[j] as int]
                && next_alive(cell_locations@, *game_rule, r@[j] as int),
        forall|m: int| #![auto]
            0 <= m < LATTICE_LEN && !cell_locations@[m] && next_alive(
                cell_locations@,
                *game_rule,
                m,
            ) ==> r@.contains(m as usize),
{
    let mut spawned: Vec<usize> = Vec::new();
    let mut i: usize = 0;
    while i < LATTICE_LEN
        invariant
            i <= LATTICE_LEN,
            cell_locations.wf(),
            forall|j: int| #![auto]
                0 <= j < spawned@.len() ==> spawned@[j] < LATTICE_LEN
                    && !cell_locations@[spawned@[j] as int] && next_alive(
                    cell_locations@,
                    *game_rule,
                    spawned@[j] as int,
                ),
            forall|m: int| #![auto]
                0 <= m < i && !cell_locations@[m] && next_alive(cell_locations@, *game_rule, m)
                    ==> spawned@.contains(m as usize),
        decreases LATTICE_LEN - i,
    {
        if !cell_locations.is_live(i) {
            let neighbors = count_neighbors(cell_locations, i);
            let ghost prev = spawned@;
            if game_rule.spawn[neighbors as usize] {
                spawned.push(i);
                proof {
                    lemma_push_contains(prev, i);
                    assert forall|m: int| #![auto]
                        0 <= m < i + 1 && !cell_locations@[m] && next_alive(
                            cell_locations@,
                            *game_rule,
                            m,
                        ) implies spawned@.contains(m as usize) by {
                        if m < i {
                            assert(prev.contains(m as usize));
                        }
                    }
                }
            }
        }
        i = i + 1;
    }
    spawned
}

/// Some value among the first `n` entries of `v` equals `i`.
pub open spec fn listed_before(v: Seq<usize>, n: int, i: int) -> bool {
    exists|w: int| 0 <= w < n && v[w] as int == i
}

/// A full-length `listed_before` is exactly sequence membership (for
/// indices small enough to cast without loss).
proof fn lemma_listed_is_contains(v: Seq<usize>, i: int)
    requires
        0 <= i < LATTICE_LEN,
    ensures
        listed_before(v, v.len() as int, i) <==> v.contains(i as usize),
{
    if listed_before(v, v.len() as int, i) {
        let w = choose|w: int| 0 <= w < v.len() && v[w] as int == i;
        assert(v[w] == i as usize);
    }
    if v.contains(i as usize) {
        let w = choose|w: int| 0 <= w < v.len() && v[w] == i as usize;
        assert(v[w] as int == i);
    }
}

/// Extending the listed prefix by one entry adds exactly that entry.
proof fn lemma_listed_step(v: Seq<usize>, n: int, i: int)
    requires
        0 <= n < v.len(),
    ensures
        listed_before(v, n + 1, i) <==> (listed_before(v, n, i) || v[n] as int == i),
{
    if listed_before(v, n + 1, i) {
        let w = choose|w: int| 0 <= w < n + 1 && v[w] as int == i;
        if w < n {
            assert(listed_before(v, n, i));
        }
    }
    if listed_before(v, n, i) {
        let w = choose|w: int| 0 <= w < n && v[w] as int == i;
        assert(0 <= w < n + 1 && v[w] as int == i);
    }
    if v[n] as int == i {
        assert(0 <= n < n + 1 && v[n] as int == i);
    }
}

/// Phase B: apply the recorded transitions. Every cell listed as surviving
/// or spawning is set live, then every cell listed as dying is set dead.
/// Runs only after both Phase A scans are complete.
pub fn apply_changes(
    cell_locations: &mut Lattice,
    alive: &Vec<usize>,
    alive2: &Vec<usize>,
    dead: &Vec<usize>,
)
    requires
        old(cell_locations).wf(),
        forall|j: int| #![auto] 0 <= j < alive@.len() ==> alive@[j] < LATTICE_LEN,
        forall|j: int| #![auto] 0 <= j < alive2@.len() ==> alive2@[j] < LATTICE_LEN,
        forall|j: int| #![auto] 0 <= j < dead@.len() ==> dead@[j] < LATTICE_LEN,
    ensures
        final(cell_locations).wf(),
        forall|i: int| #![auto]
            0 <= i < LATTICE_LEN ==> final(cell_locations)@[i] == (if dead@.contains(i as usize) {
                false
            } else if alive@.contains(i as usize) || alive2@.contains(i as usize) {
                true
            } else {
                old(cell_locations)@[i]
            }),
{
    let ghost s0 = cell_locations@;
    let mut j: usize = 0;
    while j < alive.len()
        invariant
            j <= alive@.len(),
            cell_locations.wf(),
            forall|k: int| #![auto] 0 <= k < alive@.len() ==> alive@[k] < LATTICE_LEN,
            forall|i: int| #![auto]
                0 <= i < LATTICE_LEN ==> cell_locations@[i] == (if listed_before(
                    alive@,
                    j as int,
                    i,
                ) {
                    true
                } else {
                    s0[i]
                }),
        decreases alive@.len() - j,
    {
        let target = alive[j];
        cell_locations.set_cell(target, true);
        proof {
            assert forall|i: int| #![auto]
                0 <= i < LATTICE_LEN implies cell_locations@[i] == (if listed_before(
                    alive@,
                    j + 1,
                    i,
                ) {
                    true
                } else {
                    s0[i]
                }) by {
                lemma_listed_step(alive@, j as int, i);
            }
        }
        j = j + 1;
    }
    proof {
        assert forall|i: int| #![auto]
            0 <= i < LATTICE_LEN implies cell_locations@[i] == (if alive@.contains(i as usize) {
                true
            } else {
                s0[i]
            }) by {
            lemma_listed_is_contains(alive@, i);
        }
    }
    let ghost s1 = cell_locations@;
    let mut j2: usize = 0;
    while j2 < alive2.len()
        invariant
            j2 <= alive2@.len(),
            cell_locations.wf(),
            forall|k: int| #![auto] 0 <= k < alive2@.len() ==> alive2@[k] < LATTICE_LEN,
            forall|i: int| #![auto]
                0 <= i < LATTICE_LEN ==> cell_locations@[i] == (if listed_before(
                    alive2@,
                    j2 as int,
                    i,
                ) {
                    true
                } else {
                    s1[i]
                }),
        decreases alive2@.len() - j2,
    {
        let target = alive2[j2];
        cell_locations.set_cell(target, true);
        proof {
            assert forall|i: int| #![auto]
                0 <= i < LATTICE_LEN implies cell_locations@[i] == (if listed_before(
                    alive2@,
                    j2 + 1,
                    i,
                ) {
                    true
                } else {
                    s1[i]
                }) by {
                lemma_listed_step(alive2@, j2 as int, i);
            }
        }
        j2 = j2 + 1;
    }
    proof {
        assert forall|i: int| #![auto]
            0 <= i < LATTICE_LEN implies cell_locations@[i] == (if alive@.contains(i as usize)
                || alive2@.contains(i as usize) {
                true
            } else {
                s0[i]
            }) by {
            lemma_listed_is_contains(alive2@, i);
        }
    }
    let ghost s2 = cell_locations@;
    let mut j3: usize = 0;
    while j3 < dead.len()
        invariant
            j3 <= dead@.len(),
            cell_locations.wf(),
            forall|k: int| #![auto] 0 <= k < dead@.len() ==> dead@[k] < LATTICE_LEN,
            forall|i: int| #![auto]
                0 <= i < LATTICE_LEN ==> cell_locations@[i] == (if listed_before(
                    dead@,
                    j3 as int,
                    i,
                ) {
                    false
                } else {
                    s2[i]
                }),
        decreases dead@.len() - j3,
    {
        let target = dead[j3];
        cell_locations.set_cell(target, false);
        proof {
            assert forall|i: int| #![auto]
                0 <= i < LATTICE_LEN implies cell_locations@[i] == (if listed_before(
                    dead@,
                    j3 + 1,
                    i,
                ) {
                    false
                } else {
                    s2[i]
                }) by {
                lemma_listed_step(dead@, j3 as int, i);
            }
        }
        j3 = j3 + 1;
    }
    proof {
        assert forall|i: int| #![auto]
            0 <= i < LATTICE_LEN implies cell_locations@[i] == (if dead@.contains(i as usize) {
                false
            } else if alive@.contains(i as usize) || alive2@.contains(i as usize) {
                true
            } else {
                s0[i]
            }) by {
            lemma_listed_is_contains(dead@, i);
        }
    }
}

/// Advance the lattice by exactly one generation: run both Phase A scans
/// over the unchanged lattice, then apply all transitions in Phase B.
/// Afterwards every cell holds exactly its next-generation state.
pub fn update_cell_locations(cell_locations: &mut Lattice, game_rule: &GameRule)
    requires
        old(cell_locations).wf(),
    ensures
        final(cell_locations).wf(),
        forall|i: int| #![auto]
            0 <= i < LATTICE_LEN ==> final(cell_locations)@[i] == next_alive(
                old(cell_locations)@,
                *game_rule,
                i,
            ),
{
    let ghost s = cell_locations@;
    let (alive, dead) = classify_live(cell_locations, game_rule);
    let alive2 = classify_dead(cell_locations, game_rule);
    apply_changes(cell_locations, &alive, &alive2, &dead);
    proof {
        assert forall|i: int| #![auto]
            0 <= i < LATTICE_LEN implies cell_locations@[i] == next_alive(s, *game_rule, i) by {
            if s[i] {
                if next_alive(s, *game_rule, i) {
                    assert(alive@.contains(i as usize));
                    if dead@.contains(i as usize) {
                        let w = choose|w: int| 0 <= w < dead@.len() && dead@[w] == i as usize;
                        assert(!next_alive(s, *game_rule, dead@[w] as int));
                    }
                } else {
                    assert(dead@.contains(i as usize));
                }
            } else {
                if next_alive(s, *game_rule, i) {
                    assert(alive2@.contains(i as usize));
                    if dead@.contains(i as usize) {
                        let w = choose|w: int| 0 <= w < dead@.len() && dead@[w] == i as usize;
                        assert(s[dead@[w] as int]);
                    }
                } else {
                    if dead@.contains(i as usize) {
                        let w = choose|w: int| 0 <= w < dead@.len() && dead@[w] == i as usize;
                        assert(s[dead@[w] as int]);
                    }
                    if alive@.contains(i as usize) {
                        let w = choose|w: int| 0 <= w < alive@.len() && alive@[w] == i as usize;
                        assert(s[alive@[w] as int]);
                    }
                    if alive2@.contains(i as usize) {
                        let w = choose|w: int| 0 <= w < alive2@.len() && alive2@[w] == i as usize;
                        assert(next_alive(s, *game_rule, alive2@[w] as int));
                    }
                }
            }
        }
    }
}

/// A generation cannot create life out of nothing: on an all-dead lattice
/// every neighbor count is zero, so when the rule does not spawn at zero
/// neighbors, every cell of the next generation is dead as well.
pub proof fn lemma_all_dead_stays_dead(s: Seq<bool>, rule: GameRule)
    requires
        s.len() == LATTICE_LEN,
        forall|j: int| 0 <= j < s.len() ==> !s[j],
        !rule.spawn@[0],
    ensures
        forall|i: int| 0 <= i < LATTICE_LEN ==> !next_alive(s, rule, i),
{
    assert forall|i: int| 0 <= i < LATTICE_LEN implies !next_alive(s, rule, i) by {
        lemma_count_prefix_all_dead(s, x_of(i), y_of(i), z_of(i), 26);
    }
}

} // verus!
