//! The automaton's rule: survival and spawn lookup tables.
//!
//! A rule is a pair of 27-entry boolean tables indexed by live-neighbor
//! count. `survival[n]` says whether a live cell with exactly `n` live
//! neighbors stays alive; `spawn[n]` says whether a dead cell with exactly
//! `n` live neighbors becomes alive.

use vstd::prelude::*;

verus! {

/// Survival and spawn conditions, one boolean per neighbor count 0 to 26.
pub struct GameRule {
    pub survival: [bool; 27],
    pub spawn: [bool; 27],
}

impl GameRule {
    /// The default rule: survival on 5, 6, 7 or 8 live neighbors, spawn on
    /// 6, 7 or 9.
    pub fn default() -> (r: GameRule)
        ensures
            forall|n: int| 0 <= n < 27 ==> (r.survival@[n] <==> (n == 5 || n == 6 || n == 7 || n == 8)),
            forall|n: int| 0 <= n < 27 ==> (r.spawn@[n] <==> (n == 6 || n == 7 || n == 9)),
    {
        let survival_counts: [u8; 4] = [5, 6, 7, 8];
        let spawn_counts: [u8; 3] = [6, 7, 9];
        let survival = Self::convert_to_dense_array(survival_counts.as_slice());
        let spawn = Self::convert_to_dense_array(spawn_counts.as_slice());
        proof {
            assert(survival_counts@[0] == 5 && survival_counts@[1] == 6 && survival_counts@[2]
                == 7 && survival_counts@[3] == 8);
            assert(spawn_counts@[0] == 6 && spawn_counts@[1] == 7 && spawn_counts@[2] == 9);
        }
        GameRule { survival, spawn }
    }

    /// Expand a list of neighbor counts into a dense 27-entry table with
    /// `true` exactly at the listed counts.
    pub fn convert_to_dense_array(vc: &[u8]) -> (r: [bool; 27])
        requires
            forall|j: int| 0 <= j < vc@.len() ==> vc@[j] < 27,
        ensures
            forall|n: int| 0 <= n < 27 ==> (r@[n] <==> vc@.contains(n as u8)),
    {
        let mut ar: [bool; 27] = [false; 27];
        let mut i: usize = 0;
        while i < vc.len()
            invariant
                i <= vc@.len(),
                forall|j: int| 0 <= j < vc@.len() ==> vc@[j] < 27,
                ar@.len() == 27,
                forall|n: int|
                    0 <= n < 27 ==> (ar@[n] <==> exists|j: int|
                        0 <= j < i && vc@[j] == n as u8),
            decreases vc@.len() - i,
        {
            let c = vc[i];
            assert(c < 27);
            ar[c as usize] = true;
            proof {
                assert forall|n: int| 0 <= n < 27 implies (ar@[n] <==> exists|j: int|
                    0 <= j < i + 1 && vc@[j] == n as u8) by {
                    if n == c as int {
                        assert(vc@[i as int] == n as u8);
                    } else {
                        if exists|j: int| 0 <= j < i + 1 && vc@[j] == n as u8 {
                            let w = choose|j: int| 0 <= j < i + 1 && vc@[j] == n as u8;
                            assert(w != i as int);
                            assert(0 <= w < i && vc@[w] == n as u8);
                        }
                    }
                }
            }
            i += 1;
        }
        ar
    }
}

} // verus!
