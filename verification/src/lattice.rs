//! The lattice: a fixed-size flat container of boolean cell states.
//!
//! The lattice owns one boolean per cell of the cubic grid, indexed by the
//! flat encoding of the coordinate codec. Its view is the sequence of cell
//! states, and a well-formed lattice always has exactly `LATTICE_LEN` cells.

use vstd::prelude::*;
use crate::codec::LATTICE_LEN;

verus! {

/// The cell states of the whole cubic grid, in flat index order.
pub struct Lattice {
    cells: Vec<bool>,
}

impl View for Lattice {
    type V = Seq<bool>;

    closed spec fn view(&self) -> Seq<bool> {
        self.cells@
    }
}

impl Lattice {
    /// A lattice holds one state per cell of the cubic grid.
    pub open spec fn wf(&self) -> bool {
        self@.len() == LATTICE_LEN
    }

    /// Create an all-dead lattice.
    pub fn new() -> (r: Lattice)
        ensures
            r.wf(),
            forall|i: int| 0 <= i < LATTICE_LEN ==> !r@[i],
    {
        let mut cells: Vec<bool> = Vec::new();
        while cells.len() < LATTICE_LEN
            invariant
                cells@.len() <= LATTICE_LEN,
                forall|i: int| 0 <= i < cells@.len() ==> !cells@[i],
            decreases LATTICE_LEN - cells@.len(),
        {
            cells.push(false);
        }
        Lattice { cells }
    }

    /// Read the state of one cell.
    pub fn is_live(&self, index: usize) -> (b: bool)
        requires
            self.wf(),
            index < LATTICE_LEN,
        ensures
            b == self@[index as int],
    {
        self.cells[index]
    }

    /// Write the state of one cell.
    pub fn set_cell(&mut self, index: usize, live: bool)
        requires
            old(self).wf(),
            index < LATTICE_LEN,
        ensures
            final(self).wf(),
            final(self)@ == old(self)@.update(index as int, live),
    {
        self.cells.set(index, live);
    }
}

} // verus!
