//! The monochrome pixel buffer: a fixed 64 x 32 grid of on/off cells,
//! stored row-major.

use vstd::pervasive::VecAdditionalExecFns;
use vstd::prelude::*;

use crate::HEIGHT;
use crate::WIDTH;

verus! {

/// The linear, row-major position of the cell at column `x`, row `y`.
pub open spec fn cell_index(x: int, y: int) -> int {
    y * (WIDTH as int) + x
}

/// The pixel buffer. Allocated all-off, mutated in place by draw
/// operations, and read out at the end of a run.
pub struct FrameBuffer {
    cells: Vec<bool>,
}

impl View for FrameBuffer {
    type V = Seq<bool>;

    closed spec fn view(&self) -> Seq<bool> {
        self.cells@
    }
}

impl FrameBuffer {
    /// The buffer holds exactly one cell per grid position.
    pub open spec fn wf(&self) -> bool {
        self@.len() == WIDTH as int * HEIGHT as int
    }

    /// A fresh buffer with every cell off.
    pub fn new() -> (r: Self)
        ensures
            r.wf(),
            forall|l: int| 0 <= l < r@.len() ==> r@[l] == false,
    {
        let mut cells: Vec<bool> = Vec::new();
        let mut k: usize = 0;
        while k < WIDTH * HEIGHT
            invariant
                k == cells@.len(),
                k <= WIDTH * HEIGHT,
                forall|l: int| 0 <= l < k ==> cells@[l] == false,
            decreases WIDTH * HEIGHT - k,
        {
            cells.push(false);
            k = k + 1;
        }
        Self { cells }
    }

    /// The state of the cell at column `x`, row `y`.
    pub fn get(&self, x: usize, y: usize) -> (on: bool)
        requires
            self.wf(),
            x < WIDTH,
            y < HEIGHT,
        ensures
            on == self@[cell_index(x as int, y as int)],
    {
        self.cells[y * WIDTH + x]
    }

    /// Toggle the cell at the given linear position: on becomes off and off
    /// becomes on.
    pub fn toggle(&mut self, l: usize)
        requires
            old(self).wf(),
            (l as int) < old(self)@.len(),
        ensures
            final(self).wf(),
            final(self)@ == old(self)@.update(l as int, !old(self)@[l as int]),
    {
        let current = self.cells[l];
        self.cells.set(l, !current);
    }
}

} // verus!
