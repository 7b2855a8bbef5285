//! The evolution engine: the neighbor-counting capability and the generation
//! step that produces the next grid from the current one without mutating it.

use vstd::prelude::*;

use crate::grid::{alive_at, cell, grid_view, next_cell, step_spec};

verus! {

/// Neighbor-counting capability over a fixed-shape boolean grid.
pub trait Live {
    /// The grid this container represents.
    spec fn grid(&self) -> Seq<Seq<bool>>;

    /// Whether cell `(h, w)` is alive in the next generation, per the
    /// transition rule applied to this grid.
    fn is_live(&self, h: usize, w: usize) -> (b: bool)
        requires
            h < self.grid().len(),
            w < self.grid()[h as int].len(),
        ensures
            b == next_cell(self.grid(), h as int, w as int),
    ;
}

impl Live for Vec<Vec<bool>> {
    open spec fn grid(&self) -> Seq<Seq<bool>> {
        grid_view(*self)
    }

    fn is_live(&self, h: usize, w: usize) -> (b: bool) {
        let height = self.len();
        let row_len = self[h].len();
        proof {
            // h and w sit inside the grid, so h + 1 and w + 1 cannot overflow.
            assert(h + 1 <= height);
            assert(w + 1 <= row_len);
        }
        let mut live_count: u8 = 0;
        if h > 0 {
            if w > 0 && cell(self, h - 1, w - 1) {
                live_count += 1;
            }
            if cell(self, h - 1, w) {
                live_count += 1;
            }
            if cell(self, h - 1, w + 1) {
                live_count += 1;
            }
        }
        if w > 0 && cell(self, h, w - 1) {
            live_count += 1;
        }
        if cell(self, h, w + 1) {
            live_count += 1;
        }
        if w > 0 && cell(self, h + 1, w - 1) {
            live_count += 1;
        }
        if cell(self, h + 1, w) {
            live_count += 1;
        }
        if cell(self, h + 1, w + 1) {
            live_count += 1;
        }
        let alive = cell(self, h, w);
        if alive {
            live_count == 2 || live_count == 3
        } else {
            live_count == 3
        }
    }
}

/// Compute the next generation of `current`. The input is only read, never
/// changed: the rule is evaluated synchronously against the whole input grid.
pub fn step(current: &Vec<Vec<bool>>) -> (next: Vec<Vec<bool>>)
    ensures
        grid_view(next) == step_spec(grid_view(*current)),
{
    let ghost g = grid_view(*current);
    let mut next: Vec<Vec<bool>> = Vec::new();
    let mut r: usize = 0;
    while r < current.len()
        invariant
            g == grid_view(*current),
            r <= current@.len(),
            next@.len() == r,
            forall|i: int| 0 <= i < r ==> (#[trigger] next@[i])@ == step_spec(g)[i],
        decreases current@.len() - r,
    {
        let mut row: Vec<bool> = Vec::new();
        let mut c: usize = 0;
        while c < current[r].len()
            invariant
                g == grid_view(*current),
                r < current@.len(),
                c <= g[r as int].len(),
                row@.len() == c,
                forall|j: int| 0 <= j < c ==> row@[j] == next_cell(g, r as int, j),
            decreases g[r as int].len() - c,
        {
            row.push(current.is_live(r, c));
            c += 1;
        }
        proof {
            assert(row@ =~= step_spec(g)[r as int]);
        }
        next.push(row);
        r += 1;
    }
    proof {
        assert(grid_view(next) =~~= step_spec(g));
    }
    next
}

} // verus!
