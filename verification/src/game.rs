//! The simulation state: the previous and the current generation, the step
//! that advances them, the renderer, and the fixed-point termination check.

use vstd::prelude::*;

use crate::engine::step;
use crate::grid::{clone_grid, grid_view, grids_equal, step_spec};
use crate::text::{cell_char, format_row_spec, format_spec};

verus! {

/// A running simulation: the last fully-settled generation (`now_map`) and
/// the generation being displayed (`new_map`).
pub struct LifeGame {
    now_map: Vec<Vec<bool>>,
    new_map: Vec<Vec<bool>>,
}

impl LifeGame {
    /// The previous generation, the one the last step consumed.
    pub closed spec fn previous(&self) -> Seq<Seq<bool>> {
        grid_view(self.now_map)
    }

    /// The current generation, the one on display.
    pub closed spec fn current(&self) -> Seq<Seq<bool>> {
        grid_view(self.new_map)
    }

    /// Start a simulation from a seed grid. No generation has been computed
    /// yet, so the previous generation is empty and cannot equal the seed.
    pub fn new(now: Vec<Vec<bool>>) -> (game: LifeGame)
        ensures
            game.previous() == Seq::<Seq<bool>>::empty(),
            game.current() == grid_view(now),
    {
        let empty: Vec<Vec<bool>> = Vec::new();
        proof {
            assert(grid_view(empty) =~= Seq::<Seq<bool>>::empty());
        }
        LifeGame { now_map: empty, new_map: now }
    }

    /// Advance one generation: snapshot the current grid as the previous one,
    /// then overwrite the current grid with its successor, computed entirely
    /// from the snapshot.
    pub fn next(&mut self)
        ensures
            final(self).previous() == old(self).current(),
            final(self).current() == step_spec(old(self).current()),
    {
        self.now_map = clone_grid(&self.new_map);
        self.new_map = step(&self.now_map);
    }

    /// A deep copy of the current generation.
    pub fn output_new(&self) -> (m: Vec<Vec<bool>>)
        ensures
            grid_view(m) == self.current(),
    {
        clone_grid(&self.new_map)
    }

    /// Render the current generation: one line per row over `{'.', '#'}`,
    /// each line closed by `'\n'`.
    pub fn output_new_str(&self) -> (s: String)
        ensures
            s@ == format_spec(self.current()),
    {
        let ghost gv = grid_view(self.new_map);
        let mut result = String::new();
        let mut r: usize = 0;
        while r < self.new_map.len()
            invariant
                gv == grid_view(self.new_map),
                r <= gv.len(),
                result@ == format_spec(gv.take(r as int)),
            decreases gv.len() - r,
        {
            let row_len = self.new_map[r].len();
            let mut c: usize = 0;
            while c < row_len
                invariant
                    gv == grid_view(self.new_map),
                    r < gv.len(),
                    row_len == gv[r as int].len(),
                    c <= row_len,
                    result@ == format_spec(gv.take(r as int)) + format_row_spec(
                        gv[r as int],
                    ).take(c as int),
                decreases row_len - c,
            {
                proof {
                    reveal_strlit("#");
                    reveal_strlit(".");
                }
                if self.new_map[r][c] {
                    result.append("#");
                } else {
                    result.append(".");
                }
                proof {
                    assert(format_row_spec(gv[r as int]).take(c + 1) =~= format_row_spec(
                        gv[r as int],
                    ).take(c as int).push(cell_char(gv[r as int][c as int])));
                }
                c += 1;
            }
            proof {
                reveal_strlit("\n");
            }
            result.append("\n");
            proof {
                let done = gv.take(r + 1);
                assert(done.drop_last() =~= gv.take(r as int));
                assert(done.last() == gv[r as int]);
                assert(format_row_spec(gv[r as int]).take(gv[r as int].len() as int)
                    =~= format_row_spec(gv[r as int]));
                assert(result@ =~= format_spec(gv.take(r + 1)));
            }
            r += 1;
        }
        proof {
            assert(gv.take(gv.len() as int) =~= gv);
        }
        result
    }

    /// The fixed-point test: the simulation is over once the step left the
    /// grid exactly as it was.
    pub fn is_end(&self) -> (b: bool)
        ensures
            b == (self.previous() == self.current()),
    {
        grids_equal(&self.now_map, &self.new_map)
    }
}

} // verus!
