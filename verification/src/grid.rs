//! The grid data model: a rectangle of boolean cells, the Moore-neighborhood
//! count with hard boundary clamping, and the generation transition rule.

use vstd::prelude::*;

verus! {

/// Mathematical view of a grid: one sequence per row, `true` = alive.
pub open spec fn grid_view(m: Vec<Vec<bool>>) -> Seq<Seq<bool>> {
    m@.map_values(|row: Vec<bool>| row@)
}

/// A cell is alive only if its coordinates are in range and hold `true`;
/// everything outside the grid counts as dead (hard boundary, no wrap-around).
pub open spec fn alive_at(g: Seq<Seq<bool>>, r: int, c: int) -> bool {
    0 <= r < g.len() && 0 <= c < g[r].len() && g[r][c]
}

/// Contribution of one cell to a neighbor count.
pub open spec fn cell_weight(g: Seq<Seq<bool>>, r: int, c: int) -> int {
    if alive_at(g, r, c) {
        1
    } else {
        0
    }
}

/// Number of live cells among the up-to-8 Moore neighbors of `(r, c)`.
/// The cell itself is excluded; out-of-range positions contribute zero.
pub open spec fn neighbor_count(g: Seq<Seq<bool>>, r: int, c: int) -> int {
    cell_weight(g, r - 1, c - 1) + cell_weight(g, r - 1, c) + cell_weight(g, r - 1, c + 1)
        + cell_weight(g, r, c - 1) + cell_weight(g, r, c + 1) + cell_weight(g, r + 1, c - 1)
        + cell_weight(g, r + 1, c) + cell_weight(g, r + 1, c + 1)
}

/// The transition rule for one cell: a live cell survives with exactly 2 or 3
/// live neighbors; a dead cell becomes alive with exactly 3.
pub open spec fn next_cell(g: Seq<Seq<bool>>, r: int, c: int) -> bool {
    if alive_at(g, r, c) {
        neighbor_count(g, r, c) == 2 || neighbor_count(g, r, c) == 3
    } else {
        neighbor_count(g, r, c) == 3
    }
}

/// One synchronous generation step: every cell of the result is computed from
/// the same input generation.
pub open spec fn step_spec(g: Seq<Seq<bool>>) -> Seq<Seq<bool>> {
    Seq::new(g.len(), |r: int| Seq::new(g[r].len(), |c: int| next_cell(g, r, c)))
}

/// Shape invariant: at least one row, at least one column, and every row as
/// wide as the first.
pub open spec fn rectangular(g: Seq<Seq<bool>>) -> bool {
    g.len() >= 1 && g[0].len() >= 1 && (forall|i: int|
        0 <= i < g.len() ==> (#[trigger] g[i].len()) == g[0].len())
}

/// `n` generation steps applied to `g`.
pub open spec fn iterate(g: Seq<Seq<bool>>, n: nat) -> Seq<Seq<bool>>
    decreases n,
{
    if n == 0 {
        g
    } else {
        step_spec(iterate(g, (n - 1) as nat))
    }
}

/// Fixed-point closure: once a generation reproduces itself under the step,
/// any number of further steps keeps returning that same generation.
pub proof fn lemma_fixed_point(g: Seq<Seq<bool>>, n: nat)
    requires
        step_spec(g) == g,
    ensures
        iterate(g, n) == g,
    decreases n,
{
    if n > 0 {
        lemma_fixed_point(g, (n - 1) as nat);
    }
}

/// The transition is deterministic: equal generations have equal successors.
/// `step` borrows its input immutably, so stepping twice from the same grid
/// yields the same result and leaves the input untouched.
pub proof fn lemma_step_deterministic(g1: Seq<Seq<bool>>, g2: Seq<Seq<bool>>)
    requires
        g1 == g2,
    ensures
        step_spec(g1) == step_spec(g2),
{
}

/// Boundary clamping: a corner cell of a rectangular grid has at most three
/// in-range neighbors, so even a fully-alive surrounding region can never
/// contribute more than three to its count.
pub proof fn lemma_corner_at_most_three(g: Seq<Seq<bool>>, r: int, c: int)
    requires
        rectangular(g),
        r == 0 || r == g.len() - 1,
        c == 0 || c == g[r].len() - 1,
    ensures
        neighbor_count(g, r, c) <= 3,
{
    assert(forall|i: int| 0 <= i < g.len() ==> (#[trigger] g[i].len()) == g[0].len());
}

/// A 1-by-1 grid has no neighbors at all: its only cell always dies,
/// whatever its own state.
pub proof fn lemma_single_cell_dies(g: Seq<Seq<bool>>)
    requires
        g.len() == 1,
        g[0].len() == 1,
    ensures
        neighbor_count(g, 0, 0) == 0,
        step_spec(g)[0][0] == false,
{
}

/// A grid with no live cell at all is an immediate fixed point.
pub proof fn lemma_dead_grid_fixed(g: Seq<Seq<bool>>)
    requires
        forall|r: int, c: int| !alive_at(g, r, c),
    ensures
        step_spec(g) == g,
{
    assert forall|r: int| 0 <= r < g.len() implies step_spec(g)[r] =~= g[r] by {
        assert forall|c: int| 0 <= c < g[r].len() implies step_spec(g)[r][c] == g[r][c] by {
            assert(!alive_at(g, r, c));
            assert(neighbor_count(g, r, c) == 0);
        }
    }
    assert(step_spec(g) =~~= g);
}

/// Bounds-checked cell read: an out-of-range query is dead, never a fault.
pub fn cell(m: &Vec<Vec<bool>>, r: usize, c: usize) -> (b: bool)
    ensures
        b == alive_at(grid_view(*m), r as int, c as int),
{
    if r < m.len() && c < m[r].len() {
        m[r][c]
    } else {
        false
    }
}

/// Deep copy of a grid, used to capture the previous-generation snapshot.
pub fn clone_grid(m: &Vec<Vec<bool>>) -> (r: Vec<Vec<bool>>)
    ensures
        grid_view(r) == grid_view(*m),
{
    let mut r: Vec<Vec<bool>> = Vec::new();
    let mut i: usize = 0;
    while i < m.len()
        invariant
            i <= m@.len(),
            r@.len() == i,
            forall|k: int| 0 <= k < i ==> (#[trigger] r@[k])@ == m@[k]@,
        decreases m@.len() - i,
    {
        let mut row: Vec<bool> = Vec::new();
        let mut j: usize = 0;
        while j < m[i].len()
            invariant
                i < m@.len(),
                j <= m@[i as int]@.len(),
                row@ == m@[i as int]@.take(j as int),
            decreases m@[i as int]@.len() - j,
        {
            row.push(m[i][j]);
            proof {
                assert(m@[i as int]@.take(j + 1) =~= m@[i as int]@.take(j as int).push(
                    m@[i as int]@[j as int],
                ));
            }
            j += 1;
        }
        proof {
            assert(m@[i as int]@.take(m@[i as int]@.len() as int) =~= m@[i as int]@);
        }
        r.push(row);
        i += 1;
    }
    proof {
        assert(grid_view(r) =~~= grid_view(*m));
    }
    r
}

/// Structural equality of two grids: same shape and the same cells everywhere.
pub fn grids_equal(a: &Vec<Vec<bool>>, b: &Vec<Vec<bool>>) -> (eq: bool)
    ensures
        eq == (grid_view(*a) == grid_view(*b)),
{
    if a.len() != b.len() {
        proof {
            assert(grid_view(*a).len() != grid_view(*b).len());
        }
        return false;
    }
    let mut i: usize = 0;
    while i < a.len()
        invariant
            a@.len() == b@.len(),
            i <= a@.len(),
            forall|k: int| 0 <= k < i ==> (#[trigger] a@[k])@ == b@[k]@,
        decreases a@.len() - i,
    {
        if a[i].len() != b[i].len() {
            proof {
                assert(grid_view(*a)[i as int].len() != grid_view(*b)[i as int].len());
            }
            return false;
        }
        let mut j: usize = 0;
        while j < a[i].len()
            invariant
                i < a@.len() == b@.len(),
                a@[i as int]@.len() == b@[i as int]@.len(),
                j <= a@[i as int]@.len(),
                forall|l: int| 0 <= l < j ==> a@[i as int]@[l] == b@[i as int]@[l],
            decreases a@[i as int]@.len() - j,
        {
            if a[i][j] != b[i][j] {
                proof {
                    assert(grid_view(*a)[i as int][j as int] != grid_view(*b)[i as int][j as int]);
                }
                return false;
            }
            j += 1;
        }
        proof {
            assert(a@[i as int]@ =~= b@[i as int]@);
        }
        i += 1;
    }
    proof {
        assert(grid_view(*a) =~~= grid_view(*b));
    }
    true
}

} // verus!
