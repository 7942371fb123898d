//! The automaton engine: one live grid and the generation-step transition.

use vstd::prelude::*;

use crate::cell::Cell;
use crate::error::LifeError;
use crate::grid::{lemma_index_in_range, Grid, GridView};

verus! {

/// The birth/survival rule of the automaton: the next state is `Alive` iff
/// the cell has exactly three live neighbors, or is itself alive with
/// exactly two.
pub open spec fn next_state(cur: Cell, live_neighbors: nat) -> Cell {
    if live_neighbors == 3 || (cur == Cell::Alive && live_neighbors == 2) {
        Cell::Alive
    } else {
        Cell::Dead
    }
}

/// The cell that the step rule produces at `(r, c)`: the rule applied to the
/// old cell and its old live-neighbor count. Kept opaque so that reasoning
/// about a whole generation does not unfold eight neighbor lookups per cell.
#[verifier::opaque]
pub open spec fn stepped_cell(g: GridView, r: int, c: int) -> Cell {
    next_state(g.cell(r, c), g.live_neighbor_count(r, c))
}

/// Owns the one live grid; all mutation goes through its operations.
pub struct AutomatonEngine {
    grid: Grid,
}

impl View for AutomatonEngine {
    type V = GridView;

    closed spec fn view(&self) -> GridView {
        self.grid@
    }
}

impl AutomatonEngine {
    /// An engine over a fresh all-`Dead` grid. Fails with `InvalidDimension`
    /// exactly when a dimension is zero. The area bound is a machine limit.
    pub fn new(width: u32, height: u32) -> (r: Result<AutomatonEngine, LifeError>)
        requires
            width as nat * height as nat <= usize::MAX as nat,
        ensures
            match r {
                Ok(e) => {
                    &&& width > 0 && height > 0
                    &&& e@.wf()
                    &&& e@.width == width
                    &&& e@.height == height
                    &&& e@.all_dead()
                },
                Err(e) => e == LifeError::InvalidDimension && (width == 0 || height == 0),
            },
    {
        match Grid::new(width, height) {
            Ok(grid) => Ok(AutomatonEngine { grid }),
            Err(e) => Err(e),
        }
    }

    /// Number of columns of the live grid.
    pub fn width(&self) -> (w: u32)
        ensures
            w == self@.width,
    {
        self.grid.width()
    }

    /// Number of rows of the live grid.
    pub fn height(&self) -> (h: u32)
        ensures
            h == self@.height,
    {
        self.grid.height()
    }

    /// The cell at `(row, col)` of the live grid.
    pub fn cell_at(&self, row: u32, col: u32) -> (c: Cell)
        requires
            self@.wf(),
            self@.in_bounds(row as int, col as int),
        ensures
            c == self@.cell(row as int, col as int),
    {
        self.grid.get(row, col)
    }

    /// Read-only view of all cells in row-major order, for bulk rendering.
    pub fn cells(&self) -> (cs: &Vec<Cell>)
        ensures
            cs@ == self@.cells,
    {
        self.grid.cells()
    }

    /// Flip one cell, for direct editing. Out-of-range addresses are a caller
    /// error: the interaction layer clamps coordinates before calling.
    pub fn toggle_cell(&mut self, row: u32, col: u32)
        requires
            old(self)@.wf(),
            old(self)@.in_bounds(row as int, col as int),
        ensures
            final(self)@ == old(self)@.toggled(row as int, col as int),
    {
        self.grid.toggle(row, col);
    }

    /// Set every cell of the live grid to `Dead`.
    pub fn clear(&mut self)
        requires
            old(self)@.wf(),
        ensures
            final(self)@.wf(),
            final(self)@.width == old(self)@.width,
            final(self)@.height == old(self)@.height,
            final(self)@.all_dead(),
    {
        self.grid.clear();
    }

    /// Advance the grid by one generation. The new state of every cell is the
    /// rule applied to its old state and its old live-neighbor count: the
    /// whole generation is computed from a snapshot of the current one and
    /// swapped in atomically, so no neighbor count ever sees a half-updated
    /// grid. `step` never fails.
    #[verifier::rlimit(60)]
    pub fn step(&mut self)
        requires
            old(self)@.wf(),
        ensures
            final(self)@.wf(),
            final(self)@.width == old(self)@.width,
            final(self)@.height == old(self)@.height,
            forall|r: int, c: int|
                old(self)@.in_bounds(r, c) ==> final(self)@.cell(r, c) == next_state(
                    old(self)@.cell(r, c),
                    old(self)@.live_neighbor_count(r, c),
                ),
    {
        let w = self.grid.width();
        let h = self.grid.height();
        let ghost g = self@;
        let mut next: Vec<Cell> = Vec::new();
        let mut row: u32 = 0;
        while row < h
            invariant
                self@ == g,
                g.wf(),
                w == g.width,
                h == g.height,
                row <= h,
                next@.len() == row as nat * w as nat,
                forall|r: int, c: int|
                    0 <= r < row && 0 <= c < w ==> next@[r * (w as int) + c] == stepped_cell(
                        g,
                        r,
                        c,
                    ),
            decreases h - row,
        {
            let mut col: u32 = 0;
            while col < w
                invariant
                    self@ == g,
                    g.wf(),
                    w == g.width,
                    h == g.height,
                    row < h,
                    col <= w,
                    next@.len() == row as nat * w as nat + col as nat,
                    forall|r: int, c: int|
                        (0 <= r < row && 0 <= c < w) || (r == row && 0 <= c < col)
                            ==> next@[r * (w as int) + c] == stepped_cell(g, r, c),
                decreases w - col,
            {
                let n = self.grid.count_live_neighbors(row, col);
                let cur = self.grid.get(row, col);
                let nxt = if n == 3 || (cur == Cell::Alive && n == 2) {
                    Cell::Alive
                } else {
                    Cell::Dead
                };
                next.push(nxt);
                proof {
                    assert(nxt == stepped_cell(g, row as int, col as int)) by {
                        reveal(stepped_cell);
                    }
                    assert forall|r: int, c: int|
                        (0 <= r < row && 0 <= c < w) || (r == row && 0 <= c
                            < col + 1) implies next@[r * (w as int) + c] == stepped_cell(
                        g,
                        r,
                        c,
                    ) by {
                        if r < row {
                            crate::grid::lemma_flat_index_bound(r, c, w as int, row as int);
                        }
                    }
                }
                col = col + 1;
            }
            proof {
                assert(next@.len() == (row as nat + 1) * (w as nat)) by (nonlinear_arith)
                    requires
                        next@.len() == row as nat * w as nat + w as nat,
                ;
            }
            row = row + 1;
        }
        proof {
            vstd::arithmetic::mul::lemma_mul_is_commutative(h as int, w as int);
            assert(next@.len() == g.cells.len());
        }
        self.grid.replace_cells(next);
        proof {
            assert forall|r: int, c: int| g.in_bounds(r, c) implies self@.cell(r, c) == next_state(
                g.cell(r, c),
                g.live_neighbor_count(r, c),
            ) by {
                reveal(stepped_cell);
                lemma_index_in_range(g, r, c);
                assert(next@[r * (w as int) + c] == stepped_cell(g, r, c));
                assert(r * (self@.width as int) + c == r * (w as int) + c);
            }
        }
    }
}

/// No spontaneous life: on an all-`Dead` grid every live-neighbor count is
/// zero, so stepping leaves every cell `Dead`.
pub proof fn lemma_step_of_all_dead_is_all_dead(g: GridView)
    requires
        g.wf(),
        g.all_dead(),
    ensures
        forall|r: int, c: int|
            g.in_bounds(r, c) ==> next_state(g.cell(r, c), g.live_neighbor_count(r, c))
                == Cell::Dead,
{
    assert forall|r: int, c: int| g.in_bounds(r, c) implies next_state(
        g.cell(r, c),
        g.live_neighbor_count(r, c),
    ) == Cell::Dead by {
        lemma_all_dead_count_zero(g, r, c);
    }
}

/// Every cell of the grid other than `(row, col)` is `Dead`.
pub open spec fn dead_except(g: GridView, row: int, col: int) -> bool {
    forall|r2: int, c2: int|
        g.in_bounds(r2, c2) && (r2 != row || c2 != col) ==> g.cell(r2, c2) == Cell::Dead
}

/// On a grid whose cells other than `(row, col)` are all `Dead`, the
/// live-neighbor count of `(row, col)` is zero: a cell is never its own
/// neighbor, however the offsets wrap.
pub proof fn lemma_lone_cell_count_zero(g: GridView, row: int, col: int)
    requires
        g.wf(),
        dead_except(g, row, col),
        g.in_bounds(row, col),
    ensures
        g.live_neighbor_count(row, col) == 0,
{
    lemma_neighbor_contrib_zero(g, row, col, -1, -1);
    lemma_neighbor_contrib_zero(g, row, col, -1, 0);
    lemma_neighbor_contrib_zero(g, row, col, -1, 1);
    lemma_neighbor_contrib_zero(g, row, col, 0, -1);
    lemma_neighbor_contrib_zero(g, row, col, 0, 1);
    lemma_neighbor_contrib_zero(g, row, col, 1, -1);
    lemma_neighbor_contrib_zero(g, row, col, 1, 0);
    lemma_neighbor_contrib_zero(g, row, col, 1, 1);
}

proof fn lemma_neighbor_contrib_zero(g: GridView, row: int, col: int, dr: int, dc: int)
    requires
        g.wf(),
        dead_except(g, row, col),
        g.in_bounds(row, col),
        -1 <= dr <= 1,
        -1 <= dc <= 1,
    ensures
        g.neighbor_contrib(row, col, dr, dc) == 0,
{
    vstd::arithmetic::div_mod::lemma_mod_pos_bound(row + dr + g.height as int, g.height as int);
    vstd::arithmetic::div_mod::lemma_mod_pos_bound(col + dc + g.width as int, g.width as int);
}

/// On an all-`Dead` grid the live-neighbor count of every cell is zero.
pub proof fn lemma_all_dead_count_zero(g: GridView, row: int, col: int)
    requires
        g.wf(),
        g.all_dead(),
        g.in_bounds(row, col),
    ensures
        g.live_neighbor_count(row, col) == 0,
{
    lemma_lone_cell_count_zero(g, row, col);
}

/// The isolated-cell rule: a single `Alive` cell with no `Alive` neighbors
/// has a live-neighbor count of zero, so it dies in the next generation.
pub proof fn lemma_isolated_cell_dies(g: GridView, row: int, col: int)
    requires
        g.wf(),
        g.in_bounds(row, col),
        g.cell(row, col) == Cell::Alive,
        dead_except(g, row, col),
    ensures
        g.live_neighbor_count(row, col) == 0,
        next_state(g.cell(row, col), g.live_neighbor_count(row, col)) == Cell::Dead,
{
    lemma_lone_cell_count_zero(g, row, col);
}

} // verus!
