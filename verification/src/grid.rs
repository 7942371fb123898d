//! The toroidal 2-D field of cells: storage, addressing, and neighbor counting.

use vstd::arithmetic::div_mod::{lemma_mod_multiples_vanish, lemma_mod_pos_bound, lemma_small_mod};
use vstd::prelude::*;

use crate::cell::{flipped, Cell};
use crate::error::LifeError;

verus! {

/// A row or column index moved by `delta` and wrapped toroidally modulo `m`.
/// Meant for `0 <= i < m` and `delta` in `{-1, 0, 1}`, where the argument of
/// `%` stays non-negative.
pub open spec fn wrap(i: int, delta: int, m: int) -> int {
    (i + delta + m) % m
}

/// The mathematical model of a grid: its dimensions and the flat,
/// row-major sequence of cells.
#[verifier::ext_equal]
pub ghost struct GridView {
    pub width: nat,
    pub height: nat,
    pub cells: Seq<Cell>,
}

impl GridView {
    /// Well-formedness: positive dimensions, and exactly `width * height`
    /// cells (a count that fits the machine's address space).
    pub open spec fn wf(self) -> bool {
        &&& self.width > 0
        &&& self.height > 0
        &&& self.width * self.height <= usize::MAX as nat
        &&& self.cells.len() == self.width * self.height
    }

    /// Whether `(row, col)` addresses a cell of this grid.
    pub open spec fn in_bounds(self, row: int, col: int) -> bool {
        0 <= row < self.height && 0 <= col < self.width
    }

    /// Flat row-major position of `(row, col)`.
    pub open spec fn index_of(self, row: int, col: int) -> int {
        row * self.width + col
    }

    /// The cell stored at `(row, col)`.
    pub open spec fn cell(self, row: int, col: int) -> Cell {
        self.cells[self.index_of(row, col)]
    }

    /// Every cell of the grid is `Dead`.
    pub open spec fn all_dead(self) -> bool {
        forall|r: int, c: int| self.in_bounds(r, c) ==> self.cell(r, c) == Cell::Dead
    }

    /// The same grid with the cell at `(row, col)` flipped.
    pub open spec fn toggled(self, row: int, col: int) -> GridView {
        GridView {
            cells: self.cells.update(self.index_of(row, col), flipped(self.cell(row, col))),
            ..self
        }
    }

    /// Contribution of the neighbor at offset `(dr, dc)` to the live-neighbor
    /// count of `(row, col)`: one if the toroidally wrapped address holds an
    /// `Alive` cell, and zero otherwise. An offset whose wrapped address lands
    /// back on `(row, col)` itself contributes nothing, so on degenerate grids
    /// (width or height of one) a cell never counts itself.
    pub open spec fn neighbor_contrib(self, row: int, col: int, dr: int, dc: int) -> nat {
        let nr = wrap(row, dr, self.height as int);
        let nc = wrap(col, dc, self.width as int);
        if nr == row && nc == col {
            0
        } else if self.cell(nr, nc) == Cell::Alive {
            1
        } else {
            0
        }
    }

    /// Number of `Alive` cells among the eight toroidally wrapped neighbor
    /// offsets of `(row, col)`.
    pub open spec fn live_neighbor_count(self, row: int, col: int) -> nat {
        self.neighbor_contrib(row, col, -1, -1) + self.neighbor_contrib(row, col, -1, 0)
            + self.neighbor_contrib(row, col, -1, 1) + self.neighbor_contrib(row, col, 0, -1)
            + self.neighbor_contrib(row, col, 0, 1) + self.neighbor_contrib(row, col, 1, -1)
            + self.neighbor_contrib(row, col, 1, 0) + self.neighbor_contrib(row, col, 1, 1)
    }
}

/// A flat row-major index stays below the grid area.
pub proof fn lemma_flat_index_bound(r: int, c: int, w: int, h: int)
    by (nonlinear_arith)
    requires
        0 <= r < h,
        0 <= c < w,
    ensures
        0 <= r * w + c < h * w,
        0 <= r * w + c < w * h,
{
}

/// A well-formed grid's flat index addresses one of its stored cells.
pub proof fn lemma_index_in_range(g: GridView, r: int, c: int)
    requires
        g.wf(),
        g.in_bounds(r, c),
    ensures
        0 <= g.index_of(r, c) < g.cells.len(),
{
    lemma_flat_index_bound(r, c, g.width as int, g.height as int);
}

/// Distinct `(row, col)` pairs have distinct flat row-major indices.
pub proof fn lemma_flat_index_injective(r1: int, c1: int, r2: int, c2: int, w: int)
    by (nonlinear_arith)
    requires
        0 <= c1 < w,
        0 <= c2 < w,
        0 <= r1,
        0 <= r2,
        r1 * w + c1 == r2 * w + c2,
    ensures
        r1 == r2 && c1 == c2,
{
}

/// A fixed-size toroidal field of cells, stored flat in row-major order.
/// The grid never resizes after construction.
pub struct Grid {
    width: u32,
    height: u32,
    cells: Vec<Cell>,
}

impl View for Grid {
    type V = GridView;

    closed spec fn view(&self) -> GridView {
        GridView { width: self.width as nat, height: self.height as nat, cells: self.cells@ }
    }
}

impl Grid {
    /// A grid with every cell `Dead`. Fails with `InvalidDimension` exactly
    /// when a dimension is zero. The area bound is a machine limit: the cells
    /// must fit in one allocation.
    pub fn new(width: u32, height: u32) -> (r: Result<Grid, LifeError>)
        requires
            width as nat * height as nat <= usize::MAX as nat,
        ensures
            match r {
                Ok(g) => {
                    &&& width > 0 && height > 0
                    &&& g@.wf()
                    &&& g@.width == width
                    &&& g@.height == height
                    &&& g@.all_dead()
                },
                Err(e) => e == LifeError::InvalidDimension && (width == 0 || height == 0),
            },
    {
        if width == 0 || height == 0 {
            return Err(LifeError::InvalidDimension);
        }
        let total: u64 = width as u64 * height as u64;
        let mut cells: Vec<Cell> = Vec::new();
        let mut i: u64 = 0;
        while i < total
            invariant
                total == width as u64 * height as u64,
                total <= usize::MAX as u64,
                i <= total,
                cells@.len() == i,
                forall|j: int| 0 <= j < i ==> cells@[j] == Cell::Dead,
            decreases total - i,
        {
            cells.push(Cell::Dead);
            i = i + 1;
        }
        let g = Grid { width, height, cells };
        proof {
            assert forall|r: int, c: int| g@.in_bounds(r, c) implies g@.cell(r, c)
                == Cell::Dead by {
                lemma_index_in_range(g@, r, c);
            }
        }
        Ok(g)
    }

    /// Number of columns.
    pub fn width(&self) -> (w: u32)
        ensures
            w == self@.width,
    {
        self.width
    }

    /// Number of rows.
    pub fn height(&self) -> (h: u32)
        ensures
            h == self@.height,
    {
        self.height
    }

    /// Read-only view of all cells in row-major order, for bulk rendering.
    pub fn cells(&self) -> (cs: &Vec<Cell>)
        ensures
            cs@ == self@.cells,
    {
        &self.cells
    }

    /// Flat row-major position of `(row, col)`. Out-of-range addresses are a
    /// caller error, ruled out by the precondition.
    pub fn index_of(&self, row: u32, col: u32) -> (i: usize)
        requires
            self@.wf(),
            self@.in_bounds(row as int, col as int),
        ensures
            i == self@.index_of(row as int, col as int),
            i < self@.cells.len(),
    {
        proof {
            lemma_index_in_range(self@, row as int, col as int);
            assert((row as int) * (self.width as int) + (col as int) < self@.cells.len());
            assert(self@.cells.len() <= usize::MAX as nat);
        }
        let idx: u64 = row as u64 * self.width as u64 + col as u64;
        idx as usize
    }

    /// The cell at `(row, col)`, without wraparound: addressing is direct,
    /// wraparound applies only to neighbor lookups.
    pub fn get(&self, row: u32, col: u32) -> (c: Cell)
        requires
            self@.wf(),
            self@.in_bounds(row as int, col as int),
        ensures
            c == self@.cell(row as int, col as int),
    {
        let i = self.index_of(row, col);
        self.cells[i]
    }

    /// Overwrite the cell at `(row, col)`.
    pub fn set(&mut self, row: u32, col: u32, v: Cell)
        requires
            old(self)@.wf(),
            old(self)@.in_bounds(row as int, col as int),
        ensures
            final(self)@ == (GridView {
                cells: old(self)@.cells.update(old(self)@.index_of(row as int, col as int), v),
                ..old(self)@
            }),
    {
        let i = self.index_of(row, col);
        self.cells.set(i, v);
    }

    /// Flip the cell at `(row, col)` between `Alive` and `Dead`.
    pub fn toggle(&mut self, row: u32, col: u32)
        requires
            old(self)@.wf(),
            old(self)@.in_bounds(row as int, col as int),
        ensures
            final(self)@ == old(self)@.toggled(row as int, col as int),
    {
        let mut c = self.get(row, col);
        c.toggle();
        self.set(row, col, c);
    }

    /// Set every cell to `Dead`; the dimensions stay as they are.
    pub fn clear(&mut self)
        requires
            old(self)@.wf(),
        ensures
            final(self)@.wf(),
            final(self)@.width == old(self)@.width,
            final(self)@.height == old(self)@.height,
            final(self)@.all_dead(),
    {
        let len = self.cells.len();
        let mut i: usize = 0;
        while i < len
            invariant
                self@.wf(),
                len == self@.cells.len(),
                self@.width == old(self)@.width,
                self@.height == old(self)@.height,
                i <= len,
                forall|j: int| 0 <= j < i ==> self@.cells[j] == Cell::Dead,
            decreases len - i,
        {
            self.cells.set(i, Cell::Dead);
            i = i + 1;
        }
        proof {
            assert forall|r: int, c: int| self@.in_bounds(r, c) implies self@.cell(r, c)
                == Cell::Dead by {
                lemma_index_in_range(self@, r, c);
            }
        }
    }

    /// The row above, wrapped toroidally.
    fn wrap_dec(i: u32, m: u32) -> (r: u32)
        requires
            0 < m,
            i < m,
        ensures
            r == wrap(i as int, -1, m as int),
    {
        proof {
            lemma_mod_pos_bound(i as int - 1 + m as int, m as int);
        }
        ((i as u64 + m as u64 - 1) % m as u64) as u32
    }

    /// The row below, wrapped toroidally.
    fn wrap_inc(i: u32, m: u32) -> (r: u32)
        requires
            0 < m,
            i < m,
        ensures
            r == wrap(i as int, 1, m as int),
    {
        proof {
            lemma_mod_pos_bound(i as int + 1 + m as int, m as int);
            lemma_mod_multiples_vanish(1, i as int + 1, m as int);
        }
        ((i as u64 + 1) % m as u64) as u32
    }

    /// Contribution of the (already wrapped) neighbor address `(nr, nc)` to
    /// the live-neighbor count of `(row, col)`.
    fn contrib_at(&self, row: u32, col: u32, nr: u32, nc: u32) -> (b: u8)
        requires
            self@.wf(),
            self@.in_bounds(nr as int, nc as int),
        ensures
            b == (if nr == row && nc == col {
                0nat
            } else if self@.cell(nr as int, nc as int) == Cell::Alive {
                1nat
            } else {
                0nat
            }),
    {
        if nr == row && nc == col {
            0
        } else if self.get(nr, nc) == Cell::Alive {
            1
        } else {
            0
        }
    }

    /// Number of `Alive` cells among the eight toroidally wrapped neighbors
    /// of `(row, col)`. A wrapped address equal to `(row, col)` itself is not
    /// counted, so a cell never counts itself, not even on a 1x1 grid where
    /// every offset wraps back onto it.
    pub fn count_live_neighbors(&self, row: u32, col: u32) -> (n: u8)
        requires
            self@.wf(),
            self@.in_bounds(row as int, col as int),
        ensures
            n == self@.live_neighbor_count(row as int, col as int),
            n <= 8,
    {
        let h = self.height;
        let w = self.width;
        let rm = Grid::wrap_dec(row, h);
        let rp = Grid::wrap_inc(row, h);
        let cm = Grid::wrap_dec(col, w);
        let cp = Grid::wrap_inc(col, w);
        proof {
            lemma_mod_pos_bound(row as int - 1 + h as int, h as int);
            lemma_mod_pos_bound(row as int + 1 + h as int, h as int);
            lemma_mod_pos_bound(row as int + h as int, h as int);
            lemma_mod_pos_bound(col as int - 1 + w as int, w as int);
            lemma_mod_pos_bound(col as int + 1 + w as int, w as int);
            lemma_mod_pos_bound(col as int + w as int, w as int);
            lemma_mod_multiples_vanish(1, row as int, h as int);
            lemma_mod_multiples_vanish(1, col as int, w as int);
            lemma_small_mod(row as nat, h as nat);
            lemma_small_mod(col as nat, w as nat);
            assert(wrap(row as int, 0, h as int) == row as int);
            assert(wrap(col as int, 0, w as int) == col as int);
        }
        let n = self.contrib_at(row, col, rm, cm) + self.contrib_at(row, col, rm, col)
            + self.contrib_at(row, col, rm, cp) + self.contrib_at(row, col, row, cm)
            + self.contrib_at(row, col, row, cp) + self.contrib_at(row, col, rp, cm)
            + self.contrib_at(row, col, rp, col) + self.contrib_at(row, col, rp, cp);
        n
    }

    /// A grid over an already computed row-major cell sequence.
    pub(crate) fn from_cells(width: u32, height: u32, cells: Vec<Cell>) -> (g: Grid)
        requires
            width > 0,
            height > 0,
            width as nat * height as nat <= usize::MAX as nat,
            cells@.len() == width as nat * height as nat,
        ensures
            g@ == (GridView { width: width as nat, height: height as nat, cells: cells@ }),
    {
        Grid { width, height, cells }
    }

    /// Swap in a freshly computed generation of the same size.
    pub(crate) fn replace_cells(&mut self, cells: Vec<Cell>)
        requires
            cells@.len() == old(self)@.cells.len(),
        ensures
            final(self)@ == (GridView { cells: cells@, ..old(self)@ }),
    {
        self.cells = cells;
    }
}

/// Toggling the same cell twice returns the grid to its original state.
pub proof fn lemma_toggle_involution(g: GridView, row: int, col: int)
    requires
        g.wf(),
        g.in_bounds(row, col),
    ensures
        g.toggled(row, col).toggled(row, col) == g,
{
    lemma_index_in_range(g, row, col);
    let i = g.index_of(row, col);
    crate::cell::lemma_flip_involution(g.cell(row, col));
    assert(g.toggled(row, col).cell(row, col) == flipped(g.cell(row, col)));
    assert(g.toggled(row, col).toggled(row, col).cells =~= g.cells);
    assert(g.toggled(row, col).toggled(row, col) =~= g);
}

/// On a 1x1 grid every neighbor offset wraps back onto the cell itself, and
/// the cell is never counted as its own neighbor: the count is zero.
pub proof fn lemma_single_cell_counts_no_self(g: GridView)
    requires
        g.wf(),
        g.width == 1,
        g.height == 1,
    ensures
        g.live_neighbor_count(0, 0) == 0,
{
}

} // verus!
