//! Building a prefab stamp from a declarative pattern: rows of marker
//! characters, `#` for `Alive` and anything else for `Dead`.

use vstd::prelude::*;
use vstd::string::StrSliceExecFns;

use crate::cell::Cell;
use crate::error::LifeError;
use crate::grid::{Grid, GridView};

verus! {

/// The cell a marker character denotes: `#` is `Alive`, every other
/// character is `Dead`.
pub open spec fn cell_of_marker(ch: char) -> Cell {
    if ch == '#' {
        Cell::Alive
    } else {
        Cell::Dead
    }
}

/// A pattern source is empty when it has no rows, or rows of length zero.
pub open spec fn source_empty(rows: Seq<Seq<char>>) -> bool {
    rows.len() == 0 || rows[0].len() == 0
}

/// A non-empty pattern source is malformed when some row's length differs
/// from the first row's.
pub open spec fn source_malformed(rows: Seq<Seq<char>>) -> bool {
    exists|i: int| 0 <= i < rows.len() && #[trigger] rows[i].len() != rows[0].len()
}

/// The view of each pattern row as a sequence of characters.
pub open spec fn row_views(rows: Seq<String>) -> Seq<Seq<char>> {
    rows.map_values(|s: String| s@)
}

/// A standalone grid built once from a declarative pattern, never mutated
/// afterwards, and used only as a read-only stamp.
pub struct Prefab {
    grid: Grid,
}

impl View for Prefab {
    type V = GridView;

    closed spec fn view(&self) -> GridView {
        self.grid@
    }
}

impl Prefab {
    /// Number of columns of the stamp.
    pub fn width(&self) -> (w: u32)
        ensures
            w == self@.width,
    {
        self.grid.width()
    }

    /// Number of rows of the stamp.
    pub fn height(&self) -> (h: u32)
        ensures
            h == self@.height,
    {
        self.grid.height()
    }

    /// The cell at `(row, col)` of the stamp.
    pub fn cell_at(&self, row: u32, col: u32) -> (c: Cell)
        requires
            self@.wf(),
            self@.in_bounds(row as int, col as int),
        ensures
            c == self@.cell(row as int, col as int),
    {
        self.grid.get(row, col)
    }
}

/// Parse a declarative pattern into a prefab grid whose width is the row
/// length and whose height is the row count. Fails with `EmptyPattern` when
/// there are no rows or the rows have length zero, and with
/// `MalformedPattern` when the rows' lengths differ. The bounds in the
/// precondition are machine limits on the stamp's size.
pub fn import_prefab(rows: &Vec<String>) -> (r: Result<Prefab, LifeError>)
    requires
        rows@.len() <= u32::MAX as nat,
        rows@.len() > 0 ==> rows@[0]@.len() <= u32::MAX as nat,
        rows@.len() > 0 ==> rows@[0]@.len() * rows@.len() <= usize::MAX as nat,
    ensures
        match r {
            Ok(p) => {
                &&& !source_empty(row_views(rows@))
                &&& !source_malformed(row_views(rows@))
                &&& p@.wf()
                &&& p@.width == rows@[0]@.len()
                &&& p@.height == rows@.len()
                &&& forall|i: int, j: int|
                    p@.in_bounds(i, j) ==> p@.cell(i, j) == cell_of_marker(rows@[i]@[j])
            },
            Err(e) => {
                &&& (e == LifeError::EmptyPattern || e == LifeError::MalformedPattern)
                &&& (e == LifeError::EmptyPattern <==> source_empty(row_views(rows@)))
                &&& (e == LifeError::MalformedPattern <==> !source_empty(row_views(rows@))
                    && source_malformed(row_views(rows@)))
            },
        },
{
    let nrows = rows.len();
    if nrows == 0 {
        return Err(LifeError::EmptyPattern);
    }
    let width = rows[0].as_str().unicode_len();
    if width == 0 {
        return Err(LifeError::EmptyPattern);
    }
    let mut i: usize = 1;
    while i < nrows
        invariant
            nrows == rows@.len(),
            1 <= i <= nrows,
            width > 0,
            width == rows@[0]@.len(),
            forall|j: int| 0 <= j < i ==> rows@[j]@.len() == width,
        decreases nrows - i,
    {
        if rows[i].as_str().unicode_len() != width {
            proof {
                assert(row_views(rows@)[i as int] == rows@[i as int]@);
                assert(row_views(rows@)[0] == rows@[0]@);
                assert(0 <= (i as int) < row_views(rows@).len() && row_views(rows@)[i as int].len()
                    != row_views(rows@)[0].len());
            }
            return Err(LifeError::MalformedPattern);
        }
        i = i + 1;
    }
    let w = width as u32;
    let h = nrows as u32;
    let mut cells: Vec<Cell> = Vec::new();
    let mut row: u32 = 0;
    while row < h
        invariant
            w == width,
            h == nrows,
            w > 0,
            nrows == rows@.len(),
            forall|j: int| 0 <= j < nrows ==> rows@[j]@.len() == width,
            row <= h,
            cells@.len() == row as nat * w as nat,
            forall|i2: int, j2: int|
                0 <= i2 < row && 0 <= j2 < w ==> cells@[i2 * (w as int) + j2] == cell_of_marker(
                    rows@[i2]@[j2],
                ),
        decreases h - row,
    {
        let mut col: u32 = 0;
        while col < w
            invariant
                w == width,
                h == nrows,
                w > 0,
                nrows == rows@.len(),
                forall|j: int| 0 <= j < nrows ==> rows@[j]@.len() == width,
                row < h,
                col <= w,
                cells@.len() == row as nat * w as nat + col as nat,
                forall|i2: int, j2: int|
                    (0 <= i2 < row && 0 <= j2 < w) || (i2 == row && 0 <= j2 < col)
                        ==> cells@[i2 * (w as int) + j2] == cell_of_marker(rows@[i2]@[j2]),
            decreases w - col,
        {
            let ch = rows[row as usize].as_str().get_char(col as usize);
            let cl = if ch == '#' {
                Cell::Alive
            } else {
                Cell::Dead
            };
            cells.push(cl);
            proof {
                assert forall|i2: int, j2: int|
                    (0 <= i2 < row && 0 <= j2 < w) || (i2 == row && 0 <= j2
                        < col + 1) implies cells@[i2 * (w as int) + j2] == cell_of_marker(
                    rows@[i2]@[j2],
                ) by {
                    if i2 < row {
                        crate::grid::lemma_flat_index_bound(i2, j2, w as int, row as int);
                    }
                }
            }
            col = col + 1;
        }
        proof {
            assert(cells@.len() == (row as nat + 1) * (w as nat)) by (nonlinear_arith)
                requires
                    cells@.len() == row as nat * w as nat + w as nat,
            ;
        }
        row = row + 1;
    }
    proof {
        vstd::arithmetic::mul::lemma_mul_is_commutative(w as int, h as int);
        assert(row_views(rows@)[0] == rows@[0]@);
        assert forall|j: int| 0 <= j < row_views(rows@).len() implies #[trigger] row_views(
            rows@,
        )[j].len() == row_views(rows@)[0].len() by {
            assert(row_views(rows@)[j] == rows@[j]@);
        }
    }
    let grid = Grid::from_cells(w, h, cells);
    let p = Prefab { grid };
    proof {
        assert forall|i2: int, j2: int| p@.in_bounds(i2, j2) implies p@.cell(i2, j2)
            == cell_of_marker(rows@[i2]@[j2]) by {
            crate::grid::lemma_index_in_range(p@, i2, j2);
        }
    }
    Ok(p)
}

} // verus!
