//! A fixed-size, row-major grid of pixels.
//!
//! The grid is generic in its pixel type: colour arithmetic lives with the
//! caller, the grid only stores, reads and overwrites cells.
use vstd::prelude::*;

verus! {

/// The error of a pixel access outside the grid.
#[derive(Clone, Copy, Debug, PartialEq, Eq, Structural)]
pub struct OutOfBounds {
    pub row: usize,
    pub column: usize,
}

/// A `columns` x `rows` grid, stored row by row, top to bottom.
pub struct Canvas<T> {
    columns: usize,
    rows: usize,
    pixels: Vec<T>,
}

/// Position of cell `(row, column)` in the row-major storage of a grid
/// `width` cells wide.
pub open spec fn cell_index(width: nat, row: nat, column: nat) -> int {
    (row * width + column) as int
}

/// A cell index of an in-bounds access lies inside the storage.
pub proof fn lemma_cell_index_in_range(width: nat, height: nat, row: nat, column: nat)
    requires
        row < height,
        column < width,
    ensures
        0 <= cell_index(width, row, column) < width * height,
{
    assert(row * width + column < width * height) by (nonlinear_arith)
        requires
            row < height,
            column < width,
    ;
}

/// Distinct in-bounds cells have distinct positions in the storage.
pub proof fn lemma_cell_index_injective(width: nat, r1: nat, c1: nat, r2: nat, c2: nat)
    requires
        c1 < width,
        c2 < width,
        cell_index(width, r1, c1) == cell_index(width, r2, c2),
    ensures
        r1 == r2,
        c1 == c2,
{
    if r1 < r2 {
        assert(r1 * width + c1 < r2 * width + c2) by (nonlinear_arith)
            requires
                r1 < r2,
                c1 < width,
        ;
    } else if r2 < r1 {
        assert(r2 * width + c2 < r1 * width + c1) by (nonlinear_arith)
            requires
                r2 < r1,
                c2 < width,
        ;
    }
}

impl<T: Copy> Canvas<T> {
    /// Number of columns.
    pub closed spec fn width(&self) -> nat {
        self.columns as nat
    }

    /// Number of rows.
    pub closed spec fn height(&self) -> nat {
        self.rows as nat
    }

    /// All cells, row by row.
    pub closed spec fn cells(&self) -> Seq<T> {
        self.pixels@
    }

    /// The cell at `(row, column)`.
    pub open spec fn pixel(&self, row: nat, column: nat) -> T {
        self.cells()[cell_index(self.width(), row, column)]
    }

    /// Whether `(row, column)` names a cell of this grid.
    pub open spec fn in_bounds(&self, row: int, column: int) -> bool {
        0 <= row < self.height() && 0 <= column < self.width()
    }

    /// The storage holds exactly one cell per (row, column) pair.
    pub closed spec fn wf(&self) -> bool {
        &&& self.columns * self.rows <= usize::MAX
        &&& self.pixels@.len() == self.columns * self.rows
    }

    /// The storage of a well-formed grid has `width * height` cells.
    pub proof fn lemma_cells_len(&self)
        requires
            self.wf(),
        ensures
            self.cells().len() == self.width() * self.height(),
            self.width() * self.height() <= usize::MAX,
    {
    }

    /// A grid of `columns` x `rows` cells, each set to `background`.
    pub fn new(columns: usize, rows: usize, background: T) -> (r: Self)
        requires
            columns * rows <= usize::MAX,
        ensures
            r.wf(),
            r.width() == columns,
            r.height() == rows,
            r.cells().len() == columns * rows,
            forall|i: int| 0 <= i < r.cells().len() ==> r.cells()[i] == background,
    {
        let n: usize = columns * rows;
        let mut pixels: Vec<T> = Vec::with_capacity(n);
        let mut i: usize = 0;
        while i < n
            invariant
                i <= n,
                pixels@.len() == i,
                forall|k: int| 0 <= k < i ==> pixels@[k] == background,
            decreases n - i,
        {
            pixels.push(background);
            i = i + 1;
        }
        Canvas { columns, rows, pixels }
    }

    /// A grid of `columns` x `rows` cells taken row by row from `pixels`,
    /// or `None` when `pixels` does not hold exactly that many cells.
    pub fn from_pixels(columns: usize, rows: usize, pixels: Vec<T>) -> (r: Option<Self>)
        ensures
            pixels@.len() != columns * rows ==> r.is_none(),
            pixels@.len() == columns * rows ==> r.is_some() && r.unwrap().wf() && r.unwrap().width()
                == columns && r.unwrap().height() == rows && r.unwrap().cells() == pixels@,
    {
        let len: usize = pixels.len();
        match columns.checked_mul(rows) {
            Some(n) => {
                if len == n {
                    Some(Canvas { columns, rows, pixels })
                } else {
                    None
                }
            },
            None => None,
        }
    }

    /// Number of columns.
    pub fn width_of(&self) -> (r: usize)
        ensures
            r == self.width(),
    {
        self.columns
    }

    /// Number of rows.
    pub fn height_of(&self) -> (r: usize)
        ensures
            r == self.height(),
    {
        self.rows
    }

    /// All cells, row by row.
    pub fn pixels(&self) -> (r: &Vec<T>)
        ensures
            r@ == self.cells(),
    {
        &self.pixels
    }

    /// The cell at `(row, column)`, or `OutOfBounds` when there is no such cell.
    pub fn get(&self, row: usize, column: usize) -> (r: Result<T, OutOfBounds>)
        requires
            self.wf(),
        ensures
            self.in_bounds(row as int, column as int) ==> r == Ok::<T, OutOfBounds>(
                self.pixel(row as nat, column as nat),
            ),
            !self.in_bounds(row as int, column as int) ==> r == Err::<T, OutOfBounds>(
                OutOfBounds { row, column },
            ),
    {
        if row < self.rows && column < self.columns {
            proof {
                lemma_cell_index_in_range(self.width(), self.height(), row as nat, column as nat);
            }
            Ok(self.pixels[row * self.columns + column])
        } else {
            Err(OutOfBounds { row, column })
        }
    }

    /// Overwrite the cell at `(row, column)`; outside the grid nothing
    /// changes and `OutOfBounds` is returned.
    pub fn set(&mut self, row: usize, column: usize, value: T) -> (r: Result<(), OutOfBounds>)
        requires
            old(self).wf(),
        ensures
            final(self).wf(),
            final(self).width() == old(self).width(),
            final(self).height() == old(self).height(),
            old(self).in_bounds(row as int, column as int) ==> r == Ok::<(), OutOfBounds>(())
                && final(self).cells() == old(self).cells().update(
                cell_index(old(self).width(), row as nat, column as nat),
                value,
            ) && final(self).pixel(row as nat, column as nat) == value,
            forall|r2: nat, c2: nat|
                #![trigger final(self).pixel(r2, c2)]
                old(self).in_bounds(r2 as int, c2 as int) && (r2 != row || c2 != column)
                    ==> final(self).pixel(r2, c2) == old(self).pixel(r2, c2),
            !old(self).in_bounds(row as int, column as int) ==> r == Err::<(), OutOfBounds>(
                OutOfBounds { row, column },
            ) && final(self).cells() == old(self).cells(),
    {
        if row < self.rows && column < self.columns {
            proof {
                lemma_cell_index_in_range(self.width(), self.height(), row as nat, column as nat);
            }
            let i: usize = row * self.columns + column;
            self.pixels[i] = value;
            proof {
                assert forall|r2: nat, c2: nat|
                    #![trigger self.pixel(r2, c2)]
                    old(self).in_bounds(r2 as int, c2 as int) && (r2 != row || c2 != column)
                        implies self.pixel(r2, c2) == old(self).pixel(r2, c2) by {
                    lemma_cell_index_in_range(old(self).width(), old(self).height(), r2, c2);
                    if cell_index(old(self).width(), r2, c2) == i as int {
                        lemma_cell_index_injective(old(self).width(), r2, c2, row as nat, column as nat);
                    }
                }
            }
            Ok(())
        } else {
            Err(OutOfBounds { row, column })
        }
    }
}

} // verus!
