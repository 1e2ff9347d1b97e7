use vstd::prelude::*;

use super::cell::Cell;

verus! {

/// A row of `w` blank cells.
pub open spec fn blank_row(w: nat) -> Seq<Cell> {
    Seq::new(w, |_j: int| Cell::blank())
}

/// Every row of `cells` holds exactly `w` cells.
pub open spec fn rows_have_width(cells: Seq<Seq<Cell>>, w: nat) -> bool {
    forall|i: int| 0 <= i < cells.len() ==> #[trigger] cells[i].len() == w
}

/// `cells` with cell `(x, y)` replaced by `c`.
pub open spec fn with_cell(cells: Seq<Seq<Cell>>, x: int, y: int, c: Cell) -> Seq<Seq<Cell>> {
    cells.update(y, cells[y].update(x, c))
}

/// `cells` with the cells at `(x1, y1)` and `(x2, y2)` exchanged.
pub open spec fn swapped_cells(cells: Seq<Seq<Cell>>, x1: int, y1: int, x2: int, y2: int) -> Seq<
    Seq<Cell>,
> {
    let a = cells[y1][x1];
    let b = cells[y2][x2];
    with_cell(with_cell(cells, x1, y1, b), x2, y2, a)
}

/// A rectangular array of cells, stored row by row.
#[derive(Debug)]
pub struct Grid {
    width: usize,
    rows: Vec<Vec<Cell>>,
}

impl View for Grid {
    type V = Seq<Seq<Cell>>;

    closed spec fn view(&self) -> Seq<Seq<Cell>> {
        self.rows@.map_values(|r: Vec<Cell>| r@)
    }
}

impl Grid {
    /// The number of columns.
    pub closed spec fn w(&self) -> nat {
        self.width as nat
    }

    /// The grid is rectangular: each row holds `w()` cells; its rows can be counted by a
    /// `usize`.
    pub open spec fn wf(&self) -> bool {
        &&& rows_have_width(self@, self.w())
        &&& self@.len() <= usize::MAX
    }

    fn blank_row_vec(width: usize) -> (row: Vec<Cell>)
        ensures
            row@ == blank_row(width as nat),
    {
        let mut row: Vec<Cell> = Vec::new();
        let mut x: usize = 0;
        while x < width
            invariant
                x <= width,
                row@ == blank_row(x as nat),
            decreases width - x,
        {
            row.push(Cell::default());
            x = x + 1;
            assert(row@ =~= blank_row(x as nat));
        }
        row
    }

    /// A grid of `width` columns and `height` rows of blank cells.
    pub fn new(width: usize, height: usize) -> (g: Grid)
        ensures
            g.wf(),
            g.w() == width,
            g@ == Seq::new(height as nat, |_i: int| blank_row(width as nat)),
    {
        let mut rows: Vec<Vec<Cell>> = Vec::new();
        let mut y: usize = 0;
        while y < height
            invariant
                y <= height,
                rows@.len() == y,
                forall|i: int| 0 <= i < y ==> #[trigger] rows@[i]@ == blank_row(width as nat),
            decreases height - y,
        {
            let row = Self::blank_row_vec(width);
            rows.push(row);
            y = y + 1;
        }
        let g = Grid { width, rows };
        assert(g@ =~= Seq::new(height as nat, |_i: int| blank_row(width as nat)));
        g
    }

    /// The number of columns.
    pub fn width(&self) -> (w: usize)
        ensures
            w == self.w(),
    {
        self.width
    }

    /// The number of rows.
    pub fn height(&self) -> (h: usize)
        ensures
            h == self@.len(),
    {
        self.rows.len()
    }

    /// The cell at column `x` of row `y`, if that position lies in the grid.
    pub fn get(&self, x: usize, y: usize) -> (c: Option<Cell>)
        requires
            self.wf(),
        ensures
            c == (if y < self@.len() && x < self.w() {
                Some(self@[y as int][x as int])
            } else {
                None
            }),
    {
        if y < self.rows.len() {
            assert(self@[y as int] == self.rows@[y as int]@);
            if x < self.rows[y].len() {
                return Some(self.rows[y][x]);
            }
        }
        None
    }

    /// Writes `cell` at column `x` of row `y`; returns whether the position lies in the grid
    /// (a position outside it is left alone).
    pub fn set(&mut self, x: usize, y: usize, cell: Cell) -> (done: bool)
        requires
            old(self).wf(),
        ensures
            final(self).wf(),
            final(self).w() == old(self).w(),
            done == (y < old(self)@.len() && x < old(self).w()),
            final(self)@ == (if done {
                with_cell(old(self)@, x as int, y as int, cell)
            } else {
                old(self)@
            }),
    {
        if y < self.rows.len() {
            assert(self@[y as int] == self.rows@[y as int]@);
            if x < self.rows[y].len() {
                self.rows[y].set(x, cell);
                assert(self@ =~= with_cell(old(self)@, x as int, y as int, cell));
                return true;
            }
        }
        false
    }

    /// Exchanges the cells at `(x1, y1)` and `(x2, y2)` when both lie in the grid; does
    /// nothing otherwise.
    pub fn swap_cells(&mut self, x1: usize, y1: usize, x2: usize, y2: usize)
        requires
            old(self).wf(),
        ensures
            final(self).wf(),
            final(self).w() == old(self).w(),
            final(self)@ == (if y1 < old(self)@.len() && x1 < old(self).w() && y2 < old(
                self,
            )@.len() && x2 < old(self).w() {
                swapped_cells(old(self)@, x1 as int, y1 as int, x2 as int, y2 as int)
            } else {
                old(self)@
            }),
    {
        if y1 < self.rows.len() && y2 < self.rows.len() {
            assert(self@[y1 as int] == self.rows@[y1 as int]@);
            assert(self@[y2 as int] == self.rows@[y2 as int]@);
            if x1 < self.rows[y1].len() && x2 < self.rows[y2].len() {
                let a = self.rows[y1][x1];
                let b = self.rows[y2][x2];
                self.rows[y1].set(x1, b);
                self.rows[y2].set(x2, a);
                assert(self@ =~= swapped_cells(
                    old(self)@,
                    x1 as int,
                    y1 as int,
                    x2 as int,
                    y2 as int,
                ));
            }
        }
    }

    /// Removes row `y` and hands it out, leaving a blank row in its place. A row outside the
    /// grid gives an empty row and leaves the grid alone.
    pub fn take_row(&mut self, y: usize) -> (row: Vec<Cell>)
        requires
            old(self).wf(),
        ensures
            final(self).wf(),
            final(self).w() == old(self).w(),
            y < old(self)@.len() ==> row@ == old(self)@[y as int] && final(self)@ == old(
                self,
            )@.update(y as int, blank_row(old(self).w())),
            y >= old(self)@.len() ==> row@ == Seq::<Cell>::empty() && final(self)@ == old(self)@,
    {
        if y < self.rows.len() {
            let mut row = Self::blank_row_vec(self.width);
            std::mem::swap(&mut row, &mut self.rows[y]);
            assert(self@ =~= old(self)@.update(y as int, blank_row(old(self).w())));
            row
        } else {
            Vec::new()
        }
    }
}

impl Default for Grid {
    fn default() -> (g: Grid)
        ensures
            g.wf(),
            g.w() == 0,
            g@ == Seq::<Seq<Cell>>::empty(),
    {
        let g = Grid::new(0, 0);
        assert(g@ =~= Seq::<Seq<Cell>>::empty());
        g
    }
}

} // verus!
