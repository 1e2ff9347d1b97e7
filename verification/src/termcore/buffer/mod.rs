use vstd::prelude::*;

use std::collections::VecDeque;

use crate::parser::CursorStyle;
use crate::termcore::cell::{Cell, CellStyle};
use crate::termcore::grid::{blank_row, rows_have_width, swapped_cells, Grid};

pub mod alternate;
pub mod cursor;
pub mod laws;
pub mod screen;

pub use alternate::AlternateState;

verus! {

/// The number of scrolled-off rows a new buffer keeps.
pub const DEFAULT_SCROLLBACK_LIMIT: usize = 10000;

/// The contents of a sequence of stored rows.
pub open spec fn rows_of(rows: Seq<Vec<Cell>>) -> Seq<Seq<Cell>> {
    rows.map_values(|r: Vec<Cell>| r@)
}

/// Row `y` of `cells` with the cells of columns `from..to` made blank; `cells` itself
/// when `y` is not a row of it.
pub open spec fn span_blanked(cells: Seq<Seq<Cell>>, y: int, from: int, to: int) -> Seq<
    Seq<Cell>,
> {
    if 0 <= y < cells.len() {
        cells.update(
            y,
            Seq::new(
                cells[y].len(),
                |j: int|
                    if from <= j < to {
                        Cell::blank()
                    } else {
                        cells[y][j]
                    },
            ),
        )
    } else {
        cells
    }
}

/// `cells` with rows `ya` and `yb` exchanged, when both are rows of it.
pub open spec fn rows_swapped(cells: Seq<Seq<Cell>>, ya: int, yb: int) -> Seq<Seq<Cell>> {
    if 0 <= ya < cells.len() && 0 <= yb < cells.len() {
        cells.update(ya, cells[yb]).update(yb, cells[ya])
    } else {
        cells
    }
}

/// A blank screen of `h` rows of `w` cells.
pub open spec fn blank_screen(w: nat, h: nat) -> Seq<Seq<Cell>> {
    Seq::new(h, |_i: int| blank_row(w))
}

/// The state of a terminal screen: the visible grid, the cursor, the rows that scrolled off
/// the top, the scroll region, the tab stops and the saved main screen while the alternate
/// screen is shown.
#[derive(Debug)]
pub struct TerminalBuffer {
    pub grid: Grid,
    pub cursor_x: usize,
    pub cursor_y: usize,
    pub current_style: CellStyle,
    pub cursor_style: CursorStyle,
    pub scrollback: VecDeque<Vec<Cell>>,
    pub scrollback_limit: usize,
    pub scroll_offset: usize,
    pub scroll_region: Option<(usize, usize)>,
    pub tab_stops: Vec<bool>,
    pub alternate_state: Option<Box<AlternateState>>,
}

impl TerminalBuffer {
    /// The grids of the buffer, the shown one and the saved one, are rectangular.
    pub open spec fn wf(&self) -> bool {
        &&& self.grid.wf()
        &&& (self.alternate_state matches Some(s) ==> s.grid.wf())
    }

    /// The contents of the scrollback, oldest row first.
    pub open spec fn scrollback_rows(&self) -> Seq<Seq<Cell>> {
        rows_of(self.scrollback@)
    }

    /// The width of the visible grid.
    pub open spec fn w(&self) -> nat {
        self.grid.w()
    }

    /// The height of the visible grid.
    pub open spec fn h(&self) -> nat {
        self.grid@.len()
    }

    /// A buffer of `width` columns and `height` blank rows, with the cursor at the origin,
    /// the default style, an empty scrollback, no scroll region and a tab stop every eight
    /// columns.
    pub fn new(width: usize, height: usize) -> (b: TerminalBuffer)
        ensures
            b.wf(),
            b.grid.w() == width,
            b.grid@ == blank_screen(width as nat, height as nat),
            b.cursor_x == 0,
            b.cursor_y == 0,
            b.current_style == CellStyle::default_spec(),
            b.cursor_style == CursorStyle::Block,
            b.scrollback_rows() == Seq::<Seq<Cell>>::empty(),
            b.scrollback_limit == DEFAULT_SCROLLBACK_LIMIT,
            b.scroll_offset == 0,
            b.scroll_region is None,
            b.tab_stops@ == Seq::new(width as nat, |x: int| x % 8 == 0),
            b.alternate_state is None,
    {
        let mut tab_stops: Vec<bool> = Vec::new();
        let mut x: usize = 0;
        while x < width
            invariant
                x <= width,
                tab_stops@ == Seq::new(x as nat, |i: int| i % 8 == 0),
            decreases width - x,
        {
            tab_stops.push(x % 8 == 0);
            x = x + 1;
            assert(tab_stops@ =~= Seq::new(x as nat, |i: int| i % 8 == 0));
        }
        let b = TerminalBuffer {
            grid: Grid::new(width, height),
            cursor_x: 0,
            cursor_y: 0,
            current_style: CellStyle::default(),
            cursor_style: CursorStyle::Block,
            scrollback: VecDeque::new(),
            scrollback_limit: DEFAULT_SCROLLBACK_LIMIT,
            scroll_offset: 0,
            scroll_region: None,
            tab_stops,
            alternate_state: None,
        };
        assert(b.scrollback_rows() =~= Seq::<Seq<Cell>>::empty());
        b
    }
}

/// Makes the cells of columns `from..to` of row `y` blank; columns and rows outside the
/// grid are left alone.
fn blank_span(grid: &mut Grid, y: usize, from: usize, to: usize)
    requires
        old(grid).wf(),
    ensures
        final(grid).wf(),
        final(grid).w() == old(grid).w(),
        final(grid)@ == span_blanked(old(grid)@, y as int, from as int, to as int),
{
    let ghost c = grid@;
    assert(span_blanked(c, y as int, from as int, from as int) =~~= c);
    let mut x: usize = from;
    while x < to
        invariant
            from <= x <= to || (x == from && to < from),
            grid.wf(),
            grid.w() == old(grid).w(),
            c == old(grid)@,
            grid@ == span_blanked(c, y as int, from as int, x as int),
        decreases to - x,
    {
        let _ = grid.set(x, y, Cell::default());
        assert(grid@ =~~= span_blanked(c, y as int, from as int, x + 1));
        x = x + 1;
    }
    assert(span_blanked(c, y as int, from as int, x as int) =~~= span_blanked(
        c,
        y as int,
        from as int,
        to as int,
    ));
}

/// Exchanges rows `ya` and `yb` cell by cell, when both are rows of the grid.
fn swap_rows(grid: &mut Grid, width: usize, ya: usize, yb: usize)
    requires
        old(grid).wf(),
        width == old(grid).w(),
    ensures
        final(grid).wf(),
        final(grid).w() == old(grid).w(),
        final(grid)@ == rows_swapped(old(grid)@, ya as int, yb as int),
{
    let ghost c = grid@;
    let ghost h = c.len();
    if !(ya < grid.height() && yb < grid.height()) {
        // every cell exchange would fall outside the grid
        return;
    }
    let mut x: usize = 0;
    while x < width
        invariant
            x <= width,
            ya < h,
            yb < h,
            grid.wf(),
            grid.w() == width,
            c == old(grid)@,
            h == c.len(),
            rows_have_width(c, width as nat),
            grid@.len() == h,
            forall|i: int| 0 <= i < h && i != ya && i != yb ==> #[trigger] grid@[i] == c[i],
            forall|j: int|
                0 <= j < width ==> #[trigger] grid@[ya as int][j] == (if j < x {
                    c[yb as int][j]
                } else {
                    c[ya as int][j]
                }),
            forall|j: int|
                0 <= j < width ==> #[trigger] grid@[yb as int][j] == (if j < x {
                    c[ya as int][j]
                } else {
                    c[yb as int][j]
                }),
        decreases width - x,
    {
        let ghost before = grid@;
        grid.swap_cells(x, ya, x, yb);
        assert(grid@ == swapped_cells(before, x as int, ya as int, x as int, yb as int));
        x = x + 1;
    }
    let ghost target = rows_swapped(c, ya as int, yb as int);
    assert forall|i: int| 0 <= i < h implies #[trigger] grid@[i] =~= target[i] by {
        if i == ya || i == yb {
            assert(grid@[i].len() == width);
        }
    }
    assert(grid@ =~= target);
}

} // verus!
