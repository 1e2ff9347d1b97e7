use vstd::prelude::*;

use std::collections::VecDeque;

use super::{blank_span, rows_of, span_blanked, swap_rows, TerminalBuffer};
use crate::termcore::cell::Cell;
use crate::termcore::grid::{blank_row, rows_have_width, Grid};

verus! {

/// The region that scrolling acts on, as (top, bottom) rows, both included: the set scroll
/// region with its bottom cut to the last row, or the whole screen.
pub open spec fn region_of(scroll_region: Option<(usize, usize)>, h: nat) -> (int, int) {
    let last: int = if h == 0 {
        0
    } else {
        h - 1
    };
    match scroll_region {
        Some((t, b)) => (t as int, if b < last {
            b as int
        } else {
            last
        }),
        None => (0, last),
    }
}

/// The last `limit` elements of `s`, or all of them when there are fewer.
pub open spec fn trimmed<A>(s: Seq<A>, limit: nat) -> Seq<A> {
    if s.len() > limit {
        s.subrange(s.len() - limit, s.len() as int)
    } else {
        s
    }
}

/// The first `k` rows of `cells`, an empty row standing for each one past its end.
pub open spec fn taken_rows(cells: Seq<Seq<Cell>>, k: nat) -> Seq<Seq<Cell>> {
    Seq::new(
        k,
        |y: int|
            if y < cells.len() {
                cells[y]
            } else {
                Seq::<Cell>::empty()
            },
    )
}

/// Rows `from..to` of `cells` made blank.
pub open spec fn rows_blanked(cells: Seq<Seq<Cell>>, w: nat, from: int, to: int) -> Seq<Seq<Cell>> {
    Seq::new(
        cells.len(),
        |i: int|
            if from <= i < to {
                blank_row(w)
            } else {
                cells[i]
            },
    )
}

/// The first row that scrolling up by `n` inside `top..=bottom` clears.
pub open spec fn up_clear_start(top: int, bottom: int, n: int) -> int {
    if bottom + 1 >= n {
        bottom + 1 - n
    } else {
        top
    }
}

/// The grid after moving the rows of `top..=bottom` up by `n`: each row below `top` that
/// stays in the region takes the row `n` below it, and the rows from `up_clear_start` to
/// `bottom` are cleared (when `n` is larger than the region, that start can lie above `top`).
pub open spec fn shift_up_spec(cells: Seq<Seq<Cell>>, w: nat, top: int, bottom: int, n: int) -> Seq<
    Seq<Cell>,
> {
    Seq::new(
        cells.len(),
        |i: int|
            if up_clear_start(top, bottom, n) <= i <= bottom {
                blank_row(w)
            } else if top <= i && i + n <= bottom {
                cells[i + n]
            } else {
                cells[i]
            },
    )
}

/// The grid after moving the rows of `top..=bottom` down by `n`: each row from `top + n` to
/// `bottom` takes the row `n` above it, and rows `top..top + n` of the region are cleared.
/// When the region starts at row 0 and is no taller than `n`, its first row lands on row
/// `n`, below the region.
pub open spec fn shift_down_spec(cells: Seq<Seq<Cell>>, w: nat, top: int, bottom: int, n: int) -> Seq<
    Seq<Cell>,
> {
    Seq::new(
        cells.len(),
        |i: int|
            if top <= i && i < top + n && i <= bottom {
                blank_row(w)
            } else if top + n <= i <= bottom {
                cells[i - n]
            } else if top == 0 && bottom < n && i == n {
                cells[0]
            } else {
                cells[i]
            },
    )
}

/// The offset that `scroll_by` computes: the offset plus `delta` in 32-bit arithmetic,
/// raised to 0 and then lowered to the scrollback length taken as a 32-bit number.
pub open spec fn scroll_by_spec(offset: usize, len: nat, delta: i32) -> usize {
    let sum: int = (offset as i32) + delta;
    let raised: int = if sum < 0 {
        0
    } else {
        sum
    };
    let cap: int = ((len as usize) as i32) as int;
    let lowered: int = if raised > cap {
        cap
    } else {
        raised
    };
    (lowered as i32) as usize
}

/// Whether the region `(top, bottom)` is the whole screen of `h` rows.
pub open spec fn is_full_region(region: (int, int), h: nat) -> bool {
    region.0 == 0 && region.1 == (if h == 0 {
        0
    } else {
        h - 1
    })
}

/// How many rows scrolling the whole screen up by `n` sends to the scrollback.
pub open spec fn rows_scrolled_off(region: (int, int), n: int) -> nat {
    (if n < region.1 + 1 {
        n
    } else {
        region.1 + 1
    }) as nat
}

/// `post` is `pre` after `scroll_up(n)`: the scroll region moves up by `n` rows; when the
/// region is the whole screen, the rows that leave it are appended to the scrollback (which is
/// then trimmed to its limit) and the cursor row moves up by `n`, stopping at 0; nothing else
/// changes.
pub open spec fn scrolled_up(pre: TerminalBuffer, post: TerminalBuffer, n: int) -> bool {
    let region = region_of(pre.scroll_region, pre.h());
    let full = is_full_region(region, pre.h());
    &&& post.grid.w() == pre.grid.w()
    &&& post.grid@ == shift_up_spec(pre.grid@, pre.w(), region.0, region.1, n)
    &&& post.scrollback_rows() == (if full {
        trimmed(
            pre.scrollback_rows() + taken_rows(pre.grid@, rows_scrolled_off(region, n)),
            pre.scrollback_limit as nat,
        )
    } else {
        pre.scrollback_rows()
    })
    &&& post.cursor_y == (if full {
        if pre.cursor_y >= n {
            pre.cursor_y - n
        } else {
            0
        }
    } else {
        pre.cursor_y as int
    })
    &&& post.cursor_x == pre.cursor_x
    &&& post.current_style == pre.current_style
    &&& post.cursor_style == pre.cursor_style
    &&& post.scrollback_limit == pre.scrollback_limit
    &&& post.scroll_offset == pre.scroll_offset
    &&& post.scroll_region == pre.scroll_region
    &&& post.tab_stops == pre.tab_stops
    &&& post.alternate_state == pre.alternate_state
}

/// Whether `erase_in_display` with `mode` clears cell `(j, i)`.
pub open spec fn display_erases(mode: u8, cx: int, cy: int, w: int, i: int, j: int) -> bool {
    if mode == 0 {
        (i == cy && j >= cx) || i > cy
    } else if mode == 1 {
        i < cy || (i == cy && j <= (if cx < w - 1 {
            cx
        } else {
            w - 1
        }))
    } else {
        false
    }
}

/// Whether `erase_in_line` with `mode` clears column `j` of the cursor row.
pub open spec fn line_erases(mode: u8, cx: int, w: int, j: int) -> bool {
    if mode == 0 {
        j >= cx
    } else if mode == 1 {
        j <= (if cx < w - 1 {
            cx
        } else {
            w - 1
        })
    } else {
        mode == 2
    }
}

/// The grid with the cells for which `erased(i, j)` holds cleared.
pub open spec fn cells_erased(cells: Seq<Seq<Cell>>, erased: spec_fn(int, int) -> bool) -> Seq<
    Seq<Cell>,
> {
    Seq::new(
        cells.len(),
        |i: int|
            Seq::new(
                cells[i].len(),
                |j: int|
                    if erased(i, j) {
                        Cell::blank()
                    } else {
                        cells[i][j]
                    },
            ),
    )
}

/// `post` differs from `pre` in its grid alone, which keeps its width.
pub open spec fn grid_only_changed(pre: TerminalBuffer, post: TerminalBuffer) -> bool {
    &&& post.grid.w() == pre.grid.w()
    &&& post.cursor_x == pre.cursor_x
    &&& post.cursor_y == pre.cursor_y
    &&& post.current_style == pre.current_style
    &&& post.cursor_style == pre.cursor_style
    &&& post.scrollback == pre.scrollback
    &&& post.scrollback_limit == pre.scrollback_limit
    &&& post.scroll_offset == pre.scroll_offset
    &&& post.scroll_region == pre.scroll_region
    &&& post.tab_stops == pre.tab_stops
    &&& post.alternate_state == pre.alternate_state
}

/// `post` differs from `pre` at most in its scroll offset.
pub open spec fn offset_only_changed(pre: TerminalBuffer, post: TerminalBuffer) -> bool {
    &&& post.grid == pre.grid
    &&& post.cursor_x == pre.cursor_x
    &&& post.cursor_y == pre.cursor_y
    &&& post.current_style == pre.current_style
    &&& post.cursor_style == pre.cursor_style
    &&& post.scrollback == pre.scrollback
    &&& post.scrollback_limit == pre.scrollback_limit
    &&& post.scroll_region == pre.scroll_region
    &&& post.tab_stops == pre.tab_stops
    &&& post.alternate_state == pre.alternate_state
}

/// `post` is `pre` after `erase_in_display(mode)`: the cells that `display_erases` names are
/// cleared, and nothing else changes.
pub open spec fn erased_in_display(pre: TerminalBuffer, post: TerminalBuffer, mode: u8) -> bool {
    &&& post.grid@ == cells_erased(
        pre.grid@,
        |i: int, j: int|
            display_erases(
                mode,
                pre.cursor_x as int,
                pre.cursor_y as int,
                pre.w() as int,
                i,
                j,
            ),
    )
    &&& grid_only_changed(pre, post)
}

/// `post` is `pre` after `erase_in_line(mode)`: the cells of the cursor row that
/// `line_erases` names are cleared, and nothing else changes.
pub open spec fn erased_in_line(pre: TerminalBuffer, post: TerminalBuffer, mode: u8) -> bool {
    &&& post.grid@ == cells_erased(
        pre.grid@,
        |i: int, j: int|
            i == pre.cursor_y && line_erases(mode, pre.cursor_x as int, pre.w() as int, j),
    )
    &&& grid_only_changed(pre, post)
}

/// `post` is `pre` after `erase_chars(n)`: columns `cursor_x..cursor_x + n` of the cursor
/// row are cleared, and nothing else changes.
pub open spec fn erased_chars(pre: TerminalBuffer, post: TerminalBuffer, n: int) -> bool {
    &&& post.grid@ == span_blanked(
        pre.grid@,
        pre.cursor_y as int,
        pre.cursor_x as int,
        pre.cursor_x + n,
    )
    &&& grid_only_changed(pre, post)
}

/// Drops the oldest rows of the scrollback until at most `limit` are left.
fn trim_scrollback(scrollback: &mut VecDeque<Vec<Cell>>, limit: usize)
    ensures
        final(scrollback)@ == trimmed(old(scrollback)@, limit as nat),
{
    let ghost s0 = scrollback@;
    while scrollback.len() > limit
        invariant
            s0 == old(scrollback)@,
            scrollback@.len() <= s0.len(),
            scrollback@.len() >= limit || scrollback@.len() == s0.len(),
            scrollback@ == s0.subrange(s0.len() - scrollback@.len(), s0.len() as int),
        decreases scrollback@.len(),
    {
        let _ = scrollback.pop_front();
    }
    assert(scrollback@ =~= trimmed(s0, limit as nat));
}

/// Clears rows `from..to`; rows outside the grid are left alone.
fn blank_rows(grid: &mut Grid, width: usize, from: usize, to: usize)
    requires
        old(grid).wf(),
        width == old(grid).w(),
    ensures
        final(grid).wf(),
        final(grid).w() == old(grid).w(),
        final(grid)@ == rows_blanked(old(grid)@, width as nat, from as int, to as int),
{
    let ghost c = grid@;
    let mut y: usize = from;
    while y < to
        invariant
            from <= y,
            y <= to || y == from,
            grid.wf(),
            grid.w() == width,
            c == old(grid)@,
            rows_have_width(c, width as nat),
            grid@ == rows_blanked(c, width as nat, from as int, y as int),
        decreases to - y,
    {
        blank_span(grid, y, 0, width);
        assert(grid@ =~~= rows_blanked(c, width as nat, from as int, y + 1));
        y = y + 1;
    }
    assert(grid@ =~~= rows_blanked(c, width as nat, from as int, to as int));
}

/// What moving the rows of `top..=bottom` up by `n`, by swaps from the top down, leaves:
/// each row that stays in the region holds the row `n` below it, rows outside the region are
/// untouched, and the last `n` rows of the region hold what was displaced; nothing moves when
/// `top + n` lies below `bottom`.
spec fn up_swapped(c0: Seq<Seq<Cell>>, c: Seq<Seq<Cell>>, top: int, bottom: int, n: int) -> bool {
    &&& c.len() == c0.len()
    &&& top + n > bottom ==> c == c0
    &&& top + n <= bottom ==> forall|i: int|
        0 <= i < c.len() ==> {
            &&& (top <= i && i + n <= bottom ==> #[trigger] c[i] == c0[i + n])
            &&& (i < top || i > bottom ==> c[i] == c0[i])
        }
}

/// The last row of `top..=bottom` that moving down by `n` copies from.
spec fn down_last(bottom: int, n: int) -> int {
    if bottom >= n {
        bottom - n
    } else {
        0
    }
}

/// What moving the rows of `top..=bottom` down by `n`, by swaps from the bottom up, leaves:
/// rows `top + n..=down_last + n` hold the row `n` above them, rows `top..=down_last` that
/// are not among those hold what was displaced, and every other row is untouched.
spec fn down_swapped(c0: Seq<Seq<Cell>>, c: Seq<Seq<Cell>>, top: int, bottom: int, n: int) -> bool {
    let hi = down_last(bottom, n);
    &&& c.len() == c0.len()
    &&& forall|i: int|
        0 <= i < c.len() ==> {
            &&& (top <= hi && top + n <= i <= hi + n ==> #[trigger] c[i] == c0[i - n])
            &&& (!(top <= i <= hi) && !(top <= hi && top + n <= i <= hi + n) ==> c[i] == c0[i])
        }
}

/// Moves the rows of `top..=bottom` up by `n` by exchanging each row from `top + n` down
/// with the row `n` above it.
fn shift_rows_up(grid: &mut Grid, width: usize, top: usize, bottom: usize, n: usize)
    requires
        old(grid).wf(),
        width == old(grid).w(),
        top + n <= usize::MAX,
        bottom < old(grid)@.len() || bottom == 0,
    ensures
        final(grid).wf(),
        final(grid).w() == old(grid).w(),
        up_swapped(old(grid)@, final(grid)@, top as int, bottom as int, n as int),
{
    let ghost c0 = grid@;
    let ghost h = c0.len();
    let mut y: usize = top + n;
    while y <= bottom
        invariant
            grid.wf(),
            grid.w() == width,
            c0 == old(grid)@,
            h == c0.len(),
            grid@.len() == h,
            bottom < h || bottom == 0,
            top + n <= y,
            y <= bottom + 1 || y == top + n,
            y == top + n ==> grid@ == c0,
            forall|i: int|
                0 <= i < h && top <= i && i + n < y ==> #[trigger] grid@[i] == c0[i + n],
            forall|i: int| 0 <= i < h && (i < top || i >= y) ==> #[trigger] grid@[i] == c0[i],
        decreases bottom + 1 - y,
    {
        let ghost before = grid@;
        swap_rows(grid, width, y, y - n);
        assert forall|i: int| 0 <= i < h && top <= i && i + n < y + 1 implies #[trigger] grid@[i]
            == c0[i + n] by {
            if i + n < y {
                assert(before[i] == c0[i + n]);
            } else {
                assert(before[y as int] == c0[y as int]);
            }
        }
        y = y + 1;
    }
    assert(y == top + n || y == bottom + 1);
}

/// Moves the rows of `top..=bottom` down by `n` by exchanging each row from
/// `bottom - n` (or row 0 when `bottom < n`) up to `top` with the row `n` below it.
fn shift_rows_down(grid: &mut Grid, width: usize, top: usize, bottom: usize, n: usize)
    requires
        old(grid).wf(),
        width == old(grid).w(),
        bottom < old(grid)@.len() || bottom == 0,
    ensures
        final(grid).wf(),
        final(grid).w() == old(grid).w(),
        down_swapped(old(grid)@, final(grid)@, top as int, bottom as int, n as int),
{
    let ghost c0 = grid@;
    let ghost h = c0.len();
    let hi = bottom.saturating_sub(n);
    assert(hi == down_last(bottom as int, n as int));
    if top <= hi {
        let mut y: usize = hi + 1;
        while y > top
            invariant
                grid.wf(),
                grid.w() == width,
                c0 == old(grid)@,
                h == c0.len(),
                grid@.len() == h,
                top <= y <= hi + 1,
                hi == down_last(bottom as int, n as int),
                hi + n <= usize::MAX,
                forall|i: int|
                    0 <= i < h && y + n <= i <= hi + n ==> #[trigger] grid@[i] == c0[i - n],
                forall|i: int|
                    0 <= i < h && !(y <= i <= hi) && !(y + n <= i <= hi + n) ==> #[trigger] grid@[i]
                        == c0[i],
            decreases y,
        {
            y = y - 1;
            let ghost before = grid@;
            swap_rows(grid, width, y, y + n);
            assert forall|i: int| 0 <= i < h && y + n <= i <= hi + n implies #[trigger] grid@[i]
                == c0[i - n] by {
                if i == y + n {
                    assert(before[y as int] == c0[y as int]);
                } else {
                    assert(before[i] == c0[i - n]);
                }
            }
        }
    }
}

/// Moving a region up by `n` rows and then down by `n` rows, with `n` no larger than the
/// region, gives back every row of the region below its first `n` rows, blank rows in those
/// `n`, and every row outside the region. (A region that starts at row 0 and is exactly `n`
/// rows tall is left out: moving it down sends its cleared first row onto row `n`.)
pub proof fn lemma_down_after_up(c: Seq<Seq<Cell>>, w: nat, top: int, bottom: int, n: int)
    requires
        rows_have_width(c, w),
        0 <= top,
        0 <= n,
        top + n <= bottom + 1,
        top > 0 || n <= bottom,
        bottom < c.len(),
    ensures
        ({
            let d = shift_down_spec(shift_up_spec(c, w, top, bottom, n), w, top, bottom, n);
            &&& d.len() == c.len()
            &&& forall|i: int|
                0 <= i < c.len() ==> #[trigger] d[i] == (if top <= i < top + n {
                    blank_row(w)
                } else {
                    c[i]
                })
        }),
{
}

/// Moving a region down by `n` rows and then up by `n` rows, with `n` smaller than the
/// region, gives back every row of the region above its last `n` rows, blank rows in those
/// `n`, and every row outside the region.
pub proof fn lemma_up_after_down(c: Seq<Seq<Cell>>, w: nat, top: int, bottom: int, n: int)
    requires
        rows_have_width(c, w),
        0 <= top,
        0 <= n,
        top + n <= bottom,
        bottom < c.len(),
    ensures
        ({
            let u = shift_up_spec(shift_down_spec(c, w, top, bottom, n), w, top, bottom, n);
            &&& u.len() == c.len()
            &&& forall|i: int|
                0 <= i < c.len() ==> #[trigger] u[i] == (if bottom + 1 - n <= i <= bottom {
                    blank_row(w)
                } else {
                    c[i]
                })
        }),
{
}

/// Moving a region up leaves every row outside it alone, unless `n` exceeds the region
/// while reaching no further than row 0 above its bottom: then rows above the region are
/// cleared too.
pub proof fn lemma_up_keeps_outside(c: Seq<Seq<Cell>>, w: nat, top: int, bottom: int, n: int)
    requires
        0 <= top,
        0 <= n,
        n > bottom + 1 || top + n <= bottom + 1,
    ensures
        forall|i: int|
            0 <= i < c.len() && (i < top || i > bottom) ==> #[trigger] shift_up_spec(
                c,
                w,
                top,
                bottom,
                n,
            )[i] == c[i],
{
}

/// Moving a region down leaves every row outside it alone, unless the region starts at
/// row 0 and is no taller than `n`: then its first row lands on row `n`.
pub proof fn lemma_down_keeps_outside(c: Seq<Seq<Cell>>, w: nat, top: int, bottom: int, n: int)
    requires
        0 <= top,
        0 <= n,
        top > 0 || n <= bottom,
    ensures
        forall|i: int|
            0 <= i < c.len() && (i < top || i > bottom) ==> #[trigger] shift_down_spec(
                c,
                w,
                top,
                bottom,
                n,
            )[i] == c[i],
{
}

/// Trimming keeps the newest `limit` rows: the result is a suffix of the rows, of length
/// the smaller of their count and the limit.
pub proof fn lemma_trimmed_keeps_newest<A>(s: Seq<A>, limit: nat)
    ensures
        trimmed(s, limit).len() == (if s.len() < limit {
            s.len()
        } else {
            limit
        }),
        forall|i: int|
            0 <= i < trimmed(s, limit).len() ==> #[trigger] trimmed(s, limit)[i] == s[s.len()
                - trimmed(s, limit).len() + i],
{
}

/// With an offset and a scrollback length that fit in 32 bits, `scroll_by` keeps the offset
/// within the scrollback.
pub proof fn lemma_scroll_by_in_range(offset: usize, len: nat, delta: i32)
    requires
        offset <= i32::MAX,
        len <= i32::MAX,
        i32::MIN <= offset + delta <= i32::MAX,
    ensures
        scroll_by_spec(offset, len, delta) <= len,
{
}

/// Clearing the rows from `up_clear_start` to `bottom` after the swaps of `shift_rows_up`
/// gives `shift_up_spec` of the grid before. The swaps may start from a grid `ct` whose first
/// `k` rows were taken out, provided `k <= n` and, when `k > 0`, the region is the whole
/// screen.
proof fn lemma_up_result(
    c0: Seq<Seq<Cell>>,
    ct: Seq<Seq<Cell>>,
    c1: Seq<Seq<Cell>>,
    w: nat,
    top: int,
    bottom: int,
    n: int,
    k: int,
)
    requires
        0 <= top,
        0 <= bottom,
        0 <= n,
        0 <= k <= n,
        ct.len() == c0.len(),
        forall|i: int| 0 <= i < c0.len() && i >= k ==> #[trigger] ct[i] == c0[i],
        bottom < c0.len() || c0.len() == 0,
        k > 0 ==> top == 0 && bottom + 1 >= c0.len(),
        up_swapped(ct, c1, top, bottom, n),
    ensures
        rows_blanked(c1, w, up_clear_start(top, bottom, n), bottom + 1) == shift_up_spec(
            c0,
            w,
            top,
            bottom,
            n,
        ),
{
    let lhs = rows_blanked(c1, w, up_clear_start(top, bottom, n), bottom + 1);
    let rhs = shift_up_spec(c0, w, top, bottom, n);
    assert forall|i: int| 0 <= i < c0.len() implies #[trigger] lhs[i] == rhs[i] by {
        if up_clear_start(top, bottom, n) <= i <= bottom {
        } else if top <= i && i + n <= bottom {
            assert(c1[i] == ct[i + n]);
        } else {
            if top + n <= bottom {
                assert(c1[i] == ct[i]);
            }
        }
    }
    assert(lhs =~= rhs);
}

/// Clearing rows `top..top + n` of the region after the swaps of `shift_rows_down` gives
/// `shift_down_spec` of the grid before.
proof fn lemma_down_result(
    c0: Seq<Seq<Cell>>,
    c1: Seq<Seq<Cell>>,
    w: nat,
    top: int,
    bottom: int,
    n: int,
)
    requires
        0 <= top,
        0 <= bottom,
        0 <= n,
        bottom < c0.len() || c0.len() == 0,
        down_swapped(c0, c1, top, bottom, n),
    ensures
        rows_blanked(c1, w, top, if top + n < bottom + 1 {
            top + n
        } else {
            bottom + 1
        }) == shift_down_spec(c0, w, top, bottom, n),
{
    let end = if top + n < bottom + 1 {
        top + n
    } else {
        bottom + 1
    };
    let lhs = rows_blanked(c1, w, top, end);
    let rhs = shift_down_spec(c0, w, top, bottom, n);
    assert forall|i: int| 0 <= i < c0.len() implies #[trigger] lhs[i] == rhs[i] by {
        if top <= i && i < top + n && i <= bottom {
        } else if top + n <= i <= bottom {
            assert(c1[i] == c0[i - n]);
        } else if top == 0 && bottom < n && i == n {
            assert(c1[i] == c0[i - n]);
        } else {
            assert(c1[i] == c0[i]);
        }
    }
    assert(lhs =~= rhs);
}

impl TerminalBuffer {
    /// The number of rows in the scrollback.
    pub fn scrollback_len(&self) -> (len: usize)
        ensures
            len == self.scrollback@.len(),
    {
        self.scrollback.len()
    }

    /// How many rows into the scrollback the view is scrolled.
    pub fn scroll_offset(&self) -> (offset: usize)
        ensures
            offset == self.scroll_offset,
    {
        self.scroll_offset
    }

    /// Scrolls the view `delta` rows into the scrollback (back towards the bottom when
    /// `delta` is negative), staying between 0 and the scrollback length.
    pub fn scroll_by(&mut self, delta: i32)
        requires
            i32::MIN <= (old(self).scroll_offset as i32) + delta <= i32::MAX,
        ensures
            final(self).scroll_offset == scroll_by_spec(
                old(self).scroll_offset,
                old(self).scrollback@.len(),
                delta,
            ),
            old(self).scroll_offset <= i32::MAX && old(self).scrollback@.len() <= i32::MAX ==> {
                let target = old(self).scroll_offset + delta;
                final(self).scroll_offset == (if target < 0 {
                    0
                } else if target > old(self).scrollback@.len() {
                    old(self).scrollback@.len() as int
                } else {
                    target
                })
            },
            offset_only_changed(*old(self), *final(self)),
    {
        let sum = self.scroll_offset as i32 + delta;
        let raised = if sum < 0 {
            0
        } else {
            sum
        };
        let len = self.scrollback.len() as i32;
        let lowered = if raised > len {
            len
        } else {
            raised
        };
        self.scroll_offset = lowered as usize;
    }

    /// Scrolls the view to `offset` rows into the scrollback, or to its top when `offset`
    /// is beyond it.
    pub fn scroll_to(&mut self, offset: usize)
        ensures
            final(self).scroll_offset == (if offset < old(self).scrollback@.len() {
                offset as int
            } else {
                old(self).scrollback@.len() as int
            }),
            offset_only_changed(*old(self), *final(self)),
    {
        let len = self.scrollback.len();
        self.scroll_offset = if offset < len {
            offset
        } else {
            len
        };
    }

    /// Scrolls the view back to the live screen.
    pub fn scroll_to_bottom(&mut self)
        ensures
            final(self).scroll_offset == 0,
            offset_only_changed(*old(self), *final(self)),
    {
        self.scroll_offset = 0;
    }

    /// The scrollback row at `index` (0 is the oldest), if there is one.
    pub fn scrollback_row(&self, index: usize) -> (row: Option<&[Cell]>)
        ensures
            match row {
                Some(r) => index < self.scrollback@.len() && r@ == self.scrollback_rows()[index as int],
                None => index >= self.scrollback@.len(),
            },
    {
        if index < self.scrollback.len() {
            Some(self.scrollback[index].as_slice())
        } else {
            None
        }
    }

    /// Sets how many rows the scrollback keeps, dropping the oldest rows beyond it.
    pub fn set_scrollback_limit(&mut self, limit: usize)
        ensures
            final(self).scrollback_limit == limit,
            final(self).scrollback@ == trimmed(old(self).scrollback@, limit as nat),
            final(self).grid == old(self).grid,
            final(self).cursor_x == old(self).cursor_x,
            final(self).cursor_y == old(self).cursor_y,
            final(self).current_style == old(self).current_style,
            final(self).cursor_style == old(self).cursor_style,
            final(self).scroll_offset == old(self).scroll_offset,
            final(self).scroll_region == old(self).scroll_region,
            final(self).tab_stops == old(self).tab_stops,
            final(self).alternate_state == old(self).alternate_state,
    {
        self.scrollback_limit = limit;
        trim_scrollback(&mut self.scrollback, limit);
    }

    /// The rows that scrolling acts on, top and bottom included: the scroll region with its
    /// bottom cut to the last row, or the whole screen when no region is set.
    pub fn effective_scroll_region(&self) -> (region: (usize, usize))
        ensures
            (region.0 as int, region.1 as int) == region_of(self.scroll_region, self.grid@.len()),
    {
        let height = self.grid.height();
        let last = height.saturating_sub(1);
        match self.scroll_region {
            Some((t, b)) => (t, if b < last {
                b
            } else {
                last
            }),
            None => (0, last),
        }
    }
    /// Scrolls the scroll region up by `n` rows, clearing the rows that come in at its
    /// bottom. When the region is the whole screen, the rows that leave at the top go to the
    /// scrollback (the oldest rows beyond the limit are dropped) and the cursor moves up by `n`
    /// rows, stopping at row 0.
    pub fn scroll_up(&mut self, n: usize)
        requires
            old(self).wf(),
            region_of(old(self).scroll_region, old(self).h()).0 + n <= usize::MAX,
        ensures
            final(self).wf(),
            scrolled_up(*old(self), *final(self), n as int),
    {
        let width = self.grid.width();
        let (top, bottom) = self.effective_scroll_region();
        let full_height = self.grid.height().saturating_sub(1);
        let ghost c0 = self.grid@;
        let ghost h = c0.len();
        let ghost sb0 = self.scrollback_rows();
        let ghost k: int = 0;

        if top == 0 && bottom == full_height {
            let count = if n < bottom + 1 {
                n
            } else {
                bottom + 1
            };
            proof {
                k = count as int;
            }
            let mut y: usize = 0;
            while y < count
                invariant
                    y <= count,
                    count <= n,
                    self.grid.wf(),
                    self.grid.w() == width,
                    self.grid@.len() == h,
                    c0.len() == h,
                    forall|i: int|
                        0 <= i < h ==> #[trigger] self.grid@[i] == (if i < y {
                            blank_row(width as nat)
                        } else {
                            c0[i]
                        }),
                    self.scrollback_rows() == sb0 + taken_rows(c0, y as nat),
                    self.cursor_x == old(self).cursor_x,
                    self.cursor_y == old(self).cursor_y,
                    self.current_style == old(self).current_style,
                    self.cursor_style == old(self).cursor_style,
                    self.scrollback_limit == old(self).scrollback_limit,
                    self.scroll_offset == old(self).scroll_offset,
                    self.scroll_region == old(self).scroll_region,
                    self.tab_stops == old(self).tab_stops,
                    self.alternate_state == old(self).alternate_state,
                decreases count - y,
            {
                let ghost before = self.grid@;
                let ghost sb_before = self.scrollback@;
                assert(y < h ==> before[y as int] == c0[y as int]);
                let row = self.grid.take_row(y);
                let ghost row_v = row@;
                assert(row_v == taken_rows(c0, (y + 1) as nat)[y as int]);
                self.scrollback.push_back(row);
                assert(rows_of(self.scrollback@) =~= rows_of(sb_before).push(row_v));
                assert(self.scrollback_rows() =~= sb0 + taken_rows(c0, (y + 1) as nat));
                y = y + 1;
            }
            let ghost full_rows = self.scrollback@;
            trim_scrollback(&mut self.scrollback, self.scrollback_limit);
            assert(self.scrollback_rows() =~= trimmed(
                rows_of(full_rows),
                self.scrollback_limit as nat,
            ));
        }
        let ghost ct = self.grid@;

        shift_rows_up(&mut self.grid, width, top, bottom, n);
        let ghost c1 = self.grid@;

        let clear_start = if bottom + 1 >= n {
            bottom + 1 - n
        } else {
            top
        };
        blank_rows(&mut self.grid, width, clear_start, bottom + 1);
        proof {
            lemma_up_result(c0, ct, c1, width as nat, top as int, bottom as int, n as int, k);
        }

        if top == 0 && bottom == full_height {
            self.cursor_y = self.cursor_y.saturating_sub(n);
        }
    }

    /// Scrolls the scroll region down by `n` rows, clearing the rows that come in at its
    /// top.
    pub fn scroll_down(&mut self, n: usize)
        requires
            old(self).wf(),
            region_of(old(self).scroll_region, old(self).h()).0 + n >= 1,
            region_of(old(self).scroll_region, old(self).h()).0 + n <= usize::MAX,
        ensures
            final(self).wf(),
            final(self).grid@ == shift_down_spec(
                old(self).grid@,
                old(self).w(),
                region_of(old(self).scroll_region, old(self).h()).0,
                region_of(old(self).scroll_region, old(self).h()).1,
                n as int,
            ),
            grid_only_changed(*old(self), *final(self)),
    {
        let width = self.grid.width();
        let (top, bottom) = self.effective_scroll_region();
        let ghost c0 = self.grid@;

        shift_rows_down(&mut self.grid, width, top, bottom, n);
        let ghost c1 = self.grid@;

        let last = if top + n - 1 < bottom {
            top + n - 1
        } else {
            bottom
        };
        blank_rows(&mut self.grid, width, top, last + 1);
        proof {
            lemma_down_result(c0, c1, width as nat, top as int, bottom as int, n as int);
        }
    }

    /// Inserts `n` blank lines at the cursor row, pushing the rows below it down inside the
    /// scroll region; does nothing when the cursor is below the region.
    pub fn insert_lines_at_cursor(&mut self, n: usize)
        requires
            old(self).wf(),
            old(self).cursor_y <= region_of(old(self).scroll_region, old(self).h()).1
                ==> old(self).cursor_y + n <= usize::MAX,
        ensures
            final(self).wf(),
            final(self).grid@ == (if old(self).cursor_y > region_of(
                old(self).scroll_region,
                old(self).h(),
            ).1 {
                old(self).grid@
            } else {
                shift_down_spec(
                    old(self).grid@,
                    old(self).w(),
                    old(self).cursor_y as int,
                    region_of(old(self).scroll_region, old(self).h()).1,
                    n as int,
                )
            }),
            grid_only_changed(*old(self), *final(self)),
    {
        let width = self.grid.width();
        let (_, bottom) = self.effective_scroll_region();
        let start = self.cursor_y;

        if start > bottom {
            return;
        }
        let ghost c0 = self.grid@;

        shift_rows_down(&mut self.grid, width, start, bottom, n);
        let ghost c1 = self.grid@;

        let end = if start + n < bottom + 1 {
            start + n
        } else {
            bottom + 1
        };
        blank_rows(&mut self.grid, width, start, end);
        proof {
            lemma_down_result(c0, c1, width as nat, start as int, bottom as int, n as int);
        }
    }

    /// Deletes `n` lines at the cursor row, pulling the rows below it up inside the scroll
    /// region and clearing the rows that come in at its bottom; does nothing when the cursor
    /// is below the region.
    pub fn delete_lines_at_cursor(&mut self, n: usize)
        requires
            old(self).wf(),
            old(self).cursor_y <= region_of(old(self).scroll_region, old(self).h()).1
                ==> old(self).cursor_y + n <= usize::MAX,
        ensures
            final(self).wf(),
            final(self).grid@ == (if old(self).cursor_y > region_of(
                old(self).scroll_region,
                old(self).h(),
            ).1 {
                old(self).grid@
            } else {
                shift_up_spec(
                    old(self).grid@,
                    old(self).w(),
                    old(self).cursor_y as int,
                    region_of(old(self).scroll_region, old(self).h()).1,
                    n as int,
                )
            }),
            grid_only_changed(*old(self), *final(self)),
    {
        let width = self.grid.width();
        let (_, bottom) = self.effective_scroll_region();
        let start = self.cursor_y;

        if start > bottom {
            return;
        }
        let ghost c0 = self.grid@;

        shift_rows_up(&mut self.grid, width, start, bottom, n);
        let ghost c1 = self.grid@;

        let clear_start = if bottom + 1 >= n {
            bottom + 1 - n
        } else {
            start
        };
        blank_rows(&mut self.grid, width, clear_start, bottom + 1);
        proof {
            lemma_up_result(c0, c0, c1, width as nat, start as int, bottom as int, n as int, 0);
        }
    }

    /// Erases part of the screen: with mode 0 from the cursor to the end of the screen, with
    /// mode 1 from the start of the screen to the cursor, both included; any other mode
    /// erases nothing.
    pub fn erase_in_display(&mut self, mode: u8)
        requires
            old(self).wf(),
            mode == 0 ==> old(self).cursor_y < usize::MAX,
        ensures
            final(self).wf(),
            erased_in_display(*old(self), *final(self), mode),
    {
        let width = self.grid.width();
        let height = self.grid.height();
        let ghost c0 = self.grid@;
        let ghost target = cells_erased(
            c0,
            |i: int, j: int|
                display_erases(mode, self.cursor_x as int, self.cursor_y as int, width as int, i, j),
        );
        match mode {
            0 => {
                blank_span(&mut self.grid, self.cursor_y, self.cursor_x, width);
                blank_rows(&mut self.grid, width, self.cursor_y + 1, height);
            },
            1 => {
                blank_rows(&mut self.grid, width, 0, self.cursor_y);
                let last = if self.cursor_x < width.saturating_sub(1) {
                    self.cursor_x
                } else {
                    width.saturating_sub(1)
                };
                blank_span(&mut self.grid, self.cursor_y, 0, last + 1);
            },
            _ => {},
        }
        assert(self.grid@ =~~= target);
    }

    /// Erases part of the cursor row: with mode 0 from the cursor to the end of the row, with
    /// mode 1 from the start of the row to the cursor, both included, with mode 2 the whole
    /// row; any other mode erases nothing.
    pub fn erase_in_line(&mut self, mode: u8)
        requires
            old(self).wf(),
        ensures
            final(self).wf(),
            erased_in_line(*old(self), *final(self), mode),
    {
        let width = self.grid.width();
        let ghost c0 = self.grid@;
        let ghost target = cells_erased(
            c0,
            |i: int, j: int|
                i == self.cursor_y && line_erases(mode, self.cursor_x as int, width as int, j),
        );
        match mode {
            0 => {
                blank_span(&mut self.grid, self.cursor_y, self.cursor_x, width);
            },
            1 => {
                let last = if self.cursor_x < width.saturating_sub(1) {
                    self.cursor_x
                } else {
                    width.saturating_sub(1)
                };
                blank_span(&mut self.grid, self.cursor_y, 0, last + 1);
            },
            2 => {
                blank_span(&mut self.grid, self.cursor_y, 0, width);
            },
            _ => {},
        }
        assert(self.grid@ =~~= target);
    }

    /// Erases `n` cells of the cursor row from the cursor on, stopping at the end of the row.
    pub fn erase_chars(&mut self, n: usize)
        requires
            old(self).wf(),
            n == 0 || old(self).cursor_x + n - 1 <= usize::MAX,
        ensures
            final(self).wf(),
            erased_chars(*old(self), *final(self), n as int),
    {
        let ghost c0 = self.grid@;
        assert(span_blanked(c0, self.cursor_y as int, self.cursor_x as int, self.cursor_x as int)
            =~~= c0);
        let mut i: usize = 0;
        while i < n
            invariant
                i <= n,
                n == 0 || self.cursor_x + n - 1 <= usize::MAX,
                self.grid.wf(),
                self.grid.w() == old(self).grid.w(),
                c0 == old(self).grid@,
                self.grid@ == span_blanked(
                    c0,
                    self.cursor_y as int,
                    self.cursor_x as int,
                    self.cursor_x + i,
                ),
                self.cursor_x == old(self).cursor_x,
                self.cursor_y == old(self).cursor_y,
                self.current_style == old(self).current_style,
                self.cursor_style == old(self).cursor_style,
                self.scrollback == old(self).scrollback,
                self.scrollback_limit == old(self).scrollback_limit,
                self.scroll_offset == old(self).scroll_offset,
                self.scroll_region == old(self).scroll_region,
                self.tab_stops == old(self).tab_stops,
                self.alternate_state == old(self).alternate_state,
            decreases n - i,
        {
            if self.cursor_x + i < self.grid.width() {
                let _ = self.grid.set(self.cursor_x + i, self.cursor_y, Cell::default());
            }
            assert(self.grid@ =~~= span_blanked(
                c0,
                self.cursor_y as int,
                self.cursor_x as int,
                self.cursor_x + i + 1,
            ));
            i = i + 1;
        }
    }
}

} // verus!
