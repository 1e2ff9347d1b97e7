//! What the screen operations do, stated cell by cell and row by row.
use vstd::prelude::*;

use super::screen::{
    erased_chars, erased_in_display, erased_in_line, region_of, scrolled_up, shift_down_spec,
    shift_up_spec,
};
use super::alternate::{entered_alternate, exited_alternate};
use super::TerminalBuffer;
use crate::termcore::cell::{Cell, Color};
use crate::termcore::grid::rows_have_width;

verus! {

/// Scrolling up inside a scroll region that is not the whole screen (it starts below row 0
/// or ends above the last row) sends nothing to the scrollback and leaves the cursor row
/// alone.
pub proof fn lemma_region_scroll_keeps_scrollback_and_cursor(
    pre: TerminalBuffer,
    post: TerminalBuffer,
    n: int,
    t: usize,
    b: usize,
)
    requires
        scrolled_up(pre, post, n),
        pre.scroll_region == Some((t, b)),
        t > 0 || b + 1 < pre.h(),
    ensures
        post.scrollback_rows() == pre.scrollback_rows(),
        post.cursor_y == pre.cursor_y,
{
}

/// Scrolling the whole screen (no scroll region) up by `n` rows, `0 < n <= height`, with
/// room for them in the scrollback: the top `n` rows are appended to the scrollback in
/// order, each remaining row moves up by `n`, the bottom `n` rows become blank, and the
/// cursor row moves up by `n`, stopping at 0.
pub proof fn lemma_full_screen_scroll(pre: TerminalBuffer, post: TerminalBuffer, n: int)
    requires
        pre.wf(),
        scrolled_up(pre, post, n),
        pre.scroll_region is None,
        0 < n <= pre.h(),
        pre.scrollback_rows().len() + n <= pre.scrollback_limit,
    ensures
        post.scrollback_rows() == pre.scrollback_rows() + pre.grid@.subrange(0, n),
        post.cursor_y == (if pre.cursor_y >= n {
            pre.cursor_y - n
        } else {
            0
        }),
        post.grid@.len() == pre.h(),
        forall|i: int| 0 <= i < pre.h() - n ==> #[trigger] post.grid@[i] == pre.grid@[i + n],
        forall|i: int, j: int|
            pre.h() - n <= i < pre.h() && 0 <= j < pre.w() ==> #[trigger] post.grid@[i][j]
                == Cell::blank(),
{
    let h = pre.h();
    assert(region_of(pre.scroll_region, h) == (0int, h - 1));
    assert(super::screen::taken_rows(pre.grid@, n as nat) =~= pre.grid@.subrange(0, n));
    assert(super::screen::rows_scrolled_off((0int, h - 1), n) == n);
    assert forall|i: int, j: int| h - n <= i < h && 0 <= j < pre.w() implies #[trigger] post.grid@[i][j]
        == Cell::blank() by {
        assert(post.grid@[i] == crate::termcore::grid::blank_row(pre.w()));
    }
}

/// Moving the rows of `top..=bottom` up by `n`, with `n` no larger than the region: each
/// row from `top` to `bottom - n` takes the row `n` below it, the last `n` rows of the
/// region become blank, and every row outside the region stays as it was.
pub proof fn lemma_shift_up_rows(c: Seq<Seq<Cell>>, w: nat, top: int, bottom: int, n: int)
    requires
        rows_have_width(c, w),
        0 <= top <= bottom < c.len(),
        0 <= n <= bottom - top + 1,
    ensures
        ({
            let r = shift_up_spec(c, w, top, bottom, n);
            &&& r.len() == c.len()
            &&& forall|i: int| top <= i <= bottom - n ==> #[trigger] r[i] == c[i + n]
            &&& forall|i: int, j: int|
                bottom - n < i <= bottom && 0 <= j < w ==> #[trigger] r[i][j] == Cell::blank()
            &&& forall|i: int| bottom - n < i <= bottom ==> #[trigger] r[i].len() == w
            &&& forall|i: int|
                0 <= i < c.len() && (i < top || i > bottom) ==> #[trigger] r[i] == c[i]
        }),
{
}

/// Moving the rows of `top..=bottom` down by `n`, with `n` no larger than the region (and
/// smaller than it when the region starts at row 0): each row from `top + n` to `bottom`
/// takes the row `n` above it, the first `n` rows of the region become blank, and every row
/// outside the region stays as it was.
pub proof fn lemma_shift_down_rows(c: Seq<Seq<Cell>>, w: nat, top: int, bottom: int, n: int)
    requires
        rows_have_width(c, w),
        0 <= top <= bottom < c.len(),
        0 <= n <= bottom - top + 1,
        top > 0 || n <= bottom,
    ensures
        ({
            let r = shift_down_spec(c, w, top, bottom, n);
            &&& r.len() == c.len()
            &&& forall|i: int| top + n <= i <= bottom ==> #[trigger] r[i] == c[i - n]
            &&& forall|i: int, j: int|
                top <= i < top + n && 0 <= j < w ==> #[trigger] r[i][j] == Cell::blank()
            &&& forall|i: int| top <= i < top + n ==> #[trigger] r[i].len() == w
            &&& forall|i: int|
                0 <= i < c.len() && (i < top || i > bottom) ==> #[trigger] r[i] == c[i]
        }),
{
}

/// Erasing in the display clears, with mode 0, the cursor cell, the rest of its row and
/// every row below; with mode 1, every row above, the start of the cursor row and the cursor
/// cell; with any other mode nothing. Every other cell, the cursor and the scrollback stay.
pub proof fn lemma_erase_in_display_cells(pre: TerminalBuffer, post: TerminalBuffer, mode: u8)
    requires
        pre.wf(),
        erased_in_display(pre, post, mode),
    ensures
        post.grid@.len() == pre.h(),
        post.grid.w() == pre.grid.w(),
        post.cursor_x == pre.cursor_x,
        post.cursor_y == pre.cursor_y,
        post.scrollback == pre.scrollback,
        post.current_style == pre.current_style,
        post.cursor_style == pre.cursor_style,
        post.scrollback_limit == pre.scrollback_limit,
        post.scroll_offset == pre.scroll_offset,
        post.scroll_region == pre.scroll_region,
        post.tab_stops == pre.tab_stops,
        post.alternate_state == pre.alternate_state,
        forall|i: int, j: int|
            0 <= i < pre.h() && 0 <= j < pre.w() ==> #[trigger] post.grid@[i][j] == (if (mode
                == 0 && (i > pre.cursor_y || (i == pre.cursor_y && j >= pre.cursor_x))) || (mode
                == 1 && (i < pre.cursor_y || (i == pre.cursor_y && j <= pre.cursor_x))) {
                Cell::blank()
            } else {
                pre.grid@[i][j]
            }),
        forall|i: int| 0 <= i < pre.h() ==> #[trigger] post.grid@[i].len() == pre.w(),
{
    assert forall|i: int| 0 <= i < pre.h() implies #[trigger] post.grid@[i].len() == pre.w() by {
        assert(pre.grid@[i].len() == pre.w());
    }
    assert forall|i: int, j: int| 0 <= i < pre.h() && 0 <= j < pre.w() implies #[trigger] post.grid@[i][j]
        == (if (mode == 0 && (i > pre.cursor_y || (i == pre.cursor_y && j >= pre.cursor_x))) || (
    mode == 1 && (i < pre.cursor_y || (i == pre.cursor_y && j <= pre.cursor_x))) {
        Cell::blank()
    } else {
        pre.grid@[i][j]
    }) by {
        assert(pre.grid@[i].len() == pre.w());
    }
}

/// Erasing in the cursor row clears, with mode 0, the cursor cell and the rest of the row;
/// with mode 1, the start of the row and the cursor cell; with mode 2, the whole row; with
/// any other mode nothing. Every other cell, the cursor and the scrollback stay.
pub proof fn lemma_erase_in_line_cells(pre: TerminalBuffer, post: TerminalBuffer, mode: u8)
    requires
        pre.wf(),
        erased_in_line(pre, post, mode),
    ensures
        post.grid@.len() == pre.h(),
        post.grid.w() == pre.grid.w(),
        post.cursor_x == pre.cursor_x,
        post.cursor_y == pre.cursor_y,
        post.scrollback == pre.scrollback,
        post.current_style == pre.current_style,
        post.cursor_style == pre.cursor_style,
        post.scrollback_limit == pre.scrollback_limit,
        post.scroll_offset == pre.scroll_offset,
        post.scroll_region == pre.scroll_region,
        post.tab_stops == pre.tab_stops,
        post.alternate_state == pre.alternate_state,
        forall|i: int, j: int|
            0 <= i < pre.h() && 0 <= j < pre.w() ==> #[trigger] post.grid@[i][j] == (if i
                == pre.cursor_y && ((mode == 0 && j >= pre.cursor_x) || (mode == 1 && j
                <= pre.cursor_x) || mode == 2) {
                Cell::blank()
            } else {
                pre.grid@[i][j]
            }),
        forall|i: int| 0 <= i < pre.h() ==> #[trigger] post.grid@[i].len() == pre.w(),
{
    assert forall|i: int| 0 <= i < pre.h() implies #[trigger] post.grid@[i].len() == pre.w() by {
        assert(pre.grid@[i].len() == pre.w());
    }
    assert forall|i: int, j: int| 0 <= i < pre.h() && 0 <= j < pre.w() implies #[trigger] post.grid@[i][j]
        == (if i == pre.cursor_y && ((mode == 0 && j >= pre.cursor_x) || (mode == 1 && j
        <= pre.cursor_x) || mode == 2) {
        Cell::blank()
    } else {
        pre.grid@[i][j]
    }) by {
        assert(pre.grid@[i].len() == pre.w());
    }
}

/// Erasing `n` characters clears the cells of the cursor row from the cursor up to, not
/// including, column `cursor_x + n`; every other cell, the cursor and the scrollback stay.
pub proof fn lemma_erase_chars_cells(pre: TerminalBuffer, post: TerminalBuffer, n: int)
    requires
        pre.wf(),
        erased_chars(pre, post, n),
    ensures
        post.grid@.len() == pre.h(),
        post.grid.w() == pre.grid.w(),
        post.cursor_x == pre.cursor_x,
        post.cursor_y == pre.cursor_y,
        post.scrollback == pre.scrollback,
        post.current_style == pre.current_style,
        post.cursor_style == pre.cursor_style,
        post.scrollback_limit == pre.scrollback_limit,
        post.scroll_offset == pre.scroll_offset,
        post.scroll_region == pre.scroll_region,
        post.tab_stops == pre.tab_stops,
        post.alternate_state == pre.alternate_state,
        forall|i: int, j: int|
            0 <= i < pre.h() && 0 <= j < pre.w() ==> #[trigger] post.grid@[i][j] == (if i
                == pre.cursor_y && pre.cursor_x <= j < pre.cursor_x + n {
                Cell::blank()
            } else {
                pre.grid@[i][j]
            }),
        forall|i: int| 0 <= i < pre.h() ==> #[trigger] post.grid@[i].len() == pre.w(),
{
    assert forall|i: int| 0 <= i < pre.h() implies #[trigger] post.grid@[i].len() == pre.w() by {
        assert(pre.grid@[i].len() == pre.w());
    }
}

/// The scroll region that scrolling uses: the whole screen, rows 0 to the last one, when
/// none is set; otherwise the set region with its top kept and its bottom kept when it lies
/// on the screen and cut to the last row when it lies below.
pub proof fn lemma_region_of_cases(scroll_region: Option<(usize, usize)>, h: nat)
    ensures
        ({
            let r = region_of(scroll_region, h);
            let last: int = if h > 0 {
                h - 1
            } else {
                0
            };
            &&& scroll_region is None ==> r == (0int, last)
            &&& scroll_region matches Some((t, b)) ==> {
                &&& r.0 == t
                &&& b <= last ==> r.1 == b
                &&& b > last ==> r.1 == last
            }
        }),
{
}

/// Entering the alternate screen from the main screen shows a blank grid of the same size,
/// puts the cursor at the origin, writes in the default style (white on black, no
/// attributes), starts an empty scrollback and keeps the main screen aside.
pub proof fn lemma_enter_alternate_effects(pre: TerminalBuffer, post: TerminalBuffer)
    requires
        pre.alternate_state is None,
        entered_alternate(pre, post),
    ensures
        post.grid.w() == pre.grid.w(),
        post.grid@.len() == pre.h(),
        forall|i: int| 0 <= i < pre.h() ==> #[trigger] post.grid@[i].len() == pre.w(),
        forall|i: int, j: int|
            0 <= i < pre.h() && 0 <= j < pre.w() ==> #[trigger] post.grid@[i][j]
                == Cell::blank(),
        Cell::blank().ch == ' ',
        Cell::blank().style == post.current_style,
        post.cursor_x == 0,
        post.cursor_y == 0,
        post.current_style.fg == (Color { r: 255, g: 255, b: 255 }),
        post.current_style.bg == (Color { r: 0, g: 0, b: 0 }),
        !post.current_style.bold && !post.current_style.italic && !post.current_style.inverse,
        post.scrollback@.len() == 0,
        (post.alternate_state matches Some(s) && s.grid == pre.grid && s.cursor_x == pre.cursor_x
            && s.cursor_y == pre.cursor_y && s.current_style == pre.current_style && s.scrollback
            == pre.scrollback),
        post.scroll_offset == pre.scroll_offset,
        post.scroll_region == pre.scroll_region,
        post.tab_stops == pre.tab_stops,
{
}

/// Entering the alternate screen while it is shown, or leaving it while the main screen is
/// shown, changes nothing.
pub proof fn lemma_repeated_switch_is_noop(pre: TerminalBuffer, post: TerminalBuffer)
    ensures
        pre.alternate_state is Some && entered_alternate(pre, post) ==> post == pre,
        pre.alternate_state is None && exited_alternate(pre, post) ==> post == pre,
{
}

/// Leaving the alternate screen brings back the grid, cursor, style and scrollback that were
/// put aside, and shows the main screen.
pub proof fn lemma_exit_restores_saved(pre: TerminalBuffer, post: TerminalBuffer)
    requires
        pre.alternate_state is Some,
        exited_alternate(pre, post),
    ensures
        post.grid == pre.alternate_state->0.grid,
        post.cursor_x == pre.alternate_state->0.cursor_x,
        post.cursor_y == pre.alternate_state->0.cursor_y,
        post.current_style == pre.alternate_state->0.current_style,
        post.scrollback == pre.alternate_state->0.scrollback,
        (post.alternate_state is None),
        post.scroll_offset == pre.scroll_offset,
        post.scroll_region == pre.scroll_region,
        post.tab_stops == pre.tab_stops,
{
}

} // verus!
