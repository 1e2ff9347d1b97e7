use vstd::prelude::*;

use super::TerminalBuffer;
use crate::parser::CursorStyle;

verus! {

/// Whether column `x` holds a tab stop.
pub open spec fn is_tab_stop(tabs: Seq<bool>, x: int) -> bool {
    0 <= x < tabs.len() && tabs[x]
}

/// The first tab stop at or after column `x` and before column `w`; the last column (0 on
/// a grid without columns) when there is none.
pub open spec fn next_tab_stop(tabs: Seq<bool>, x: int, w: int) -> int
    decreases w - x,
{
    if x >= w {
        if w > 0 {
            w - 1
        } else {
            0
        }
    } else if is_tab_stop(tabs, x) {
        x
    } else {
        next_tab_stop(tabs, x + 1, w)
    }
}

impl TerminalBuffer {
    /// The cursor position as (column, row).
    pub fn cursor_pos(&self) -> (pos: (usize, usize))
        ensures
            pos == (self.cursor_x, self.cursor_y),
    {
        (self.cursor_x, self.cursor_y)
    }

    /// The shape in which the cursor is drawn.
    pub fn cursor_style(&self) -> (style: CursorStyle)
        ensures
            style == self.cursor_style,
    {
        self.cursor_style
    }

    /// Moves the cursor to the next tab stop to its right, or to the last column when there
    /// is none before the end of the row.
    pub fn advance_to_next_tab_stop(&mut self)
        requires
            old(self).cursor_x < usize::MAX,
        ensures
            final(self).cursor_x == next_tab_stop(
                old(self).tab_stops@,
                old(self).cursor_x + 1,
                old(self).grid.w() as int,
            ),
            final(self).grid == old(self).grid,
            final(self).cursor_y == old(self).cursor_y,
            final(self).current_style == old(self).current_style,
            final(self).cursor_style == old(self).cursor_style,
            final(self).scrollback == old(self).scrollback,
            final(self).scrollback_limit == old(self).scrollback_limit,
            final(self).scroll_offset == old(self).scroll_offset,
            final(self).scroll_region == old(self).scroll_region,
            final(self).tab_stops == old(self).tab_stops,
            final(self).alternate_state == old(self).alternate_state,
    {
        let width = self.grid.width();
        let mut x = self.cursor_x + 1;
        while x < width
            invariant
                x >= old(self).cursor_x + 1,
                width == old(self).grid.w(),
                *self == *old(self),
                next_tab_stop(old(self).tab_stops@, old(self).cursor_x + 1, width as int)
                    == next_tab_stop(old(self).tab_stops@, x as int, width as int),
            decreases width - x,
        {
            if x < self.tab_stops.len() && self.tab_stops[x] {
                self.cursor_x = x;
                return;
            }
            x = x + 1;
        }
        self.cursor_x = width.saturating_sub(1);
    }
}

/// The column `advance_to_next_tab_stop` moves to from column `x - 1`: the first column at or
/// after `x` and before `w` whose entry in `tabs` is `true`, or the last column (0 on a grid
/// without columns) when no such entry is left.
pub proof fn lemma_next_tab_stop_is_first(tabs: Seq<bool>, x: int, w: int)
    requires
        0 <= x,
    ensures
        ({
            let t = next_tab_stop(tabs, x, w);
            ||| (x <= t < w && t < tabs.len() && tabs[t] && forall|k: int|
                x <= k < t && k < tabs.len() ==> !#[trigger] tabs[k])
            ||| ((t == if w > 0 {
                w - 1
            } else {
                0
            }) && forall|k: int| x <= k < w && k < tabs.len() ==> !#[trigger] tabs[k])
        }),
    decreases w - x,
{
    if x < w && !(x < tabs.len() && tabs[x]) {
        lemma_next_tab_stop_is_first(tabs, x + 1, w);
    }
}

} // verus!
