use vstd::prelude::*;

use std::collections::VecDeque;

use super::{blank_screen, TerminalBuffer};
use crate::termcore::cell::{Cell, CellStyle};
use crate::termcore::grid::Grid;

verus! {

/// What the main screen held when the alternate screen was entered.
#[derive(Debug)]
pub struct AlternateState {
    pub grid: Grid,
    pub cursor_x: usize,
    pub cursor_y: usize,
    pub current_style: CellStyle,
    pub scrollback: VecDeque<Vec<Cell>>,
}

/// `post` and `pre` agree on everything that switching screens leaves alone.
pub open spec fn same_settings(pre: TerminalBuffer, post: TerminalBuffer) -> bool {
    &&& post.cursor_style == pre.cursor_style
    &&& post.scrollback_limit == pre.scrollback_limit
    &&& post.scroll_offset == pre.scroll_offset
    &&& post.scroll_region == pre.scroll_region
    &&& post.tab_stops == pre.tab_stops
}

/// `post` is `pre` after entering the alternate screen: on the main screen, the grid, the
/// cursor, the style and the scrollback are put aside and replaced by a blank grid of the
/// same size, the cursor at the origin, the default style and an empty scrollback; on the
/// alternate screen nothing changes.
pub open spec fn entered_alternate(pre: TerminalBuffer, post: TerminalBuffer) -> bool {
    if pre.alternate_state is Some {
        post == pre
    } else {
        &&& post.grid.wf()
        &&& post.grid.w() == pre.grid.w()
        &&& post.grid@ == blank_screen(pre.grid.w(), pre.grid@.len())
        &&& post.cursor_x == 0
        &&& post.cursor_y == 0
        &&& post.current_style == CellStyle::default_spec()
        &&& post.scrollback@ == Seq::<Vec<Cell>>::empty()
        &&& post.alternate_state == Some(
            Box::new(
                AlternateState {
                    grid: pre.grid,
                    cursor_x: pre.cursor_x,
                    cursor_y: pre.cursor_y,
                    current_style: pre.current_style,
                    scrollback: pre.scrollback,
                },
            ),
        )
        &&& same_settings(pre, post)
    }
}

/// `post` is `pre` after leaving the alternate screen: the saved grid, cursor, style and
/// scrollback come back and nothing is saved any more; on the main screen nothing changes.
pub open spec fn exited_alternate(pre: TerminalBuffer, post: TerminalBuffer) -> bool {
    match pre.alternate_state {
        None => post == pre,
        Some(state) => {
            &&& post.grid == state.grid
            &&& post.cursor_x == state.cursor_x
            &&& post.cursor_y == state.cursor_y
            &&& post.current_style == state.current_style
            &&& post.scrollback == state.scrollback
            &&& post.alternate_state is None
            &&& same_settings(pre, post)
        },
    }
}

impl TerminalBuffer {
    /// Whether the alternate screen is shown.
    pub fn is_alternate_screen(&self) -> (b: bool)
        ensures
            b == self.alternate_state is Some,
    {
        self.alternate_state.is_some()
    }

    /// Switches to the alternate screen, putting the main screen aside; does nothing when the
    /// alternate screen is already shown.
    pub fn enter_alternate_screen(&mut self)
        requires
            old(self).wf(),
        ensures
            final(self).wf(),
            entered_alternate(*old(self), *final(self)),
    {
        if self.alternate_state.is_some() {
            return;
        }
        let mut saved_grid = Grid::default();
        std::mem::swap(&mut saved_grid, &mut self.grid);
        let mut saved_scrollback: VecDeque<Vec<Cell>> = VecDeque::new();
        std::mem::swap(&mut saved_scrollback, &mut self.scrollback);
        let state = AlternateState {
            grid: saved_grid,
            cursor_x: self.cursor_x,
            cursor_y: self.cursor_y,
            current_style: self.current_style,
            scrollback: saved_scrollback,
        };

        self.grid = Grid::new(state.grid.width(), state.grid.height());
        self.alternate_state = Some(Box::new(state));
        self.cursor_x = 0;
        self.cursor_y = 0;
        self.current_style = CellStyle::default();
    }

    /// Switches back to the main screen, restoring what was put aside; does nothing when the
    /// main screen is shown.
    pub fn exit_alternate_screen(&mut self)
        requires
            old(self).wf(),
        ensures
            final(self).wf(),
            exited_alternate(*old(self), *final(self)),
    {
        if let Some(state) = self.alternate_state.take() {
            let AlternateState { grid, cursor_x, cursor_y, current_style, scrollback } = *state;
            self.grid = grid;
            self.cursor_x = cursor_x;
            self.cursor_y = cursor_y;
            self.current_style = current_style;
            self.scrollback = scrollback;
        }
    }
}

/// Leaving the alternate screen right after entering it from the main screen gives back the
/// buffer exactly as it was.
pub proof fn lemma_exit_undoes_enter(pre: TerminalBuffer, mid: TerminalBuffer, post: TerminalBuffer)
    requires
        pre.alternate_state is None,
        entered_alternate(pre, mid),
        exited_alternate(mid, post),
    ensures
        post == pre,
{
}

/// Entering the alternate screen shows it, and leaving it shows the main screen, whatever
/// was shown before.
pub proof fn lemma_screen_switch_flags(pre: TerminalBuffer, post: TerminalBuffer)
    ensures
        entered_alternate(pre, post) ==> post.alternate_state is Some,
        exited_alternate(pre, post) ==> post.alternate_state is None,
{
}

} // verus!
