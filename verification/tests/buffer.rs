use rin_terminal::parser::CursorStyle;
use rin_terminal::termcore::buffer::DEFAULT_SCROLLBACK_LIMIT;
use rin_terminal::termcore::{Cell, CellStyle, Color, TerminalBuffer};

fn cell(ch: char) -> Cell {
    Cell { ch, style: CellStyle::default() }
}

/// A buffer whose row `y` is filled with the letter `'a' + y`.
fn lettered(width: usize, height: usize) -> TerminalBuffer {
    let mut b = TerminalBuffer::new(width, height);
    for y in 0..height {
        for x in 0..width {
            assert!(b.grid.set(x, y, cell((b'a' + y as u8) as char)));
        }
    }
    b
}

/// The characters of each row.
fn rows(b: &TerminalBuffer) -> Vec<String> {
    (0..b.grid.height())
        .map(|y| (0..b.grid.width()).map(|x| b.grid.get(x, y).unwrap().ch).collect())
        .collect()
}

fn row_text(r: &[Cell]) -> String {
    r.iter().map(|c| c.ch).collect()
}

#[test]
fn new_buffer_is_blank() {
    let b = TerminalBuffer::new(4, 3);
    assert_eq!(rows(&b), vec!["    ", "    ", "    "]);
    assert_eq!(b.cursor_pos(), (0, 0));
    assert_eq!(b.cursor_style(), CursorStyle::Block);
    assert_eq!(b.scrollback_len(), 0);
    assert_eq!(b.scroll_offset(), 0);
    assert_eq!(b.scrollback_limit, DEFAULT_SCROLLBACK_LIMIT);
    assert!(!b.is_alternate_screen());
    assert_eq!(b.grid.get(0, 0), Some(Cell::default()));
    assert_eq!(Cell::default().ch, ' ');
    assert_eq!(CellStyle::default().fg, Color::white());
    assert_eq!(CellStyle::default().bg, Color::new(0, 0, 0));
}

#[test]
fn scroll_up_full_screen_feeds_scrollback() {
    let mut b = lettered(3, 4);
    b.cursor_y = 3;
    b.scroll_up(2);
    assert_eq!(rows(&b), vec!["ccc", "ddd", "   ", "   "]);
    assert_eq!(b.scrollback_len(), 2);
    assert_eq!(row_text(b.scrollback_row(0).unwrap()), "aaa");
    assert_eq!(row_text(b.scrollback_row(1).unwrap()), "bbb");
    assert!(b.scrollback_row(2).is_none());
    assert_eq!(b.cursor_pos(), (0, 1));
}

#[test]
fn scroll_up_moves_cursor_no_higher_than_row_zero() {
    let mut b = lettered(2, 3);
    b.cursor_y = 1;
    b.scroll_up(2);
    assert_eq!(b.cursor_pos(), (0, 0));
    assert_eq!(rows(&b), vec!["cc", "  ", "  "]);
}

#[test]
fn scroll_up_more_than_the_screen_clears_it() {
    let mut b = lettered(2, 3);
    b.scroll_up(5);
    assert_eq!(rows(&b), vec!["  ", "  ", "  "]);
    assert_eq!(b.scrollback_len(), 3);
    assert_eq!(row_text(b.scrollback_row(2).unwrap()), "cc");
}

#[test]
fn scroll_up_by_zero_changes_nothing() {
    let mut b = lettered(2, 3);
    b.scroll_up(0);
    assert_eq!(rows(&b), vec!["aa", "bb", "cc"]);
    assert_eq!(b.scrollback_len(), 0);
}

#[test]
fn scroll_up_respects_the_scrollback_limit() {
    let mut b = lettered(2, 4);
    b.set_scrollback_limit(3);
    b.scroll_up(2);
    b.scroll_up(2);
    // the rows that left were "aa", "bb", "cc", "dd"; the oldest one is dropped
    assert_eq!(b.scrollback_len(), 3);
    assert_eq!(row_text(b.scrollback_row(0).unwrap()), "bb");
    assert_eq!(row_text(b.scrollback_row(2).unwrap()), "dd");
}

#[test]
fn scroll_up_inside_a_region_keeps_the_scrollback() {
    let mut b = lettered(2, 5);
    b.scroll_region = Some((1, 3));
    b.cursor_y = 4;
    b.scroll_up(1);
    assert_eq!(rows(&b), vec!["aa", "cc", "dd", "  ", "ee"]);
    assert_eq!(b.scrollback_len(), 0);
    assert_eq!(b.cursor_pos(), (0, 4));
}

#[test]
fn scroll_up_beyond_a_region_clears_rows_above_it() {
    // n exceeds the region 3..=4 but not bottom + 1: rows 2..=4 are cleared
    let mut b = lettered(1, 6);
    b.scroll_region = Some((3, 4));
    b.scroll_up(3);
    assert_eq!(rows(&b), vec!["a", "b", " ", " ", " ", "f"]);
}

#[test]
fn scroll_down_inside_a_region() {
    let mut b = lettered(2, 5);
    b.scroll_region = Some((1, 3));
    b.scroll_down(1);
    assert_eq!(rows(&b), vec!["aa", "  ", "bb", "cc", "ee"]);
}

#[test]
fn scroll_down_full_screen() {
    let mut b = lettered(1, 4);
    b.scroll_down(3);
    assert_eq!(rows(&b), vec![" ", " ", " ", "a"]);
    assert_eq!(b.scrollback_len(), 0);
}

#[test]
fn scroll_down_a_short_region_at_the_top_moves_its_first_row_below_it() {
    let mut b = lettered(1, 5);
    b.scroll_region = Some((0, 1));
    b.scroll_down(3);
    assert_eq!(rows(&b), vec![" ", " ", "c", "a", "e"]);
}

#[test]
fn scroll_down_then_up_restores_the_region_body() {
    let mut b = lettered(1, 6);
    b.scroll_region = Some((1, 4));
    b.scroll_down(2);
    b.scroll_up(2);
    assert_eq!(rows(&b), vec!["a", "b", "c", " ", " ", "f"]);
}

#[test]
fn effective_scroll_region_is_cut_to_the_screen() {
    let mut b = TerminalBuffer::new(2, 5);
    assert_eq!(b.effective_scroll_region(), (0, 4));
    b.scroll_region = Some((1, 10));
    assert_eq!(b.effective_scroll_region(), (1, 4));
    b.scroll_region = Some((2, 3));
    assert_eq!(b.effective_scroll_region(), (2, 3));
    let empty = TerminalBuffer::new(2, 0);
    assert_eq!(empty.effective_scroll_region(), (0, 0));
}

#[test]
fn insert_lines_at_cursor_pushes_rows_down() {
    let mut b = lettered(2, 5);
    b.cursor_y = 1;
    b.insert_lines_at_cursor(2);
    assert_eq!(rows(&b), vec!["aa", "  ", "  ", "bb", "cc"]);
}

#[test]
fn insert_lines_below_the_region_does_nothing() {
    let mut b = lettered(2, 5);
    b.scroll_region = Some((0, 2));
    b.cursor_y = 3;
    b.insert_lines_at_cursor(1);
    assert_eq!(rows(&b), vec!["aa", "bb", "cc", "dd", "ee"]);
}

#[test]
fn delete_lines_at_cursor_pulls_rows_up() {
    let mut b = lettered(2, 5);
    b.cursor_y = 1;
    b.delete_lines_at_cursor(2);
    assert_eq!(rows(&b), vec!["aa", "dd", "ee", "  ", "  "]);
    assert_eq!(b.scrollback_len(), 0);
}

#[test]
fn delete_then_insert_lines_restores_the_rows_below() {
    let mut b = lettered(1, 5);
    b.cursor_y = 1;
    b.delete_lines_at_cursor(1);
    b.insert_lines_at_cursor(1);
    assert_eq!(rows(&b), vec!["a", " ", "c", "d", "e"]);
}

#[test]
fn erase_in_display_modes() {
    let mut b = lettered(3, 3);
    b.cursor_x = 1;
    b.cursor_y = 1;
    b.erase_in_display(0);
    assert_eq!(rows(&b), vec!["aaa", "b  ", "   "]);

    let mut b = lettered(3, 3);
    b.cursor_x = 1;
    b.cursor_y = 1;
    b.erase_in_display(1);
    assert_eq!(rows(&b), vec!["   ", "  b", "ccc"]);

    let mut b = lettered(3, 3);
    b.cursor_x = 1;
    b.cursor_y = 1;
    b.erase_in_display(2);
    assert_eq!(rows(&b), vec!["aaa", "bbb", "ccc"]);
}

#[test]
fn erase_in_display_above_with_cursor_past_the_end() {
    let mut b = lettered(3, 2);
    b.cursor_x = 7;
    b.cursor_y = 1;
    b.erase_in_display(1);
    assert_eq!(rows(&b), vec!["   ", "   "]);
}

#[test]
fn erase_in_line_modes() {
    let mut b = lettered(4, 2);
    b.cursor_x = 2;
    b.erase_in_line(0);
    assert_eq!(rows(&b), vec!["aa  ", "bbbb"]);

    let mut b = lettered(4, 2);
    b.cursor_x = 2;
    b.erase_in_line(1);
    assert_eq!(rows(&b), vec!["   a", "bbbb"]);

    let mut b = lettered(4, 2);
    b.cursor_x = 2;
    b.cursor_y = 1;
    b.erase_in_line(2);
    assert_eq!(rows(&b), vec!["aaaa", "    "]);

    let mut b = lettered(4, 2);
    b.erase_in_line(3);
    assert_eq!(rows(&b), vec!["aaaa", "bbbb"]);
}

#[test]
fn erase_chars_stops_at_the_end_of_the_row() {
    let mut b = lettered(5, 2);
    b.cursor_x = 1;
    b.erase_chars(2);
    assert_eq!(rows(&b), vec!["a  aa", "bbbbb"]);
    b.cursor_x = 3;
    b.erase_chars(10);
    assert_eq!(rows(&b), vec!["a    ", "bbbbb"]);
}

#[test]
fn scroll_offset_stays_within_the_scrollback() {
    let mut b = lettered(1, 4);
    b.scroll_up(3);
    assert_eq!(b.scrollback_len(), 3);
    b.scroll_by(2);
    assert_eq!(b.scroll_offset(), 2);
    b.scroll_by(5);
    assert_eq!(b.scroll_offset(), 3);
    b.scroll_by(-10);
    assert_eq!(b.scroll_offset(), 0);
    b.scroll_to(1);
    assert_eq!(b.scroll_offset(), 1);
    b.scroll_to(99);
    assert_eq!(b.scroll_offset(), 3);
    b.scroll_to_bottom();
    assert_eq!(b.scroll_offset(), 0);
}

#[test]
fn set_scrollback_limit_drops_the_oldest_rows() {
    let mut b = lettered(1, 5);
    b.scroll_up(4);
    b.set_scrollback_limit(2);
    assert_eq!(b.scrollback_limit, 2);
    assert_eq!(b.scrollback_len(), 2);
    assert_eq!(row_text(b.scrollback_row(0).unwrap()), "c");
    assert_eq!(row_text(b.scrollback_row(1).unwrap()), "d");
}

#[test]
fn tab_stops_every_eight_columns() {
    let mut b = TerminalBuffer::new(20, 2);
    b.advance_to_next_tab_stop();
    assert_eq!(b.cursor_pos(), (8, 0));
    b.advance_to_next_tab_stop();
    assert_eq!(b.cursor_pos(), (16, 0));
    b.advance_to_next_tab_stop();
    assert_eq!(b.cursor_pos(), (19, 0));
    b.cursor_x = 3;
    b.tab_stops[5] = true;
    b.advance_to_next_tab_stop();
    assert_eq!(b.cursor_pos(), (5, 0));
}

#[test]
fn tab_on_an_empty_grid_goes_to_column_zero() {
    let mut b = TerminalBuffer::new(0, 1);
    b.cursor_x = 4;
    b.advance_to_next_tab_stop();
    assert_eq!(b.cursor_pos(), (0, 0));
}

#[test]
fn alternate_screen_round_trip() {
    let mut b = lettered(3, 2);
    b.scroll_up(1);
    b.cursor_x = 2;
    b.cursor_y = 1;
    b.current_style.bold = true;
    let before_rows = rows(&b);

    b.enter_alternate_screen();
    assert!(b.is_alternate_screen());
    assert_eq!(rows(&b), vec!["   ", "   "]);
    assert_eq!(b.cursor_pos(), (0, 0));
    assert_eq!(b.current_style, CellStyle::default());
    assert_eq!(b.scrollback_len(), 0);

    assert!(b.grid.set(0, 0, cell('x')));
    b.enter_alternate_screen();
    assert_eq!(rows(&b), vec!["x  ", "   "]);

    b.exit_alternate_screen();
    assert!(!b.is_alternate_screen());
    assert_eq!(rows(&b), before_rows);
    assert_eq!(b.cursor_pos(), (2, 1));
    assert!(b.current_style.bold);
    assert_eq!(b.scrollback_len(), 1);
    assert_eq!(row_text(b.scrollback_row(0).unwrap()), "aaa");

    b.exit_alternate_screen();
    assert_eq!(rows(&b), before_rows);
}

#[test]
fn grid_ignores_positions_outside_it() {
    let mut b = TerminalBuffer::new(2, 2);
    assert!(!b.grid.set(2, 0, cell('x')));
    assert!(!b.grid.set(0, 2, cell('x')));
    assert_eq!(b.grid.get(2, 0), None);
    b.grid.swap_cells(0, 0, 5, 5);
    assert_eq!(rows(&b), vec!["  ", "  "]);
    assert!(b.grid.take_row(9).is_empty());
}
