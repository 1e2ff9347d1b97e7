use rin_terminal::parser::{ansi_bright_color, ansi_color, color_256};
use rin_terminal::termcore::Color;

#[test]
fn ansi_colors() {
    assert_eq!(ansi_color(0), Color::new(0, 0, 0));
    assert_eq!(ansi_color(1), Color::new(205, 49, 49));
    assert_eq!(ansi_color(4), Color::new(36, 114, 200));
    assert_eq!(ansi_color(7), Color::new(229, 229, 229));
    assert_eq!(ansi_color(8), Color::white());
    assert_eq!(ansi_color(300), Color::new(255, 255, 255));
}

#[test]
fn ansi_bright_colors() {
    assert_eq!(ansi_bright_color(0), Color::new(102, 102, 102));
    assert_eq!(ansi_bright_color(2), Color::new(35, 209, 139));
    assert_eq!(ansi_bright_color(7), Color::new(255, 255, 255));
    assert_eq!(ansi_bright_color(9), Color::white());
}

#[test]
fn palette_starts_with_the_ansi_colors() {
    for n in 0u8..8 {
        assert_eq!(color_256(n), ansi_color(n as u16));
        assert_eq!(color_256(n + 8), ansi_bright_color(n as u16));
    }
}

#[test]
fn palette_color_cube() {
    assert_eq!(color_256(16), Color::new(0, 0, 0));
    assert_eq!(color_256(17), Color::new(0, 0, 95));
    assert_eq!(color_256(21), Color::new(0, 0, 255));
    assert_eq!(color_256(22), Color::new(0, 95, 0));
    assert_eq!(color_256(52), Color::new(95, 0, 0));
    assert_eq!(color_256(196), Color::new(255, 0, 0));
    assert_eq!(color_256(110), Color::new(135, 175, 215));
    assert_eq!(color_256(231), Color::new(255, 255, 255));
}

#[test]
fn palette_grays() {
    assert_eq!(color_256(232), Color::new(8, 8, 8));
    assert_eq!(color_256(233), Color::new(18, 18, 18));
    assert_eq!(color_256(255), Color::new(238, 238, 238));
}
