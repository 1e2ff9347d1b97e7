pub mod buffer;
pub mod cell;
pub mod grid;

pub use buffer::{AlternateState, TerminalBuffer};
pub use cell::{Cell, CellStyle, Color, UnderlineStyle};
pub use grid::Grid;
