pub mod color;

pub use color::{ansi_bright_color, ansi_color, color_256};

use vstd::prelude::*;

verus! {

/// The shape in which the cursor is drawn.
#[derive(Clone, Copy, Debug, PartialEq, Eq, Structural)]
pub enum CursorStyle {
    Block,
    Underline,
    Bar,
}

} // verus!
