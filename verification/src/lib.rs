//! A terminal screen buffer (grid, cursor, scrollback, scroll regions and the alternate
//! screen), the xterm colour palette, and the decisions of the `rpkg` command line.
pub mod parser;
pub mod rpkg;
pub mod termcore;
