# rin_terminal

A terminal screen buffer with machine-checked contracts (Verus): the cell grid, the cursor,
the scrollback with its limit, scroll regions (scrolling, inserting and deleting lines),
erasing, tab stops and the alternate screen; the xterm 256-colour palette; and the
decisions of the `rpkg` command line (which program a call is for, how a proxied program is
started, which package operations a set of flags asks for).

- `src/termcore/` — cells and colours, the grid, and the `TerminalBuffer` operations.
- `src/parser/` — cursor shapes and the colour palette.
- `src/rpkg.rs` — the `rpkg` decisions.
- `app/main.rs` — the `rpkg` program around them (file system, processes, output).
- `tests/` — tests on concrete values.
