# jog_views

The views of a terminal dashboard for CI runs and working trees, written in
Verus.

Each view is a function from the state on screen to a list of drawing
operations. The contracts say exactly which operations: which words, in which of
the theme's colours, in which cells, which of them can be clicked, and what the
frame has learned that the keys go by. The laws, proof functions whose names
start with `law_`, say what holds across views and frames: that the row under
the cursor is on screen, that clicks do not overlap, that drawing again leaves
the same click map, that a header never collides with itself, that every error
in a log is on its map. On a screen too small for what it should hold, which
pieces give way is the layout solver's choice; that they do not overlap is not.

- `src/` is the verified library. `screen.rs` draws a whole frame; there is a
  module for each view, one for each thing several views share (`text`,
  `columns`, `geometry`, `ops`, `paint`, `list`, `clock`, `motion`, `hits`), the
  frame's `clickmap`, and
  `state.rs` for the state itself.
- `app/` paints the operations on a terminal with ratatui, and blends the
  theme's colours.
- `tests/` draws the views on an off-screen terminal and reads them back.

What is trusted, and not proved, is stated where it is called: how wide text is
(`columns.rs`), how a rectangle is split and framed (`geometry.rs`), the time of
day (`clock.rs`), the home directory (`paths.rs`), and letter case (`wrap.rs`).
