//! The views of a CI dashboard, as what to draw.
//!
//! Each view is a function from the state on screen to a list of drawing
//! operations: styled text, frames, tables, the cells a click lands on, and what
//! the frame has learned that the keys go by. What is shown, where, in which
//! words and in which of the theme's colours is decided here and stated in the
//! contracts; painting the operations on a terminal, and blending the theme's
//! colours, is left to whoever owns the terminal.
//!
//! [`screen::render`] draws a whole frame from a [`state::App`].

pub mod bars;
pub mod batch;
pub mod changes;
pub mod clickmap;
pub mod clock;
pub mod columns;
pub mod dashboard;
pub mod detail;
pub mod diffview;
pub mod footer;
pub mod geometry;
pub mod grouping;
pub mod header;
pub mod help;
pub mod hits;
pub mod keys;
pub mod list;
pub mod live;
pub mod logs;
pub mod meaning;
pub mod motion;
pub mod ops;
pub mod paint;
pub mod paths;
pub mod prompts;
pub mod rundiff;
pub mod runs;
pub mod screen;
pub mod services;
pub mod state;
pub mod status;
pub mod strip;
pub mod text;
pub mod watch;
pub mod workflows;
pub mod wrap;
