//! What the views say, as laws over what they are given.
//!
//! Each law reads what a view drew the way a person in front of the screen
//! does: the words of a line, the cell under a heading, the number before a
//! word. It then says how that follows from the fields of the state.

pub mod bars;
pub mod batch;
pub mod changes;
pub mod clock;
pub mod colours;
pub mod dashboard;
pub mod detail;
pub mod diffview;
pub mod footer;
pub mod grids;
pub mod header;
pub mod help;
pub mod layout;
pub mod live;
pub mod logs;
pub mod motion;
pub mod prompts;
pub mod reading;
pub mod rundiff;
pub mod runs;
pub mod screen;
pub mod services;
pub mod strip;
