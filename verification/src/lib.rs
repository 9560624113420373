//! The display and selection engine of a terminal fuzzy finder: a width-aware
//! text layout, a scrolling viewport with a cursor and a multi-select set, and
//! the description of every frame as plain drawing commands.

pub mod layout;
pub mod model;
pub mod render;
