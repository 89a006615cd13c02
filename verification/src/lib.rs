//! The sketch board of a screenshot annotation tool: a canvas with objects that
//! can be drawn, edited, undone and redone, and the rules by which it answers the
//! mouse, the keyboard and the toolbars.
pub mod configuration;
pub mod femtovg_area;
pub mod fixed;
pub mod math;
pub mod paths;
pub mod profiling;
pub mod sketch_board;
pub mod style;
pub mod text;
pub mod tools;
