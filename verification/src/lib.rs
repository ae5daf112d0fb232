//! A viewport-relative debug overlay for a 2D drawing surface, as a pure
//! function from the viewport, the monitor metrics and the mouse position to
//! an ordered list of draw commands.
//!
//! All lengths and coordinates are fixed-point numbers: an `i64` that counts
//! thousandths of a logical unit (see [`geom::UNIT`]).

pub mod command;
pub mod decimal;
pub mod geom;
pub mod grid;
pub mod monitor;
pub mod overlay;
pub mod scene;
