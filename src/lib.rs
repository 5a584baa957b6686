//! An analog clock face for character grids, with a live clock, a countdown
//! timer and a lap stopwatch that share the same face.
pub mod text;
pub mod clock;
pub mod duration;
pub mod instant;
pub mod clock_tab;
pub mod keys;
pub mod timer_tab;
pub mod stopwatch_tab;
pub mod tabs;
