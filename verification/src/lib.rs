//! Decision logic of a simulated four-way crossroads: vehicles that enter on
//! one of three lanes per side, drive, turn at their pivot point, watch for
//! traffic in front of them, and the statistics collected on the way.
//!
//! Drawing, input and the clock stay with the program that runs the
//! simulation; everything here is plain data with verified contracts.

pub mod geometry;
pub mod time;
pub mod vehicle;
pub mod text;
pub mod statistics;
pub mod roads;
pub mod simulation;
