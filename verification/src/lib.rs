//! A heuristic search for short closed tours through points on an integer grid.
//!
//! Coordinates are fixed-point integers (thousandths of a plotting unit), so every
//! length and every score is an exact integer and every comparison is decidable.

pub mod point;
mod random;
pub mod tour;
pub mod controller;
pub mod point_manager;
pub mod radial;
