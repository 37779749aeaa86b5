//! A verified raycasting engine for first-person rendering of a 2D tile grid.
//!
//! The engine casts one ray per screen column through a grid of unit cells
//! using the DDA (digital differential analyzer) traversal, and turns each
//! hit into a vertical screen segment whose height encodes wall distance.
//! All geometry is carried in fixed-point coordinates so that every step of
//! the computation has an exact arithmetic meaning.

pub mod fixed;
pub mod grid;
pub mod raycasting;
pub mod vector;
