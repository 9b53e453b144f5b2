//! A verified engine for Conway's Game of Life on a finite toroidal board.
//!
//! The board is a rectangle of `width * height` cells stored row-major.
//! Stepping applies the classic rule — birth on exactly three live
//! neighbours, survival on two or three — with wrap-around adjacency, so the
//! board has no edges.  A run/stop flag gates mutation: individual cells can
//! be edited only while the simulation is stopped, and stepping only has an
//! effect while it is running.
//!
//! [`model`] holds the mathematical description of the game, [`engine`] the
//! executable engine proved against it, and [`laws`] the proved properties
//! that relate several operations.

pub mod engine;
pub mod laws;
pub mod model;
