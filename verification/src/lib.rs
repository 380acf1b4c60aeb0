//! A verified stepping engine for a fixed-size 2D cellular-automaton sandbox.
//!
//! The engine updates a dense grid of typed cells in nine ordered sub-passes
//! (one per 3x3 phase offset), so that no two cells touched by the same
//! sub-pass are adjacent, feeds every sub-pass a distinct seed derived from a
//! wrapping step counter, and offers a circular paint pass for interactive
//! edits between steps.

pub mod cell;
pub mod cursor;
pub mod engine;
pub mod grid;
pub mod kernel;
pub mod mode;
pub mod phase;
