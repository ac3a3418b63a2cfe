//! Conway's Game of Life on a toroidal grid.
//!
//! The library owns the grid model: construction, pattern composition,
//! the per-cell next-state rule with wraparound neighbor counting, the
//! whole-grid update, and rendering to text. Terminal I/O, frame pacing
//! and random seeding live outside the library.

pub mod canvas;
pub mod laws;
