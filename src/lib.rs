//! Gradient colouring of labelled terminal bars.
//!
//! Positions, progress values and fade factors are exact ratios of integers,
//! so every colour a bar shows is a function of its inputs alone.

pub mod frac;
pub mod color;
pub mod line;
pub mod layout;
pub mod laws;
pub mod memory;
pub mod label;
