//! A sidechain combination engine working on fixed-point audio samples.
//!
//! Samples, gains and smoothed parameter values are Q16.16 fixed-point
//! numbers held in `i32` (the real value is the raw value divided by
//! [`fixed::ONE`]). Every operation is total, allocation-free after
//! construction, and saturates instead of overflowing.

pub mod fixed;
pub mod envelope;
pub mod smoother;
pub mod combiner;
pub mod processor;
