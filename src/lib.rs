//! Core of a terminal process monitor: per-process smoothed metrics with
//! bounded histories and a tombstone lifecycle, a table of all processes
//! updated once per tick, compression of a history into a fixed number of
//! sparkline cells, and the view state driven by key presses.
//!
//! Values are integers: cpu in hundredths of a percent, memory in KiB, disk
//! traffic in bytes, smoothing weights in thousandths.
use vstd::prelude::*;

pub mod draw_state;
pub mod event;
pub mod render;
pub mod sproc;
pub mod sprocs;
mod text;
pub mod view_state;

verus! {

/// Capacity of each per-process history.
pub const SAMPLE_LIMIT: usize = 600;

} // verus!
