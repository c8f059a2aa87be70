//! Spacing between foreground marks along the rows of a binary raster image.
//!
//! Each row is split into runs by the foreground pixels of a mask row; within
//! each run the column distances between consecutive foreground pixels are kept
//! when they exceed one column.

pub mod error;
pub mod edges;
pub mod deltas;
pub mod rows;
pub mod grid;
pub mod flag_grid;
pub mod path;
pub mod laws;
