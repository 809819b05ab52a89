//! Splitting one picture across several monitors of different pixel density.
//!
//! The crate reads monitor descriptors from a display report, normalises the
//! monitors' pixel densities against the least dense one, plans the rectangles
//! that are cut from a shared canvas for each monitor, and cuts and resamples
//! the picture accordingly. All arithmetic is exact: densities and scaling
//! factors are fractions of integers.

pub mod compositor;
pub mod descriptor;
pub mod dpi;
pub mod error;
pub mod layout;
pub mod monitor;
pub mod raster;
pub mod ratio;
pub mod text;
