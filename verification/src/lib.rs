//! Parallel-computing benchmark kernels: histograms, array minimum, integer
//! matrix multiplication and grid indexing, with their parallel forms run on
//! rayon thread pools.

pub mod grid;
pub mod pool;
pub mod clock;
pub mod histogram;
pub mod array_min;
pub mod page_histogram;
pub mod matrix;
pub mod programmability;
