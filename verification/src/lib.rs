//! A verified 2D convolution core: a dense row-major grid of cells, small
//! odd-sized weight kernels, and interchangeable convolution strategies
//! (direct spatial, data-parallel spatial, and the index geometry of
//! frequency-domain convolution).
//!
//! Cell values themselves are generic: the container, the boundary-skip tap
//! enumeration, the traversal order and the padding arithmetic are verified
//! here for every cell type, while the numeric per-pixel combination is
//! supplied by the caller.

pub mod convolve;
pub mod fft;
pub mod grid;
pub mod kernel;
pub mod random;
pub mod raster;

pub use grid::Grid;
pub use kernel::Kernel;
pub use raster::Center;
pub use raster::Raster;
