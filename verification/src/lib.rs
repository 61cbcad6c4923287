//! Fixed-dimension vectors, points and matrices whose arithmetic runs in
//! chunks of one vector register's lanes.

pub mod chunked;
pub mod element;
pub mod laws;
pub mod ops;
pub mod simd;

mod matrix;
mod point;
mod vector;

pub use element::{ExactElement, NumericElement};
pub use matrix::{column_views, Matrix};
pub use point::Point;
pub use vector::Vector;
