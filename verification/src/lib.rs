//! A composable per-pixel image-processing core.
//!
//! A filter is a pure function from a point and an input to one output
//! pixel.  Filters compose: `Then` runs one after another, fusing the two
//! point by point or materializing an intermediate image where the second
//! needs one; `Join` merges two filters with a function.  A `Kernel` is a
//! matrix of weights with an edge strategy, and a `Convolution` is the filter
//! it defines.  An evaluation runs over a whole image, over a region, in
//! place, or step by step as an `AsyncFilter`.
//!
//! Pixels and weights are generic: the crate fixes which points are read and
//! written and in which order, and the caller supplies the arithmetic.

pub mod convolution;
pub mod edge;
pub mod eval;
pub mod filter;
pub mod function;
pub mod geometry;
pub mod image;
pub mod input;
pub mod kernel;
pub mod point;
pub mod schedule;

pub use convolution::Convolution;
pub use edge::EdgeStrategy;
pub use eval::eval;
pub use eval::eval_in_place;
pub use eval::eval_partial;
pub use eval::eval_partial_in_place;
pub use eval::eval_region;
pub use filter::compute_at_with_filter;
pub use filter::Crop;
pub use filter::Filter;
pub use filter::Join;
pub use filter::Then;
pub use function::Binary;
pub use function::Function;
pub use function::Ternary;
pub use function::Unary;
pub use geometry::Point;
pub use geometry::Region;
pub use geometry::Size;
pub use image::Image;
pub use input::Cache;
pub use input::Input;
pub use kernel::Kernel;
pub use kernel::ShapeError;
pub use kernel::Tap;
pub use point::Blend;
pub use point::PointMap;
pub use schedule::eval_async;
pub use schedule::to_async;
pub use schedule::AsyncFilter;
pub use schedule::AsyncMode;
pub use schedule::Progress;
