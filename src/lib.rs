//! Structural core of a modified Akima spline: the order of positions on the
//! number line, point preparation, segment lookup and the layout of a grid of
//! samples for a bicubic surface.
pub mod error;
pub mod grid;
pub mod locate;
pub mod order;
pub mod points;

pub use error::SplineError;
pub use order::order_key;
pub use points::{sort_points, vec_to_points};
pub use locate::{locate, Segment};
pub use grid::{check_grid, column_points, row_points};
