//! A toroidal Game of Life simulator.
//!
//! A [`Universe`] owns a `width x height` grid of [`Cell`] values stored in
//! row-major order and advances it one generation at a time under the classic
//! B3/S23 rule, with neighbor lookups wrapping around both edges (torus
//! topology).

mod cell;
mod model;
mod universe;
mod laws;

pub use cell::Cell;
pub use universe::Universe;
