//! A two-dimensional tile map: elements stored in one flat, row-major
//! sequence, addressed either by a linear index or by (x, y) coordinates
//! of a generic unsigned scalar type.

pub mod grid;
pub mod scalar;

pub use grid::TileMap;
pub use scalar::Scalar;
