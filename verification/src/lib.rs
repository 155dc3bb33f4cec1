//! Conway's Game of Life on a fixed-size toroidal grid.

pub mod cell;
pub mod laws;
pub mod model;
pub mod patterns;
pub mod render;
pub mod torus;
pub mod universe;

pub use cell::{Cell, CellCoordinates};
pub use model::UniverseView;
pub use universe::Universe;
