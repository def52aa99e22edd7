//! Conway's Game of Life on a toroidal grid, with cell states packed one bit
//! per cell in a `fixedbitset::FixedBitSet`.

pub mod bits;
pub mod rules;
pub mod universe;

pub use rules::Cell;
pub use universe::Universe;
