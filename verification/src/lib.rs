//! Conway's Game of Life on a toroidal grid: a bit-packed `Universe` with a
//! double-buffered generation step, cell toggling, glider stamping, a derived
//! pixel-coordinate cache for a renderer, and a textual rendering.

pub mod bitset;
pub mod rules;
pub mod universe;

pub use universe::Cell;
pub use universe::Universe;

