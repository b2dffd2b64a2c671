//! A generalized cellular-automaton engine: a toroidal grid of two-state
//! cells evolves under configurable birth/survival rules, with a choice of
//! square, triangle, or hexagon adjacency.

pub mod essentials;
pub mod universe;

pub use essentials::Cell;
pub use essentials::CellFormFactor;
pub use essentials::LifeError;
pub use essentials::LifeRules;
pub use universe::GridModel;
pub use universe::Universe;
