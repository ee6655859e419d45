//! Verified core of a 2D evolving-particle simulation: the interaction table,
//! the particle-type registry, the spatial hash grid used for neighbour search,
//! the simulation controls, and the choice of mating groups.

pub mod controls;
pub mod grid;
pub mod mating;
pub mod matrix;
pub mod registry;
