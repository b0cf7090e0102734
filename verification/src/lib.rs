//! Evolving particle-life simulation core.
//!
//! Populations of point agents ("particles") grouped into species interact
//! through a per-species rule matrix and interaction radii. A genetic
//! algorithm evolves the matrix and radii across generations, scored by a
//! fitness metric over the agents' positions.
//!
//! All scalar quantities are fixed-point integers: coordinates, velocities,
//! rule coefficients and radii are kept in milli-units (one thousandth of a
//! world unit), fitness scores in micro-units (one millionth). This keeps
//! every computation exact and lets each function carry a precise contract.

pub mod components;
pub mod fitness;
pub mod fixed;
pub mod genome;
pub mod population;
pub mod resources;
pub mod rng;
pub mod systems;
