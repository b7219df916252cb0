//! Integer-valued parts of a flocking simulation: the rule that gives each
//! agent its starting heading, and an occupancy grid with a two-point planner.

mod heading;

pub mod dstar;

pub use heading::{heading_of, initial_heading, lemma_heading_zero_iff};
