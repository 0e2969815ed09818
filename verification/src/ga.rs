//! The operator layer a population-evolution driver calls once per generation.

pub mod error;
pub mod picker;
pub mod crossover;
pub mod fitness;
pub mod selection;
pub mod random;
