//! Operators for binary-encoded genetic algorithms: index pickers, crossover,
//! fitness and parent selection, each with a contract that Verus proves.

pub mod ga;
