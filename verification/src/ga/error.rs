//! The failures an operator can report.

use vstd::prelude::*;

verus! {

/// Why an operator refused its input. Every failure is reported at once and
/// leaves nothing half done.
#[derive(Debug, Clone, Copy, PartialEq, Eq, Structural)]
pub enum GaError {
    /// The two chromosomes handed to a crossover differ in length.
    LengthMismatch,
    /// A count exceeds the chromosome length, a chromosome or population is
    /// empty where it must not be, or no selection weight is positive.
    InvalidInput,
}

} // verus!
