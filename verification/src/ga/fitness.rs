//! Fitness: the score of one individual.
//!
//! Scores are whole numbers. They serve as selection weights, so only their
//! proportions matter.

use vstd::prelude::*;

verus! {

/// How many genes of `genes` are set.
pub open spec fn count_true(genes: Seq<bool>) -> nat
    decreases genes.len(),
{
    if genes.len() == 0 {
        0
    } else {
        count_true(genes.drop_last()) + if genes.last() {
            1nat
        } else {
            0nat
        }
    }
}

/// A way to score individuals. The score depends on the genes alone: the same
/// genes always get the same score.
pub trait Fitness {
    /// The score of an individual with the given genes.
    spec fn score(&self, individual: Seq<bool>) -> nat;

    /// Scores one individual.
    fn calculate(&self, individual: &Vec<bool>) -> (fitness: u64)
        ensures
            fitness == self.score(individual@),
    ;
}

/// Scores an individual by the number of its genes that are set.
pub struct CountFitness {}

impl Fitness for CountFitness {
    open spec fn score(&self, individual: Seq<bool>) -> nat {
        count_true(individual)
    }

    fn calculate(&self, individual: &Vec<bool>) -> (fitness: u64) {
        let mut count: u64 = 0;
        let mut i: usize = 0;
        while i < individual.len()
            invariant
                i <= individual.len(),
                count == count_true(individual@.take(i as int)),
                count <= i,
            decreases individual.len() - i,
        {
            assert(individual@.take(i + 1).drop_last() =~= individual@.take(i as int));
            if individual[i] {
                count += 1;
            }
            i += 1;
        }
        assert(individual@.take(i as int) =~= individual@);
        count
    }
}

} // verus!
