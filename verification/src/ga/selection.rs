//! Selection: drawing pairs of parents from a population.
//!
//! Every individual gets a weight. A parent is then drawn with a chance in
//! proportion to its weight, each draw on its own, so the same individual may
//! be drawn twice and may be paired with itself. Individuals are named by
//! their position in the population, which is never reordered.

use vstd::prelude::*;
use rand::rngs::ThreadRng;
use rand::thread_rng;
use crate::ga::error::GaError;
use crate::ga::fitness::Fitness;
use crate::ga::random::{sample_index, weighted_index, weights_of, IndexDistribution};

verus! {

/// The genes of each individual of a population.
pub open spec fn population_view(individuals: Seq<Vec<bool>>) -> Seq<Seq<bool>> {
    individuals.map_values(|genes: Vec<bool>| genes@)
}

/// Machine numbers as weights.
pub open spec fn as_weights(values: Seq<u64>) -> Seq<nat> {
    values.map_values(|w: u64| w as nat)
}

/// Whether some weight is positive. Weights without a positive one, an empty
/// list among them, give nothing to draw from.
pub open spec fn has_positive_weight(weights: Seq<nat>) -> bool {
    exists|i: int| 0 <= i < weights.len() && weights[i] > 0
}

/// Whether `index` can be drawn under `weights`: it names one of them, and not
/// one of weight zero.
pub open spec fn is_parent(weights: Seq<nat>, index: usize) -> bool {
    index < weights.len() && weights[index as int] > 0
}

/// Whether both indices of every pair can be drawn under `weights`.
pub open spec fn are_parents(weights: Seq<nat>, pairs: Seq<(usize, usize)>) -> bool {
    forall|k: int|
        0 <= k < pairs.len() ==> is_parent(weights, (#[trigger] pairs[k]).0) && is_parent(
            weights,
            pairs[k].1,
        )
}

/// The score of each individual of a population under `fitness`.
pub open spec fn scores_of<F: Fitness>(fitness: F, individuals: Seq<Seq<bool>>) -> Seq<nat> {
    individuals.map_values(|genes: Seq<bool>| fitness.score(genes))
}

/// An endless supply of parent pairs, drawn under fixed weights.
pub struct SelectionIter {
    weights: IndexDistribution,
    rng: ThreadRng,
}

impl SelectionIter {
    /// The weights under which the pairs are drawn, one for each individual.
    pub closed spec fn weights(&self) -> Seq<nat> {
        weights_of(self.weights)
    }

    fn new(weights: IndexDistribution) -> (iter: Self)
        ensures
            iter.weights() == weights_of(weights),
    {
        Self { weights, rng: thread_rng() }
    }

    /// A supply of pairs drawn under the given weights. Fails with
    /// `InvalidInput` exactly when no weight is positive.
    pub fn from_weights(weights: &Vec<u64>) -> (iter: Result<Self, GaError>)
        ensures
            iter is Ok <==> has_positive_weight(as_weights(weights@)),
            iter matches Ok(made) ==> made.weights() == as_weights(weights@),
            iter matches Err(e) ==> e == GaError::InvalidInput,
    {
        let made = weighted_index(weights);
        proof {
            if made is Ok {
                let i = choose|i: int| 0 <= i < weights.len() && weights[i] > 0;
                assert(as_weights(weights@)[i] > 0);
            }
        }
        match made {
            Ok(weights) => Ok(SelectionIter::new(weights)),
            _ => Err(GaError::InvalidInput),
        }
    }

    /// The next pair of parents. There always is one.
    pub fn next(&mut self) -> (pair: Option<(usize, usize)>)
        ensures
            final(self).weights() == old(self).weights(),
            pair matches Some((first, second)) && is_parent(old(self).weights(), first)
                && is_parent(old(self).weights(), second),
    {
        let first = sample_index(&self.weights, &mut self.rng);
        let second = sample_index(&self.weights, &mut self.rng);
        Some((first, second))
    }

    /// The next `samples` pairs of parents.
    pub fn take_pairs(&mut self, samples: usize) -> (pairs: Vec<(usize, usize)>)
        ensures
            final(self).weights() == old(self).weights(),
            pairs.len() == samples,
            are_parents(old(self).weights(), pairs@),
    {
        let mut pairs: Vec<(usize, usize)> = Vec::new();
        let mut k: usize = 0;
        while k < samples
            invariant
                k <= samples,
                pairs.len() == k,
                self.weights() == old(self).weights(),
                are_parents(self.weights(), pairs@),
            decreases samples - k,
        {
            match self.next() {
                Some(pair) => pairs.push(pair),
                None => {},
            }
            k += 1;
        }
        pairs
    }
}

/// A way to weigh the individuals of a population and to draw parents by
/// those weights.
///
/// Whatever the strategy: a population is refused with `InvalidInput` exactly
/// when none of its individuals has a positive weight, which holds of the
/// empty population; every index drawn names an individual of the population,
/// and one of positive weight.
pub trait Selection {
    /// The weight of each individual, in the order of the population.
    spec fn weights(&self, individuals: Seq<Seq<bool>>) -> Seq<nat>;

    /// Weighs the individuals and returns a supply of parent pairs drawn by
    /// those weights.
    fn get_selection_iter(&self, individuals: &Vec<Vec<bool>>) -> (iter: Result<
        SelectionIter,
        GaError,
    >)
        ensures
            individuals.len() == 0 ==> iter is Err,
            iter is Ok <==> has_positive_weight(self.weights(population_view(individuals@))),
            iter matches Ok(made) ==> made.weights() == self.weights(population_view(individuals@))
                && made.weights().len() == individuals.len(),
            iter matches Err(e) ==> e == GaError::InvalidInput,
    ;

    /// Draws `samples` pairs of parents from the population: twice as many
    /// parents, each drawn on its own.
    fn select(&self, population: &Vec<Vec<bool>>, samples: usize) -> (pairs: Result<
        Vec<(usize, usize)>,
        GaError,
    >)
        ensures
            population.len() == 0 ==> pairs is Err,
            pairs is Ok <==> has_positive_weight(self.weights(population_view(population@))),
            pairs matches Ok(drawn) ==> drawn.len() == samples && are_parents(
                self.weights(population_view(population@)),
                drawn@,
            ) && (forall|k: int|
                0 <= k < drawn.len() ==> (#[trigger] drawn[k]).0 < population.len() && drawn[k].1
                    < population.len()),
            pairs matches Err(e) ==> e == GaError::InvalidInput,
    {
        let mut iter = self.get_selection_iter(population)?;
        Ok(iter.take_pairs(samples))
    }
}

/// The score of each individual of a population.
pub fn score_each<F: Fitness>(fitness: &F, individuals: &Vec<Vec<bool>>) -> (scores: Vec<u64>)
    ensures
        as_weights(scores@) == scores_of(*fitness, population_view(individuals@)),
{
    let mut scores: Vec<u64> = Vec::new();
    let mut i: usize = 0;
    while i < individuals.len()
        invariant
            i <= individuals.len(),
            scores.len() == i,
            forall|j: int| 0 <= j < i ==> scores[j] == fitness.score(#[trigger] individuals[j]@),
        decreases individuals.len() - i,
    {
        scores.push(fitness.calculate(&individuals[i]));
        i += 1;
    }
    scores
}

/// Roulette-wheel selection: an individual's weight is its fitness.
pub struct RouletteWheelSelection<F> where F: Fitness {
    pub fitness: F,
}

impl<F> Selection for RouletteWheelSelection<F> where F: Fitness {
    open spec fn weights(&self, individuals: Seq<Seq<bool>>) -> Seq<nat> {
        scores_of(self.fitness, individuals)
    }

    fn get_selection_iter(&self, individuals: &Vec<Vec<bool>>) -> (iter: Result<
        SelectionIter,
        GaError,
    >) {
        let fitness = score_each(&self.fitness, individuals);
        SelectionIter::from_weights(&fitness)
    }
}

/// Whether individual `j` comes before individual `i` once the population is
/// put in ascending order of score, with equal scores kept in their order.
pub open spec fn ranks_below(scores: Seq<nat>, j: int, i: int) -> bool {
    scores[j] < scores[i] || (scores[j] == scores[i] && j < i)
}

/// How many of the first `upto` individuals come before individual `i`.
pub open spec fn count_below(scores: Seq<nat>, i: int, upto: int) -> nat
    decreases upto,
{
    if upto <= 0 {
        0
    } else {
        count_below(scores, i, upto - 1) + if ranks_below(scores, upto - 1, i) {
            1nat
        } else {
            0nat
        }
    }
}

/// The rank of individual `i`: the number of individuals that come before it
/// in ascending order of score. The worst individual has rank 0.
pub open spec fn rank_of(scores: Seq<nat>, i: int) -> nat {
    count_below(scores, i, scores.len() as int)
}

/// Among the first `upto` individuals, fewer than `upto` come before
/// individual `i` if it is one of them, and no more than `upto` otherwise.
pub proof fn lemma_count_below_bounded(scores: Seq<nat>, i: int, upto: int)
    requires
        0 <= upto,
    ensures
        count_below(scores, i, upto) <= upto,
        0 <= i < upto ==> count_below(scores, i, upto) < upto,
    decreases upto,
{
    if upto > 0 {
        lemma_count_below_bounded(scores, i, upto - 1);
    }
}

/// Whoever comes before individual `i` also comes before any individual that
/// `i` comes before, and so does `i` itself.
pub proof fn lemma_count_below_grows(scores: Seq<nat>, i: int, j: int, upto: int)
    requires
        0 <= upto,
        ranks_below(scores, i, j),
    ensures
        count_below(scores, i, upto) <= count_below(scores, j, upto),
        0 <= i < upto ==> count_below(scores, i, upto) < count_below(scores, j, upto),
    decreases upto,
{
    if upto > 0 {
        lemma_count_below_grows(scores, i, j, upto - 1);
    }
}

/// Ranks are positions in the ascending order: every rank is below the size
/// of the population, and an individual that comes before another has the
/// lower rank. So no two individuals share a rank.
pub proof fn lemma_ranks_order_population(scores: Seq<nat>, i: int, j: int)
    requires
        0 <= i < scores.len(),
        0 <= j < scores.len(),
    ensures
        rank_of(scores, i) < scores.len(),
        ranks_below(scores, i, j) ==> rank_of(scores, i) < rank_of(scores, j),
        i != j ==> rank_of(scores, i) != rank_of(scores, j),
{
    lemma_count_below_bounded(scores, i, scores.len() as int);
    if ranks_below(scores, i, j) {
        lemma_count_below_grows(scores, i, j, scores.len() as int);
    }
    if ranks_below(scores, j, i) {
        lemma_count_below_grows(scores, j, i, scores.len() as int);
    }
}

/// The rank of each individual, given the score of each. Every individual is
/// held against every other, and the scores stay where they are.
pub fn rank_scores(scores: &Vec<u64>) -> (ranks: Vec<usize>)
    ensures
        ranks.len() == scores.len(),
        forall|i: int|
            0 <= i < ranks.len() ==> #[trigger] ranks[i] == rank_of(as_weights(scores@), i),
        forall|i: int| 0 <= i < ranks.len() ==> #[trigger] ranks[i] < scores.len(),
{
    let n = scores.len();
    let ghost weights = as_weights(scores@);
    let mut ranks: Vec<usize> = Vec::new();
    let mut i: usize = 0;
    while i < n
        invariant
            n == scores.len(),
            weights == as_weights(scores@),
            i <= n,
            ranks.len() == i,
            forall|k: int| 0 <= k < i ==> #[trigger] ranks[k] == rank_of(weights, k),
            forall|k: int| 0 <= k < i ==> #[trigger] ranks[k] < n,
        decreases n - i,
    {
        let mut rank: usize = 0;
        let mut j: usize = 0;
        while j < n
            invariant
                n == scores.len(),
                weights == as_weights(scores@),
                i < n,
                j <= n,
                rank == count_below(weights, i as int, j as int),
                rank <= j,
            decreases n - j,
        {
            if scores[j] < scores[i] || (scores[j] == scores[i] && j < i) {
                rank += 1;
            }
            j += 1;
        }
        proof {
            lemma_count_below_bounded(weights, i as int, n as int);
        }
        ranks.push(rank);
        i += 1;
    }
    ranks
}

/// A way to turn a rank into a selection weight. The weight depends on the
/// rank alone.
pub trait RankWeight {
    /// The weight of an individual of the given rank.
    spec fn weight_of(&self, rank: nat) -> nat;

    /// The weight of an individual of the given rank.
    fn weight(&self, rank: usize) -> (weight: u64)
        ensures
            weight == self.weight_of(rank as nat),
    ;
}

/// Weights that grow with the rank in even steps: rank 0 weighs 1, rank 1
/// weighs 2, and so on, up to the largest weight there is.
pub struct LinearRankWeight {}

impl RankWeight for LinearRankWeight {
    open spec fn weight_of(&self, rank: nat) -> nat {
        if rank < u64::MAX {
            rank + 1
        } else {
            u64::MAX as nat
        }
    }

    fn weight(&self, rank: usize) -> (weight: u64)
        ensures
            weight > 0,
    {
        let rank = rank as u64;
        if rank < u64::MAX {
            rank + 1
        } else {
            u64::MAX
        }
    }
}

/// The weight of each individual under rank selection, given the score of
/// each.
pub open spec fn rank_weights<G: RankWeight>(probability: G, scores: Seq<nat>) -> Seq<nat> {
    Seq::new(scores.len(), |i: int| probability.weight_of(rank_of(scores, i)))
}

/// Rank selection: an individual's weight is a function of its rank among the
/// population, whatever the distance between the scores.
pub struct RankSelection<F, G> where F: Fitness, G: RankWeight {
    pub fitness: F,
    pub probability: G,
}

impl<F, G> Selection for RankSelection<F, G> where F: Fitness, G: RankWeight {
    open spec fn weights(&self, individuals: Seq<Seq<bool>>) -> Seq<nat> {
        rank_weights(self.probability, scores_of(self.fitness, individuals))
    }

    fn get_selection_iter(&self, individuals: &Vec<Vec<bool>>) -> (iter: Result<
        SelectionIter,
        GaError,
    >) {
        let fitness = score_each(&self.fitness, individuals);
        let ranks = rank_scores(&fitness);
        let mut weights: Vec<u64> = Vec::new();
        let mut i: usize = 0;
        while i < ranks.len()
            invariant
                i <= ranks.len(),
                weights.len() == i,
                forall|k: int|
                    0 <= k < i ==> #[trigger] weights[k] == self.probability.weight_of(
                        ranks[k] as nat,
                    ),
            decreases ranks.len() - i,
        {
            weights.push(self.probability.weight(ranks[i]));
            i += 1;
        }
        assert(as_weights(weights@) =~= self.weights(population_view(individuals@)));
        SelectionIter::from_weights(&weights)
    }
}

/// Where every individual scores zero, roulette-wheel selection has nothing
/// to draw from. Rank selection on the same population has, as long as there
/// is an individual at all and every rank has a positive weight.
pub proof fn lemma_zero_fitness_population<F: Fitness, G: RankWeight>(
    roulette: RouletteWheelSelection<F>,
    rank: RankSelection<F, G>,
    individuals: Seq<Seq<bool>>,
)
    requires
        individuals.len() > 0,
        forall|i: int|
            0 <= i < individuals.len() ==> roulette.fitness.score(#[trigger] individuals[i]) == 0,
        forall|r: nat| rank.probability.weight_of(r) > 0,
    ensures
        !has_positive_weight(roulette.weights(individuals)),
        has_positive_weight(rank.weights(individuals)),
{
    let by_rank = rank.weights(individuals);
    assert(by_rank[0] > 0);
}

} // verus!
