//! The random source: what this library takes from the `rand` crate.
//!
//! Nothing in this file is proved. Each item states what the library assumes
//! of `rand`, and the verified operators rest on exactly these statements.

use vstd::prelude::*;
use rand::distributions::{Bernoulli, BernoulliError, Distribution, WeightedError, WeightedIndex};
use rand::rngs::ThreadRng;
use rand::seq::SliceRandom;

verus! {

/// `rand::rngs::ThreadRng`, the handle to the thread's generator.
#[verifier::external_type_specification]
#[verifier::external_body]
pub struct ExThreadRng(ThreadRng);

/// `rand::distributions::Bernoulli`, a biased coin.
#[verifier::external_type_specification]
#[verifier::external_body]
pub struct ExBernoulli(Bernoulli);

/// `rand::distributions::BernoulliError`, the refusal of a probability
/// outside of `[0, 1]`.
#[verifier::external_type_specification]
#[verifier::external_body]
pub struct ExBernoulliError(BernoulliError);

/// A `rand::distributions::WeightedIndex`: a distribution over the indices of
/// a list of weights.
#[verifier::external_body]
pub struct IndexDistribution {
    index: WeightedIndex<u128>,
}

/// `rand::distributions::WeightedError`, the refusal of a list of weights.
#[verifier::external_type_specification]
#[verifier::external_body]
pub struct ExWeightedError(WeightedError);

/// The weights that a distribution was made from, in their order.
pub uninterp spec fn weights_of(distribution: IndexDistribution) -> Seq<nat>;

/// `rand::thread_rng` hands out the generator of the current thread, which it
/// seeds from the operating system on first use. Nothing is assumed of it.
pub assume_specification[ rand::thread_rng ]() -> (rng: ThreadRng);

/// `Bernoulli::from_ratio` makes a coin that shows `true` with probability
/// `numerator / denominator`. It refuses exactly the ratios above one and
/// those with a denominator of zero.
pub assume_specification[ Bernoulli::from_ratio ](
    numerator: u32,
    denominator: u32,
) -> (coin: Result<Bernoulli, BernoulliError>)
    ensures
        coin is Ok <==> (numerator <= denominator && denominator != 0),
;

/// `Distribution::sample` on a `Bernoulli`: one toss of the coin. Nothing is
/// assumed of the outcome.
#[verifier::external_body]
pub(crate) fn toss(coin: &Bernoulli, rng: &mut ThreadRng) -> (heads: bool) {
    coin.sample(rng)
}

/// `SliceRandom::choose` on a slice of indices: one element of the slice, or
/// `None` when the slice is empty.
#[verifier::external_body]
pub(crate) fn choose_index(items: &Vec<usize>, rng: &mut ThreadRng) -> (chosen: Option<usize>)
    ensures
        items.len() == 0 ==> chosen is None,
        items.len() > 0 ==> chosen is Some && items@.contains(chosen.unwrap()),
{
    items.choose(rng).copied()
}

/// `SliceRandom::choose_multiple` on a slice of indices: `amount` elements
/// from different places of the slice (all of them, when `amount` exceeds the
/// slice's length), in any order. The elements of a slice without duplicates
/// are therefore different from each other.
///
/// On a slice of more than `u32::MAX` elements `rand` draws by rejection,
/// which asserts in debug builds that fewer elements are asked for than the
/// slice holds. Such a slice must therefore not be asked for all its elements.
#[verifier::external_body]
pub(crate) fn choose_indices(
    items: &Vec<usize>,
    rng: &mut ThreadRng,
    amount: usize,
) -> (chosen: Vec<usize>)
    requires
        items@.no_duplicates(),
        amount < items.len() || items.len() <= 0xffff_ffff,
    ensures
        chosen.len() == if amount <= items.len() {
            amount
        } else {
            items.len()
        },
        chosen@.no_duplicates(),
        forall|i: int| 0 <= i < chosen.len() ==> items@.contains(#[trigger] chosen[i]),
{
    items.choose_multiple(rng, amount).copied().collect()
}

/// `WeightedIndex::new` on a list of weights. It refuses an empty list and a
/// list of zeros, and nothing else: no weight is negative here, and the
/// weights are handed over as `u128`, in which the sum of as many `u64` as a
/// vector holds cannot overflow. The distribution it returns was made from
/// exactly these weights.
#[verifier::external_body]
pub(crate) fn weighted_index(weights: &Vec<u64>) -> (made: Result<
    IndexDistribution,
    WeightedError,
>)
    ensures
        made is Ok <==> (exists|i: int| 0 <= i < weights.len() && weights[i] > 0),
        made matches Ok(distribution) ==> weights_of(distribution) == weights@.map_values(
            |w: u64| w as nat,
        ),
{
    let wide = weights.iter().map(|w| u128::from(*w));
    WeightedIndex::new(wide).map(|index| IndexDistribution { index })
}

/// `Distribution::sample` on a `WeightedIndex`: the index of one of its
/// weights, chosen with a chance in proportion to that weight. So the index
/// is below the number of weights, and its weight is not zero.
#[verifier::external_body]
pub(crate) fn sample_index(
    distribution: &IndexDistribution,
    rng: &mut ThreadRng,
) -> (sampled: usize)
    ensures
        sampled < weights_of(*distribution).len(),
        weights_of(*distribution)[sampled as int] > 0,
{
    distribution.index.sample(rng)
}

} // verus!
