//! Chance: the calls into the `rand` crate, and what is known of whatever they
//! return.

use vstd::prelude::*;
use rand::distributions::{Distribution, WeightedError, WeightedIndex};
use rand::Rng;

verus! {

/// A distribution over the indices of a list of weights: a
/// `rand::distributions::WeightedIndex` over `u32`, kept out of the
/// verifier's sight.
#[verifier::external_body]
pub struct WeightedChoice {
    index: WeightedIndex<u32>,
}

/// `rand::distributions::WeightedError`: why a list of weights was refused.
#[verifier::external_type_specification]
#[verifier::external_body]
pub struct ExWeightedError(WeightedError);

/// The weights that a distribution was made from.
pub uninterp spec fn choice_weights(choice: WeightedChoice) -> Seq<u32>;

/// The sum of a list of weights.
pub open spec fn total_weight(weights: Seq<u32>) -> int
    decreases weights.len(),
{
    if weights.len() == 0 {
        0
    } else {
        total_weight(weights.drop_last()) + weights.last()
    }
}

/// `Rng::gen_range` on the thread's generator, with the half-open range
/// `low..high`: the number lies in the range. An empty range is left out, for
/// the call panics on it.
#[verifier::external_body]
pub(crate) fn random_range(low: i32, high: i32) -> (n: i32)
    requires
        low < high,
    ensures
        low <= n < high,
{
    rand::thread_rng().gen_range(low..high)
}

/// `rand::random` for a `bool`: a coin flip, of which nothing is known.
#[verifier::external_body]
pub(crate) fn coin_flip() -> (heads: bool) {
    rand::random()
}

/// `WeightedIndex::new` on a list of `u32` weights. It succeeds exactly when
/// the list is not empty and some weight is positive, and the distribution
/// then holds these weights. Lists whose sum does not fit in a `u32` are left
/// out: the call adds the weights up in that type.
#[verifier::external_body]
pub(crate) fn weighted_choice(weights: &Vec<u32>) -> (res: Result<WeightedChoice, WeightedError>)
    requires
        total_weight(weights@) <= u32::MAX,
    ensures
        (res is Ok) == (weights.len() > 0 && total_weight(weights@) > 0),
        res is Ok ==> choice_weights(res->Ok_0) == weights@,
{
    WeightedIndex::new(weights.iter()).map(|index| WeightedChoice { index })
}

/// `Distribution::sample` of a `WeightedIndex` with the thread's generator:
/// the index of one of the weights, and never of a weight that is zero.
#[verifier::external_body]
pub(crate) fn sample_index(choice: &WeightedChoice) -> (i: usize)
    ensures
        i < choice_weights(*choice).len(),
        choice_weights(*choice)[i as int] > 0,
{
    choice.index.sample(&mut rand::thread_rng())
}

} // verus!
