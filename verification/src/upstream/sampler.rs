//! Sampling strategies: given a fixed number of slots, produce the next slot to try.
//!
//! Two strategies exist. [`RoundRobinSampler`] walks the slots in a cycle and is
//! fully specified here. [`WeightedSampler`] draws slots at random in proportion
//! to their weights; the draw itself is made by the `rand` crate, and the
//! contracts state what holds of every draw.

use vstd::arithmetic::div_mod::{lemma_add_mod_noop, lemma_mod_self_0, lemma_small_mod};
use vstd::prelude::*;

verus! {

/// A strategy that hands out the next slot among a fixed number of slots.
pub trait Sampler {
    /// The number of slots, fixed at construction.
    spec fn cardinality(&self) -> nat;

    /// Whether a call of `sample` on `self` may hand out `index` and leave
    /// the sampler as `after`.
    spec fn hands_out(&self, index: usize, after: &Self) -> bool;

    /// Hands out the next slot. The slot is always a valid index into a
    /// sequence of `cardinality()` candidates, and the number of slots never
    /// changes.
    fn sample(&mut self) -> (index: usize)
        ensures
            index < old(self).cardinality(),
            final(self).cardinality() == old(self).cardinality(),
            old(self).hands_out(index, final(self)),
    ;
}

/// The slot that a round-robin cursor hands out `i` calls after it stood at `cursor`.
pub open spec fn round_robin_at(length: nat, cursor: nat, i: nat) -> nat {
    (cursor + i) % length
}

/// The slots handed out by `count` successive calls, the first of which finds
/// the cursor at `cursor`.
pub open spec fn round_robin_run(length: nat, cursor: nat, count: nat) -> Seq<nat>
    decreases count,
{
    if count == 0 {
        Seq::empty()
    } else {
        seq![cursor] + round_robin_run(
            length,
            round_robin_at(length, cursor, 1),
            (count - 1) as nat,
        )
    }
}

/// Deterministic cyclic sampling: `0, 1, …, n-1, 0, 1, …`.
#[derive(Debug)]
pub struct RoundRobinSampler {
    length: usize,
    cursor: usize,
}

/// Why a round-robin sampler could not be built.
#[derive(Debug, PartialEq, Eq, Structural)]
pub enum RoundRobinSamplerError {
    /// The set to cycle over has no slot.
    ZeroLength,
}

impl RoundRobinSamplerError {
    /// The text shown for this error.
    pub fn message(&self) -> (text: String)
        ensures
            text@ == "round robin set is of size zero"@,
    {
        match self {
            RoundRobinSamplerError::ZeroLength => "round robin set is of size zero".to_owned(),
        }
    }
}

impl RoundRobinSampler {
    #[verifier::type_invariant]
    spec fn well_formed(&self) -> bool {
        self.cursor < self.length
    }

    /// The slot that the next call of `sample` hands out.
    pub closed spec fn cursor(&self) -> nat {
        self.cursor as nat
    }

    /// A sampler over `length` slots that starts at slot 0. Fails exactly when
    /// `length` is zero.
    pub fn new(length: usize) -> (result: Result<Self, RoundRobinSamplerError>)
        ensures
            length == 0 <==> result is Err,
            result matches Err(e) ==> e == RoundRobinSamplerError::ZeroLength,
            result matches Ok(sampler) ==> sampler.cardinality() == length && sampler.cursor() == 0,
    {
        if length == 0 {
            Err(RoundRobinSamplerError::ZeroLength)
        } else {
            Ok(RoundRobinSampler { length, cursor: 0 })
        }
    }
}

impl Sampler for RoundRobinSampler {
    closed spec fn cardinality(&self) -> nat {
        self.length as nat
    }

    /// The slot handed out is the one under the cursor, and the cursor moves
    /// one slot on, back to slot 0 after the last.
    open spec fn hands_out(&self, index: usize, after: &Self) -> bool {
        &&& index == self.cursor()
        &&& after.cardinality() == self.cardinality()
        &&& after.cursor() == round_robin_at(self.cardinality(), self.cursor(), 1)
    }

    fn sample(&mut self) -> (index: usize) {
        proof {
            use_type_invariant(&*self);
        }
        let index = self.cursor;
        if self.length - index == 1 {
            proof {
                lemma_mod_self_0(self.length as int);
            }
            self.cursor = 0;
        } else {
            proof {
                lemma_small_mod((index + 1) as nat, self.length as nat);
            }
            self.cursor = index + 1;
        }
        index
    }
}

/// A run of `count` calls hands out `count` slots, and the `i`-th of them is
/// the slot `i` steps round the cycle from where the cursor stood.
pub proof fn lemma_round_robin_run(length: nat, cursor: nat, count: nat)
    requires
        cursor < length,
    ensures
        round_robin_run(length, cursor, count).len() == count,
        forall|i: int|
            0 <= i < count ==> #[trigger] round_robin_run(length, cursor, count)[i]
                == round_robin_at(length, cursor, i as nat),
    decreases count,
{
    if count > 0 {
        let next = round_robin_at(length, cursor, 1);
        let rest = round_robin_run(length, next, (count - 1) as nat);
        lemma_round_robin_run(length, next, (count - 1) as nat);
        lemma_small_mod(cursor, length);
        assert forall|i: int| 0 <= i < count implies #[trigger] round_robin_run(
            length,
            cursor,
            count,
        )[i] == round_robin_at(length, cursor, i as nat) by {
            if i > 0 {
                let l = length as int;
                let c = cursor as int;
                assert(round_robin_run(length, cursor, count)[i] == rest[i - 1]);
                assert(rest[i - 1] == ((c + 1) % l + (i - 1)) % l);
                lemma_add_mod_noop(c + 1, i - 1, l);
                lemma_add_mod_noop((c + 1) % l, i - 1, l);
                lemma_small_mod(((c + 1) % l) as nat, length);
            }
        }
    }
}

/// Law of round-robin sampling: a fresh sampler over `length` slots, asked
/// `rounds * length` times, hands out `0, 1, …, length - 1` in order, round
/// after round: the `i`-th slot handed out is `i % length`.
pub proof fn lemma_round_robin_full_cycles(length: nat, rounds: nat)
    requires
        length > 0,
        rounds >= 1,
    ensures
        round_robin_run(length, 0, rounds * length) == Seq::new(
            rounds * length,
            |i: int| (i % length as int) as nat,
        ),
{
    lemma_round_robin_run(length, 0, rounds * length);
    assert(round_robin_run(length, 0, rounds * length) =~= Seq::new(
        rounds * length,
        |i: int| (i % length as int) as nat,
    ));
}

/// `rand::distributions::WeightedIndex<usize>`: a discrete distribution over
/// the indices of a list of weights. Nothing is known of what is inside but
/// through `weighted_index_weights`.
#[verifier::external_body]
#[derive(Debug)]
pub struct WeightTable {
    index: rand::distributions::WeightedIndex<usize>,
}

/// `rand::rngs::SmallRng`, the generator that a weighted sampler draws from.
/// Nothing is known of its state.
#[verifier::external_type_specification]
#[verifier::external_body]
pub struct ExSmallRng(rand::rngs::SmallRng);

/// The weights that a weight table was built from, in their order. A table
/// is never changed once it is built, so these stay the same for its life.
pub uninterp spec fn weighted_index_weights(table: WeightTable) -> Seq<usize>;

/// The sum of a sequence of weights.
pub open spec fn total_weight(weights: Seq<usize>) -> nat
    decreases weights.len(),
{
    if weights.len() == 0 {
        0
    } else {
        total_weight(weights.drop_last()) + weights.last() as nat
    }
}

/// The weights before position `i` never sum to more than all of them.
proof fn lemma_total_weight_prefix(weights: Seq<usize>, i: int)
    requires
        0 <= i <= weights.len(),
    ensures
        total_weight(weights.subrange(0, i)) <= total_weight(weights),
    decreases weights.len() - i,
{
    if i == weights.len() {
        assert(weights.subrange(0, i) =~= weights);
    } else {
        lemma_total_weight_prefix(weights, i + 1);
        assert(weights.subrange(0, i + 1).drop_last() =~= weights.subrange(0, i));
    }
}

/// Why a weighted sampler could not be built.
#[derive(Debug, Clone, Copy, PartialEq, Eq, Structural)]
pub enum WeightedError {
    /// No weight was given.
    NoItem,
    /// The weights cannot be served: their sum exceeds `usize::MAX`.
    InvalidWeight,
    /// Every weight is zero.
    AllWeightsZero,
    /// More weights than can be served.
    TooMany,
}

impl WeightedError {
    /// The text shown for this error.
    pub open spec fn text(self) -> Seq<char> {
        match self {
            WeightedError::NoItem => "No weights provided in distribution"@,
            WeightedError::InvalidWeight => "A weight is invalid in distribution"@,
            WeightedError::AllWeightsZero => "All weights are zero in distribution"@,
            WeightedError::TooMany => "Too many weights (hit u32::MAX) in distribution"@,
        }
    }

    /// The text shown for this error.
    pub fn message(&self) -> (text: String)
        ensures
            text@ == self.text(),
    {
        match self {
            WeightedError::NoItem => "No weights provided in distribution".to_owned(),
            WeightedError::InvalidWeight => "A weight is invalid in distribution".to_owned(),
            WeightedError::AllWeightsZero => "All weights are zero in distribution".to_owned(),
            WeightedError::TooMany => "Too many weights (hit u32::MAX) in distribution".to_owned(),
        }
    }
}

/// `rand::distributions::WeightedIndex::new` on `usize` weights. As its source
/// shows, it refuses an empty list with `NoItem` and a list whose sum is zero
/// with `AllWeightsZero`, and accepts every other list; the table it returns
/// stands for the weights it was given. It adds the weights up with `+=`,
/// which must not overflow.
#[verifier::external_body]
fn weighted_index_new(weights: &Vec<usize>) -> (result: Result<WeightTable, WeightedError>)
    requires
        total_weight(weights@) <= usize::MAX,
    ensures
        weights@.len() == 0 ==> result matches Err(WeightedError::NoItem),
        weights@.len() > 0 && total_weight(weights@) == 0 ==> result matches Err(WeightedError::AllWeightsZero),
        weights@.len() > 0 && total_weight(weights@) > 0 ==> result is Ok,
        result is Ok ==> weighted_index_weights(result->Ok_0) == weights@,
{
    match rand::distributions::WeightedIndex::new(weights.iter()) {
        Ok(index) => Ok(WeightTable { index }),
        Err(rand::distributions::WeightedError::NoItem) => Err(WeightedError::NoItem),
        Err(rand::distributions::WeightedError::InvalidWeight) => Err(WeightedError::InvalidWeight),
        Err(rand::distributions::WeightedError::AllWeightsZero) => Err(WeightedError::AllWeightsZero),
        Err(rand::distributions::WeightedError::TooMany) => Err(WeightedError::TooMany),
    }
}

/// `rand::distributions::Distribution::sample` on a weighted index. Which
/// index comes back depends on the generator; whatever its state, the index
/// lies within the weights the table was built from, and its weight is not
/// zero.
#[verifier::external_body]
fn weighted_index_sample(table: &WeightTable, rng: &mut rand::rngs::SmallRng) -> (index: usize)
    ensures
        index < weighted_index_weights(*table).len(),
        weighted_index_weights(*table)[index as int] > 0,
{
    rand::distributions::Distribution::sample(&table.index, rng)
}

/// `rand::SeedableRng::from_entropy` for `SmallRng`: a generator seeded by the
/// operating system. Nothing is known of its state. The call panics where
/// the operating system has no entropy to give.
#[verifier::external_body]
fn small_rng_from_entropy() -> rand::rngs::SmallRng {
    rand::SeedableRng::from_entropy()
}

/// The generator that `rand::SeedableRng::seed_from_u64` derives from `seed`.
/// The derivation reads nothing but the seed, so one seed always gives one
/// generator. Which generator that is depends on the algorithm that `rand`
/// picks for the target the program is built for, and is not stated.
pub uninterp spec fn seeded_generator(seed: u64) -> rand::rngs::SmallRng;

/// `rand::SeedableRng::seed_from_u64` for `SmallRng`: the generator whose
/// state is derived from `seed`, and from nothing else.
#[verifier::external_body]
fn small_rng_seed_from_u64(seed: u64) -> (rng: rand::rngs::SmallRng)
    ensures
        rng == seeded_generator(seed),
{
    rand::SeedableRng::seed_from_u64(seed)
}

/// The sum of `weights`, or `None` when it exceeds `usize::MAX`.
pub fn checked_total_weight(weights: &Vec<usize>) -> (total: Option<usize>)
    ensures
        total matches Some(t) ==> t == total_weight(weights@),
        total is None <==> total_weight(weights@) > usize::MAX,
{
    let mut sum: usize = 0;
    let mut i: usize = 0;
    while i < weights.len()
        invariant
            i <= weights.len(),
            sum == total_weight(weights@.subrange(0, i as int)),
        decreases weights.len() - i,
    {
        proof {
            assert(weights@.subrange(0, i + 1).drop_last() =~= weights@.subrange(0, i as int));
        }
        match sum.checked_add(weights[i]) {
            Some(next) => {
                sum = next;
            },
            None => {
                proof {
                    lemma_total_weight_prefix(weights@, i + 1);
                }
                return None;
            },
        }
        i += 1;
    }
    proof {
        assert(weights@.subrange(0, i as int) =~= weights@);
    }
    Some(sum)
}

/// What building a weighted sampler from `weights` comes to: the error, or
/// `None` where the weights are accepted.
pub open spec fn weighted_rejection(weights: Seq<usize>) -> Option<WeightedError> {
    if weights.len() == 0 {
        Some(WeightedError::NoItem)
    } else if total_weight(weights) > usize::MAX {
        Some(WeightedError::InvalidWeight)
    } else if total_weight(weights) == 0 {
        Some(WeightedError::AllWeightsZero)
    } else {
        None
    }
}

/// Random sampling with replacement: slot `i` is drawn with a chance
/// proportional to its weight.
#[derive(Debug)]
pub struct WeightedSampler {
    table: WeightTable,
    rng: rand::rngs::SmallRng,
}

impl WeightedSampler {
    /// The weights of the slots, in their order.
    pub closed spec fn weights(&self) -> Seq<usize> {
        weighted_index_weights(self.table)
    }

    /// The generator that the next draw is made with.
    pub closed spec fn generator(&self) -> rand::rngs::SmallRng {
        self.rng
    }

    /// A sampler over one slot per weight, with a generator seeded from the
    /// operating system's entropy. Fails with `NoItem` on an empty list, with
    /// `AllWeightsZero` where no slot has a weight, and with `InvalidWeight`
    /// where the weights sum to more than `usize::MAX`.
    pub fn new(weights: Vec<usize>) -> (result: Result<Self, WeightedError>)
        ensures
            match weighted_rejection(weights@) {
                Some(e) => result matches Err(f) && f == e,
                None => result matches Ok(sampler) && sampler.weights() == weights@,
            },
    {
        if weights.len() > 0 && checked_total_weight(&weights).is_none() {
            return Err(WeightedError::InvalidWeight);
        }
        match weighted_index_new(&weights) {
            Ok(table) => Ok(WeightedSampler { table, rng: small_rng_from_entropy() }),
            Err(e) => Err(e),
        }
    }

    /// Replaces the generator by the one derived from `seed`, so that the
    /// draws that follow can be reproduced: whatever the generator was, it is
    /// now the one that this seed always gives. The weights stay as they are.
    pub fn reseed(&mut self, seed: u64)
        ensures
            final(self).generator() == seeded_generator(seed),
            final(self).weights() == old(self).weights(),
    {
        self.rng = small_rng_seed_from_u64(seed);
    }
}

impl Sampler for WeightedSampler {
    open spec fn cardinality(&self) -> nat {
        self.weights().len()
    }

    /// Whatever the generator yields, the slot drawn is one of those the
    /// sampler was built over, and never one of weight zero; the weights stay
    /// as they are.
    open spec fn hands_out(&self, index: usize, after: &Self) -> bool {
        &&& index < self.weights().len()
        &&& self.weights()[index as int] > 0
        &&& after.weights() == self.weights()
    }

    fn sample(&mut self) -> (index: usize) {
        weighted_index_sample(&self.table, &mut self.rng)
    }
}

/// Either strategy, for a group whose strategy is chosen when it is set up.
#[derive(Debug)]
pub enum AnySampler {
    RoundRobin(RoundRobinSampler),
    Weighted(WeightedSampler),
}

impl Sampler for AnySampler {
    open spec fn cardinality(&self) -> nat {
        match self {
            AnySampler::RoundRobin(sampler) => sampler.cardinality(),
            AnySampler::Weighted(sampler) => sampler.cardinality(),
        }
    }

    /// What the strategy inside hands out; the strategy itself never changes.
    open spec fn hands_out(&self, index: usize, after: &Self) -> bool {
        match (self, after) {
            (AnySampler::RoundRobin(before), AnySampler::RoundRobin(after)) => before.hands_out(
                index,
                after,
            ),
            (AnySampler::Weighted(before), AnySampler::Weighted(after)) => before.hands_out(
                index,
                after,
            ),
            _ => false,
        }
    }

    fn sample(&mut self) -> (index: usize) {
        match self {
            AnySampler::RoundRobin(sampler) => sampler.sample(),
            AnySampler::Weighted(sampler) => sampler.sample(),
        }
    }
}

} // verus!
