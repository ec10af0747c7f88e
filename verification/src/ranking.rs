//! The order in which a population is ranked: by fitness, lower first, and
//! among equal fitnesses by place in the population.

use vstd::prelude::*;
use vstd::relations::total_ordering;
use vstd::seq_lib::lemma_sorted_unique;
use itertools::Itertools;
use crate::organism::OrganismView;

verus! {

/// Whether every organism has a fitness.
pub open spec fn all_evaluated(pop: Seq<OrganismView>) -> bool {
    forall|i: int| 0 <= i < pop.len() ==> (#[trigger] pop[i]).fitness is Some
}

/// The order of the ranking keys, each a fitness and a place in the
/// population: by fitness, and among equal fitnesses by place.
pub open spec fn key_le(a: (u64, usize), b: (u64, usize)) -> bool {
    a.0 < b.0 || (a.0 == b.0 && a.1 <= b.1)
}

/// `key_le` as a relation.
pub open spec fn key_order() -> spec_fn((u64, usize), (u64, usize)) -> bool {
    |a: (u64, usize), b: (u64, usize)| key_le(a, b)
}

/// The ranking key of each organism of an evaluated population.
pub open spec fn rank_keys(pop: Seq<OrganismView>) -> Seq<(u64, usize)> {
    Seq::new(pop.len(), |i: int| (pop[i].fitness->0, i as usize))
}

/// The ranking keys of an evaluated population from the best organism to
/// the worst. Organisms of equal fitness keep the order they have in the
/// population.
pub open spec fn fitness_order(pop: Seq<OrganismView>) -> Seq<(u64, usize)> {
    rank_keys(pop).sort_by(key_order())
}

/// Whether the organism at place `i` of the population has a key in `order`.
pub open spec fn has_place(order: Seq<(u64, usize)>, i: int) -> bool {
    exists|a: int| 0 <= a < order.len() && (#[trigger] order[a]).1 == i
}

/// The `k` best organisms of an evaluated population, best first.
pub open spec fn fittest(pop: Seq<OrganismView>, k: nat) -> Seq<OrganismView> {
    Seq::new(k, |i: int| pop[fitness_order(pop)[i].1 as int])
}

/// The order of the ranking keys is total.
pub proof fn lemma_key_order_total()
    ensures
        total_ordering(key_order()),
{
}

/// `Itertools::sorted` on a vector of ranking keys, collected into a vector
/// again. Trusted: what comes out holds the same keys, each as often as it
/// went in, in ascending order; pairs compare by the first part, then by
/// the second.
#[verifier::external_body]
pub(crate) fn sorted_keys(keys: Vec<(u64, usize)>) -> (out: Vec<(u64, usize)>)
    ensures
        out@.to_multiset() == keys@.to_multiset(),
        forall|i: int, j: int| 0 <= i < j < out@.len() ==> key_le(out@[i], out@[j]),
{
    keys.into_iter().sorted().collect()
}

/// The fitness order holds each organism's key once, and is ascending.
pub proof fn lemma_fitness_order(pop: Seq<OrganismView>)
    requires
        pop.len() <= usize::MAX,
    ensures
        fitness_order(pop).len() == pop.len(),
        forall|a: int|
            0 <= a < pop.len() ==> {
                let key = #[trigger] fitness_order(pop)[a];
                0 <= key.1 < pop.len() && key.0 == pop[key.1 as int].fitness->0
            },
        forall|a: int, b: int|
            0 <= a < b < pop.len() ==> key_le(
                #[trigger] fitness_order(pop)[a],
                #[trigger] fitness_order(pop)[b],
            ) && fitness_order(pop)[a] != fitness_order(pop)[b],
        forall|i: int| 0 <= i < pop.len() ==> #[trigger] has_place(fitness_order(pop), i),
{
    let keys = rank_keys(pop);
    let order = fitness_order(pop);
    lemma_key_order_total();
    keys.lemma_sort_by_ensures(key_order());
    keys.to_multiset_ensures();
    order.to_multiset_ensures();
    assert forall|a: int| 0 <= a < pop.len() implies {
        let key = #[trigger] order[a];
        0 <= key.1 < pop.len() && key.0 == pop[key.1 as int].fitness->0
    } by {
        assert(order.contains(order[a]));
    }
    assert(keys.no_duplicates());
    keys.lemma_multiset_has_no_duplicates();
    order.lemma_multiset_has_no_duplicates_conv();
    assert forall|a: int, b: int| 0 <= a < b < pop.len() implies key_le(
        #[trigger] order[a],
        #[trigger] order[b],
    ) && order[a] != order[b] by {
        assert(key_order()(order[a], order[b]));
    }
    assert forall|i: int| 0 <= i < pop.len() implies #[trigger] has_place(order, i) by {
        assert(keys.contains(keys[i]));
        assert(order.to_multiset().count(keys[i]) > 0);
    }
}

/// A sequence that holds the ranking keys of the population, each once,
/// in ascending order, is the fitness order: there is no other.
pub proof fn lemma_fitness_order_unique(pop: Seq<OrganismView>, order: Seq<(u64, usize)>)
    requires
        order.to_multiset() == rank_keys(pop).to_multiset(),
        forall|a: int, b: int| 0 <= a < b < order.len() ==> key_le(order[a], order[b]),
    ensures
        order == fitness_order(pop),
{
    lemma_key_order_total();
    rank_keys(pop).lemma_sort_by_ensures(key_order());
    lemma_sorted_unique(order, fitness_order(pop), key_order());
}

/// The place that the organism at place `i` of the population has in the
/// fitness order.
pub open spec fn place_of(pop: Seq<OrganismView>, i: int) -> int {
    choose|a: int| 0 <= a < fitness_order(pop).len() && (#[trigger] fitness_order(pop)[a]).1 == i
}

/// Every organism has one place in the fitness order, and stands there
/// among the best `k` for every `k` beyond that place.
pub proof fn lemma_place_of(pop: Seq<OrganismView>, i: int)
    requires
        pop.len() <= usize::MAX,
        0 <= i < pop.len(),
    ensures
        0 <= place_of(pop, i) < pop.len(),
        fitness_order(pop)[place_of(pop, i)] == (pop[i].fitness->0, i as usize),
        forall|a: int|
            0 <= a < pop.len() && (#[trigger] fitness_order(pop)[a]).1 == i ==> a == place_of(
                pop,
                i,
            ),
        forall|k: nat|
            place_of(pop, i) < k <= pop.len() ==> (#[trigger] fittest(pop, k))[place_of(pop, i)]
                == pop[i],
{
    lemma_fitness_order(pop);
    let order = fitness_order(pop);
    assert(has_place(order, i));
}

/// An organism of lower fitness sorts before one of higher fitness, and of
/// two organisms of equal fitness the one that stands first in the
/// population sorts first: wherever the second is among the best `k`, the
/// first is too, at an earlier place.
pub proof fn lemma_better_sorts_first(pop: Seq<OrganismView>, i: int, j: int)
    requires
        pop.len() <= usize::MAX,
        all_evaluated(pop),
        0 <= i < pop.len(),
        0 <= j < pop.len(),
        pop[i].fitness->0 < pop[j].fitness->0 || (pop[i].fitness->0 == pop[j].fitness->0 && i
            < j),
    ensures
        place_of(pop, i) < place_of(pop, j) < pop.len(),
        forall|k: nat|
            place_of(pop, j) < k <= pop.len() ==> (#[trigger] fittest(pop, k))[place_of(pop, i)]
                == pop[i] && fittest(pop, k)[place_of(pop, j)] == pop[j],
{
    lemma_fitness_order(pop);
    lemma_place_of(pop, i);
    lemma_place_of(pop, j);
}

/// The best `k` organisms are organisms of the population, in ascending
/// order of fitness, and they are the first `k` of the best `m` for every
/// larger `m`.
pub proof fn lemma_fittest(pop: Seq<OrganismView>, k: nat, m: nat)
    requires
        k <= m <= pop.len() <= usize::MAX,
        all_evaluated(pop),
    ensures
        fittest(pop, k).len() == k,
        fittest(pop, k) == fittest(pop, m).subrange(0, k as int),
        forall|a: int| 0 <= a < k ==> pop.contains(#[trigger] fittest(pop, k)[a]),
        forall|a: int, b: int|
            0 <= a < b < k ==> (#[trigger] fittest(pop, k)[a]).fitness->0 <= (#[trigger] fittest(
                pop,
                k,
            )[b]).fitness->0,
{
    lemma_fitness_order(pop);
}

} // verus!
