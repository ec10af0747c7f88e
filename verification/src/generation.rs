//! A population: the organisms under consideration at one step of the
//! search, with evaluation, mutation and selection over all of them.

use vstd::prelude::*;
use crate::error::EvolutionError;
use crate::fitness::{cost, genome_cost};
use crate::genes::{is_mutation_of, is_random_genome, lemma_zero_shift_keeps_genome};
use crate::organism::{Organism, OrganismView};
use crate::ranking::{
    all_evaluated, fitness_order, fittest, lemma_fitness_order, lemma_fitness_order_unique,
    lemma_fittest, rank_keys, sorted_keys,
};

verus! {

/// The organisms of one generation, in the order in which they were added.
#[derive(Debug)]
pub struct Generation {
    pub organisms: Vec<Organism>,
}

/// The organisms as mathematical values.
pub open spec fn views(organisms: Seq<Organism>) -> Seq<OrganismView> {
    Seq::new(organisms.len(), |i: int| organisms[i]@)
}

impl View for Generation {
    type V = Seq<OrganismView>;

    open spec fn view(&self) -> Seq<OrganismView> {
        views(self.organisms@)
    }
}

/// Whether the cost of every organism against `target` fits in 64 bits.
pub open spec fn costs_fit(pop: Seq<OrganismView>, target: Seq<char>) -> bool {
    forall|i: int| 0 <= i < pop.len() ==> cost((#[trigger] pop[i]).genome, target) <= u64::MAX
}

/// The population with every organism evaluated against `target`.
pub open spec fn evaluated(pop: Seq<OrganismView>, target: Seq<char>) -> Seq<OrganismView> {
    Seq::new(
        pop.len(),
        |i: int| OrganismView { genome: pop[i].genome, fitness: Some(cost(pop[i].genome, target) as u64) },
    )
}

/// Whether `after` can come out of one mutation of every organism of
/// `before`: each genome is a mutation of the genome that stood there, and
/// each fitness is left as it was.
pub open spec fn is_mutated_population(
    after: Seq<OrganismView>,
    before: Seq<OrganismView>,
    rate: nat,
    max_shift: nat,
) -> bool {
    &&& after.len() == before.len()
    &&& forall|i: int|
        0 <= i < before.len() ==> (#[trigger] after[i]).fitness == before[i].fitness
            && is_mutation_of(after[i].genome, before[i].genome, rate, max_shift)
}

/// A mutation of every organism with a shift bound of zero changes nothing,
/// whatever the rate.
pub proof fn lemma_zero_shift_keeps_population(
    after: Seq<OrganismView>,
    before: Seq<OrganismView>,
    rate: nat,
)
    requires
        is_mutated_population(after, before, rate, 0),
    ensures
        after == before,
{
    assert forall|i: int| 0 <= i < before.len() implies after[i] == before[i] by {
        lemma_zero_shift_keeps_genome(after[i].genome, before[i].genome, rate);
    }
}

impl Generation {
    /// Draws `size` fresh organisms over `alphabet`, none of them evaluated.
    /// An empty alphabet is refused.
    pub fn spawn_random_pool(size: usize, alphabet: &Vec<char>) -> (r: Result<
        Generation,
        EvolutionError,
    >)
        ensures
            r is Ok <==> alphabet@.len() > 0,
            r matches Ok(pool) ==> pool@.len() == size && forall|i: int|
                0 <= i < size ==> (#[trigger] pool@[i]).fitness is None && is_random_genome(
                    pool@[i].genome,
                    alphabet@,
                ),
            r matches Err(e) ==> e == EvolutionError::Configuration,
    {
        if alphabet.len() == 0 {
            return Err(EvolutionError::Configuration);
        }
        let mut organisms: Vec<Organism> = Vec::new();
        let mut i: usize = 0;
        while i < size
            invariant
                i <= size,
                alphabet@.len() > 0,
                organisms@.len() == i,
                forall|j: int|
                    0 <= j < i ==> (#[trigger] organisms@[j]).fitness is None && is_random_genome(
                        organisms@[j].genome@,
                        alphabet@,
                    ),
            decreases size - i,
        {
            match Organism::random(alphabet) {
                Ok(organism) => {
                    organisms.push(organism);
                },
                Err(e) => {
                    return Err(e);
                },
            }
            i += 1;
        }
        Ok(Generation { organisms })
    }

    /// Evaluates every organism against `target`. Where the cost of one of
    /// them does not fit in 64 bits the call is refused, and the population
    /// stays as it was.
    pub fn evaluate_fitness(&mut self, target: &Vec<char>) -> (r: Result<(), EvolutionError>)
        ensures
            r is Ok <==> costs_fit(old(self)@, target@),
            r is Ok ==> final(self)@ == evaluated(old(self)@, target@),
            r matches Err(e) ==> e == EvolutionError::ArithmeticOverflow && final(self)@ == old(
                self,
            )@,
    {
        let n: usize = self.organisms.len();
        let mut costs: Vec<u64> = Vec::new();
        let mut i: usize = 0;
        while i < n
            invariant
                i <= n,
                n == self.organisms@.len(),
                costs@.len() == i,
                forall|j: int|
                    0 <= j < i ==> #[trigger] costs@[j] == cost(
                        self.organisms@[j].genome@,
                        target@,
                    ),
            decreases n - i,
        {
            match genome_cost(&self.organisms[i].genome, target) {
                Ok(c) => {
                    costs.push(c);
                },
                Err(e) => {
                    assert(cost(self@[i as int].genome, target@) > u64::MAX);
                    return Err(e);
                },
            }
            i += 1;
        }
        assert forall|j: int| 0 <= j < n implies cost((#[trigger] self@[j]).genome, target@)
            <= u64::MAX by {
            assert(costs@[j] == cost(self.organisms@[j].genome@, target@));
        }
        let mut i: usize = 0;
        while i < n
            invariant
                i <= n,
                n == self.organisms@.len(),
                n == old(self).organisms@.len(),
                costs@.len() == n,
                forall|j: int|
                    0 <= j < n ==> #[trigger] costs@[j] == cost(
                        old(self).organisms@[j].genome@,
                        target@,
                    ),
                forall|j: int|
                    0 <= j < n ==> (#[trigger] self.organisms@[j]).genome@ == old(
                        self,
                    ).organisms@[j].genome@,
                forall|j: int|
                    0 <= j < i ==> (#[trigger] self.organisms@[j]).fitness == Some(costs@[j]),
            decreases n - i,
        {
            self.organisms[i].fitness = Some(costs[i]);
            i += 1;
        }
        Ok(())
    }

    /// Mutates every organism in place, each as `Organism::mutate` does. A
    /// rate of zero is refused, and the population stays as it was.
    pub fn apply_mutations(&mut self, rate: u32, max_shift: u32) -> (r: Result<
        (),
        EvolutionError,
    >)
        ensures
            r is Ok <==> rate > 0,
            r is Ok ==> is_mutated_population(
                final(self)@,
                old(self)@,
                rate as nat,
                max_shift as nat,
            ),
            max_shift == 0 ==> final(self)@ == old(self)@,
            r matches Err(e) ==> e == EvolutionError::Configuration && final(self)@ == old(
                self,
            )@,
    {
        if rate == 0 {
            return Err(EvolutionError::Configuration);
        }
        let n: usize = self.organisms.len();
        let mut i: usize = 0;
        while i < n
            invariant
                i <= n,
                rate > 0,
                n == self.organisms@.len(),
                n == old(self).organisms@.len(),
                forall|j: int|
                    0 <= j < i ==> (#[trigger] self.organisms@[j]).fitness == old(
                        self,
                    ).organisms@[j].fitness && is_mutation_of(
                        self.organisms@[j].genome@,
                        old(self).organisms@[j].genome@,
                        rate as nat,
                        max_shift as nat,
                    ),
                forall|j: int|
                    i <= j < n ==> (#[trigger] self.organisms@[j])@ == old(self).organisms@[j]@,
            decreases n - i,
        {
            let _ = self.organisms[i].mutate(rate, max_shift);
            i += 1;
        }
        proof {
            if max_shift == 0 {
                lemma_zero_shift_keeps_population(self@, old(self)@, rate as nat);
            }
        }
        Ok(())
    }

    /// The `k` best organisms, best first; organisms of equal fitness come in
    /// the order they have in the population. Asking for more organisms than
    /// there are is refused, and so is ranking an organism that has not been
    /// evaluated; where both hold, the first is what is reported.
    pub fn top(&self, k: usize) -> (r: Result<Vec<Organism>, EvolutionError>)
        ensures
            r is Ok <==> k <= self@.len() && all_evaluated(self@),
            r matches Ok(best) ==> views(best@) == fittest(self@, k as nat),
            r matches Ok(best) ==> best@.len() == k && forall|a: int, b: int|
                0 <= a < b < k ==> (#[trigger] best@[a]).fitness->0 <= (
                #[trigger] best@[b]).fitness->0,
            r matches Err(e) ==> e == (if k > self@.len() {
                EvolutionError::OutOfRange
            } else {
                EvolutionError::EvaluationPrecondition
            }),
    {
        let n: usize = self.organisms.len();
        if k > n {
            return Err(EvolutionError::OutOfRange);
        }
        let mut keys: Vec<(u64, usize)> = Vec::new();
        let mut i: usize = 0;
        while i < n
            invariant
                i <= n,
                k <= n,
                n == self.organisms@.len(),
                keys@.len() == i,
                forall|j: int|
                    0 <= j < i ==> (#[trigger] self.organisms@[j]).fitness is Some && keys@[j] == (
                        self.organisms@[j].fitness->0,
                        j as usize,
                    ),
            decreases n - i,
        {
            match self.organisms[i].fitness {
                Some(f) => {
                    keys.push((f, i));
                },
                None => {
                    assert(self@[i as int].fitness is None);
                    return Err(EvolutionError::EvaluationPrecondition);
                },
            }
            i += 1;
        }
        assert(keys@ =~= rank_keys(self@));
        let ranked: Vec<(u64, usize)> = sorted_keys(keys);
        proof {
            lemma_fitness_order_unique(self@, ranked@);
            lemma_fitness_order(self@);
        }
        let mut best: Vec<Organism> = Vec::new();
        let mut a: usize = 0;
        while a < k
            invariant
                a <= k <= n,
                n == self.organisms@.len(),
                ranked@ == fitness_order(self@),
                ranked@.len() == n,
                forall|b: int| 0 <= b < n ==> 0 <= (#[trigger] ranked@[b]).1 < n,
                best@.len() == a,
                forall|b: int|
                    0 <= b < a ==> (#[trigger] best@[b])@ == self.organisms@[ranked@[b].1 as int]@,
            decreases k - a,
        {
            let place: usize = ranked[a].1;
            best.push(self.organisms[place].clone());
            a += 1;
        }
        proof {
            lemma_fittest(self@, k as nat, k as nat);
        }
        Ok(best)
    }
}

} // verus!
