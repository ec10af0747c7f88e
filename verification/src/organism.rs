//! One candidate solution: a genome and, once it has been evaluated, its
//! fitness.

use vstd::prelude::*;
use vstd::std_specs::cmp::{PartialEqSpecImpl, PartialOrdSpecImpl};
use std::cmp::Ordering;
use crate::error::EvolutionError;
use crate::fitness::{cost, genome_cost};
use crate::genes::{
    cross_gene, is_cross_of, is_mutation_of, is_random_genome, lemma_zero_shift_keeps_genome,
    may_mutate_to, mutate_gene, MAX_RANDOM_LEN, MIN_RANDOM_LEN,
};
use crate::random::thread_gen_range;

verus! {

/// A candidate solution. The fitness is a cost: lower is better. It is
/// `None` until the organism is evaluated.
#[derive(Debug)]
pub struct Organism {
    pub genome: Vec<char>,
    pub fitness: Option<u64>,
}

/// What an organism holds, as mathematical values.
pub struct OrganismView {
    pub genome: Seq<char>,
    pub fitness: Option<u64>,
}

impl View for Organism {
    type V = OrganismView;

    open spec fn view(&self) -> OrganismView {
        OrganismView { genome: self.genome@, fitness: self.fitness }
    }
}

impl Clone for Organism {
    fn clone(&self) -> (r: Self)
        ensures
            r@ == self@,
    {
        Organism { genome: self.genome.clone(), fitness: self.fitness }
    }
}

/// Organisms compare by fitness alone. An organism that has not been
/// evaluated compares with nothing: it is not even equal to itself.
impl PartialEq for Organism {
    fn eq(&self, other: &Self) -> (r: bool) {
        match (self.fitness, other.fitness) {
            (Some(a), Some(b)) => a == b,
            _ => false,
        }
    }
}

impl PartialEqSpecImpl for Organism {
    open spec fn obeys_eq_spec() -> bool {
        true
    }

    open spec fn eq_spec(&self, other: &Self) -> bool {
        self.fitness is Some && self.fitness == other.fitness
    }
}

/// The lower fitness comes first: the fitness is a cost.
impl PartialOrd for Organism {
    fn partial_cmp(&self, other: &Self) -> (r: Option<Ordering>) {
        match (self.fitness, other.fitness) {
            (Some(a), Some(b)) => {
                if a < b {
                    Some(Ordering::Less)
                } else if a == b {
                    Some(Ordering::Equal)
                } else {
                    Some(Ordering::Greater)
                }
            },
            _ => None,
        }
    }
}

impl PartialOrdSpecImpl for Organism {
    open spec fn obeys_partial_cmp_spec() -> bool {
        true
    }

    open spec fn partial_cmp_spec(&self, other: &Self) -> Option<Ordering> {
        if self.fitness is Some && other.fitness is Some {
            if self.fitness->0 < other.fitness->0 {
                Some(Ordering::Less)
            } else if self.fitness->0 == other.fitness->0 {
                Some(Ordering::Equal)
            } else {
                Some(Ordering::Greater)
            }
        } else {
            None
        }
    }
}

/// Whether `idx` is the first place at which `alphabet` holds `gene`.
pub open spec fn is_first_place(alphabet: Seq<char>, gene: char, idx: int) -> bool {
    &&& 0 <= idx < alphabet.len()
    &&& alphabet[idx] == gene
    &&& forall|j: int| 0 <= j < idx ==> alphabet[j] != gene
}

impl Organism {
    /// An organism with the given genome, not yet evaluated.
    pub fn new(genome: Vec<char>) -> (r: Organism)
        ensures
            r.genome == genome,
            r.fitness is None,
    {
        Organism { genome, fitness: None }
    }

    /// Draws a fresh organism: a length from `MIN_RANDOM_LEN` up to, but not
    /// including, `MAX_RANDOM_LEN`, and that many characters of `alphabet`.
    /// An empty alphabet is refused.
    pub fn random(alphabet: &Vec<char>) -> (r: Result<Organism, EvolutionError>)
        ensures
            r is Ok <==> alphabet@.len() > 0,
            r matches Ok(o) ==> o.fitness is None && is_random_genome(o.genome@, alphabet@),
            r matches Err(e) ==> e == EvolutionError::Configuration,
    {
        if alphabet.len() == 0 {
            return Err(EvolutionError::Configuration);
        }
        // No vector holds more than `i64::MAX` characters; the bound is the length.
        let held: u64 = alphabet.len() as u64;
        let choices: i64 = if held <= 0x7FFF_FFFF_FFFF_FFFF {
            held as i64
        } else {
            i64::MAX
        };
        let len: i64 = thread_gen_range(MIN_RANDOM_LEN as i64, MAX_RANDOM_LEN as i64);
        let mut genome: Vec<char> = Vec::new();
        let mut i: i64 = 0;
        while i < len
            invariant
                0 <= i <= len,
                0 < choices <= alphabet@.len(),
                genome@.len() == i,
                forall|j: int| 0 <= j < i ==> alphabet@.contains(#[trigger] genome@[j]),
            decreases len - i,
        {
            let pick: i64 = thread_gen_range(0, choices);
            let gene: char = alphabet[pick as usize];
            genome.push(gene);
            i += 1;
        }
        Ok(Organism { genome, fitness: None })
    }

    /// Evaluates the organism against `target` and stores the fitness. A cost
    /// that does not fit in 64 bits is refused, and the organism stays as it
    /// was.
    pub fn test_fitness(&mut self, target: &Vec<char>) -> (r: Result<u64, EvolutionError>)
        ensures
            final(self).genome@ == old(self).genome@,
            r is Ok <==> cost(old(self).genome@, target@) <= u64::MAX,
            r matches Ok(c) ==> c == cost(old(self).genome@, target@) && final(self).fitness
                == Some(c),
            r matches Err(e) ==> e == EvolutionError::ArithmeticOverflow && final(self).fitness
                == old(self).fitness,
    {
        match genome_cost(&self.genome, target) {
            Ok(c) => {
                self.fitness = Some(c);
                Ok(c)
            },
            Err(e) => Err(e),
        }
    }

    /// Breeds a child: at each position that both parents have, the gene of
    /// one of them, chosen by a fair coin. The child is not yet evaluated.
    pub fn breed_with(&self, other: Organism) -> (child: Organism)
        ensures
            is_cross_of(child.genome@, self.genome@, other.genome@),
            child.fitness is None,
    {
        let n: usize = if self.genome.len() <= other.genome.len() {
            self.genome.len()
        } else {
            other.genome.len()
        };
        let mut genome: Vec<char> = Vec::new();
        let mut i: usize = 0;
        while i < n
            invariant
                i <= n,
                n <= self.genome@.len(),
                n <= other.genome@.len(),
                genome@.len() == i,
                forall|j: int|
                    0 <= j < i ==> (#[trigger] genome@[j] == self.genome@[j] || genome@[j]
                        == other.genome@[j]),
            decreases n - i,
        {
            let coin: i64 = thread_gen_range(0, 2);
            genome.push(cross_gene(self.genome[i], other.genome[i], coin));
            i += 1;
        }
        Organism { genome, fitness: None }
    }

    /// The first place of `gene` in `alphabet`, or zero where it has none.
    pub fn lookup_gene(gene: char, alphabet: &Vec<char>) -> (idx: usize)
        ensures
            alphabet@.contains(gene) ==> is_first_place(alphabet@, gene, idx as int),
            !alphabet@.contains(gene) ==> idx == 0,
    {
        let mut i: usize = 0;
        while i < alphabet.len()
            invariant
                i <= alphabet@.len(),
                forall|j: int| 0 <= j < i ==> alphabet@[j] != gene,
            decreases alphabet@.len() - i,
        {
            if alphabet[i] == gene {
                return i;
            }
            i += 1;
        }
        0
    }

    /// Mutates the genome in place. Each gene is hit with one chance in
    /// `rate`; a gene that is hit moves by a shift drawn from `-max_shift` up
    /// to, but not including, `max_shift`, and with a bound of zero it does
    /// not move. The fitness is left as it was. A rate of zero is refused.
    pub fn mutate(&mut self, rate: u32, max_shift: u32) -> (r: Result<(), EvolutionError>)
        ensures
            r is Ok <==> rate > 0,
            r is Ok ==> is_mutation_of(
                final(self).genome@,
                old(self).genome@,
                rate as nat,
                max_shift as nat,
            ),
            max_shift == 0 ==> final(self).genome@ == old(self).genome@,
            r matches Err(e) ==> e == EvolutionError::Configuration && final(self).genome@ == old(
                self,
            ).genome@,
            final(self).fitness == old(self).fitness,
    {
        if rate == 0 {
            return Err(EvolutionError::Configuration);
        }
        let n: usize = self.genome.len();
        let mut genome: Vec<char> = Vec::new();
        let mut i: usize = 0;
        while i < n
            invariant
                i <= n,
                rate > 0,
                n == self.genome@.len(),
                genome@.len() == i,
                forall|j: int|
                    0 <= j < i ==> may_mutate_to(
                        self.genome@[j],
                        #[trigger] genome@[j],
                        rate as nat,
                        max_shift as nat,
                    ),
            decreases n - i,
        {
            let gene: char = self.genome[i];
            let roll: i64 = thread_gen_range(0, rate as i64);
            let delta: i64 = if roll == 0 && max_shift > 0 {
                thread_gen_range(-(max_shift as i64), max_shift as i64)
            } else {
                0
            };
            genome.push(mutate_gene(gene, roll, delta));
            i += 1;
        }
        proof {
            if max_shift == 0 {
                lemma_zero_shift_keeps_genome(genome@, self.genome@, rate as nat);
            }
        }
        self.genome = genome;
        Ok(())
    }
}

} // verus!
