//! The settings of a search.

use vstd::prelude::*;
use crate::error::EvolutionError;

verus! {

/// Everything that can be tuned. The counts are numbers of organisms, not
/// shares of the population.
#[derive(Debug)]
pub struct Config {
    /// The sequence that the search approximates.
    pub target: Vec<char>,
    /// The characters that fresh genomes are drawn from.
    pub alphabet: Vec<char>,
    /// How many organisms the first generation holds.
    pub initial_population: usize,
    /// After how many generations the search stops.
    pub generation_budget: u64,
    /// A gene is hit by a mutation with one chance in this many.
    pub mutation_rate: u32,
    /// The bound on how far a mutation moves the code of a gene.
    pub max_shift: u32,
    /// How many of the best organisms go on to the next generation.
    pub survivor_count: usize,
    /// How many children the survivors breed.
    pub breed_count: usize,
    /// How many fresh organisms join each generation.
    pub immigrant_count: usize,
    /// How many of the best organisms are reported for each generation.
    pub report_count: usize,
}

impl Config {
    /// Whether a search can run on these settings: fresh genomes can be
    /// drawn, the mutation rate is a chance, the first generation holds the
    /// survivors, every child has two surviving parents, only survivors are
    /// reported, and no generation is empty or larger than can be held.
    pub open spec fn valid(&self) -> bool {
        &&& self.alphabet@.len() > 0
        &&& self.mutation_rate > 0
        &&& self.survivor_count <= self.initial_population
        &&& self.breed_count <= self.survivor_count
        &&& self.report_count <= self.survivor_count
        &&& 0 < self.next_size() <= usize::MAX
    }

    /// How many organisms each generation after the first holds.
    pub open spec fn next_size(&self) -> nat {
        (self.survivor_count + self.breed_count + self.immigrant_count) as nat
    }

    /// Tells whether the settings are valid.
    pub fn check(&self) -> (r: Result<(), EvolutionError>)
        ensures
            r is Ok <==> self.valid(),
            r matches Err(e) ==> e == EvolutionError::Configuration,
    {
        let fits: bool = match self.survivor_count.checked_add(self.breed_count) {
            Some(parents) => match parents.checked_add(self.immigrant_count) {
                Some(all) => all > 0,
                None => false,
            },
            None => false,
        };
        if self.alphabet.len() > 0 && self.mutation_rate > 0 && self.survivor_count
            <= self.initial_population && self.breed_count <= self.survivor_count
            && self.report_count <= self.survivor_count && fits {
            Ok(())
        } else {
            Err(EvolutionError::Configuration)
        }
    }
}

} // verus!
