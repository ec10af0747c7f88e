//! The control loop of the search, one generation at a time: evaluate,
//! select the survivors, breed, take in fresh organisms, report, mutate.

use vstd::prelude::*;
use crate::config::Config;
use crate::error::EvolutionError;
use crate::generation::{costs_fit, evaluated, is_mutated_population, views, Generation};
use crate::ranking::{all_evaluated, fittest, lemma_fitness_order};
use crate::genes::{is_cross_of, is_random_genome};
use crate::organism::{Organism, OrganismView};

verus! {

/// One line for the reporting sink: an organism among the best of a
/// generation.
#[derive(Debug)]
pub struct Report {
    pub generation: u64,
    pub genome: Vec<char>,
    pub fitness: u64,
}

/// What a report holds, as mathematical values.
pub struct ReportView {
    pub generation: u64,
    pub genome: Seq<char>,
    pub fitness: u64,
}

impl View for Report {
    type V = ReportView;

    open spec fn view(&self) -> ReportView {
        ReportView { generation: self.generation, genome: self.genome@, fitness: self.fitness }
    }
}

/// The reports as mathematical values.
pub open spec fn report_views(reports: Seq<Report>) -> Seq<ReportView> {
    Seq::new(reports.len(), |i: int| reports[i]@)
}

/// The reports on generation `generation` whose survivors are `survivors`:
/// the first `count` of them, best first.
pub open spec fn reports_of(survivors: Seq<OrganismView>, generation: u64, count: nat) -> Seq<
    ReportView,
> {
    Seq::new(
        count,
        |i: int|
            ReportView {
                generation,
                genome: survivors[i].genome,
                fitness: survivors[i].fitness->0,
            },
    )
}

/// Whether `next` can follow from `survivors` before any mutation: first the
/// survivors as they are; then `breed_count` children, the one at place `i`
/// bred from survivor `i` and the survivor after it, where the survivor
/// after the last parent is the first; then `immigrant_count` fresh
/// organisms over `alphabet`. Children and fresh organisms are not
/// evaluated.
pub open spec fn is_succession(
    next: Seq<OrganismView>,
    survivors: Seq<OrganismView>,
    breed_count: nat,
    immigrant_count: nat,
    alphabet: Seq<char>,
) -> bool {
    let kept = survivors.len();
    &&& next.len() == kept + breed_count + immigrant_count
    &&& forall|i: int| 0 <= i < kept ==> #[trigger] next[i] == survivors[i]
    &&& forall|i: int|
        0 <= i < breed_count ==> (#[trigger] next[kept + i]).fitness is None && is_cross_of(
            next[kept + i].genome,
            survivors[i].genome,
            survivors[(i + 1) % (breed_count as int)].genome,
        )
    &&& forall|i: int|
        0 <= i < immigrant_count ==> (#[trigger] next[kept + breed_count + i]).fitness is None
            && is_random_genome(next[kept + breed_count + i].genome, alphabet)
}

/// Builds the generation that follows from `survivors`, before any
/// mutation. More children than survivors, an empty alphabet with fresh
/// organisms asked for, or more organisms than can be held are refused.
pub fn succeed(
    survivors: &Vec<Organism>,
    breed_count: usize,
    immigrant_count: usize,
    alphabet: &Vec<char>,
) -> (r: Result<Generation, EvolutionError>)
    ensures
        r is Ok <==> breed_count <= survivors@.len() && (immigrant_count > 0 ==> alphabet@.len()
            > 0) && survivors@.len() + breed_count + immigrant_count <= usize::MAX,
        r matches Ok(next) ==> is_succession(
            next@,
            views(survivors@),
            breed_count as nat,
            immigrant_count as nat,
            alphabet@,
        ),
        r matches Err(e) ==> e == EvolutionError::Configuration,
{
    let kept: usize = survivors.len();
    if breed_count > kept || (immigrant_count > 0 && alphabet.len() == 0) {
        return Err(EvolutionError::Configuration);
    }
    let total: usize = match kept.checked_add(breed_count) {
        Some(parents) => match parents.checked_add(immigrant_count) {
            Some(all) => all,
            None => {
                return Err(EvolutionError::Configuration);
            },
        },
        None => {
            return Err(EvolutionError::Configuration);
        },
    };
    let mut organisms: Vec<Organism> = Vec::new();
    let mut i: usize = 0;
    while i < kept
        invariant
            i <= kept,
            kept == survivors@.len(),
            organisms@.len() == i,
            forall|j: int| 0 <= j < i ==> (#[trigger] organisms@[j])@ == survivors@[j]@,
        decreases kept - i,
    {
        organisms.push(survivors[i].clone());
        i += 1;
    }
    let mut i: usize = 0;
    while i < breed_count
        invariant
            i <= breed_count <= kept,
            kept == survivors@.len(),
            kept + breed_count + immigrant_count == total,
            organisms@.len() == kept + i,
            forall|j: int| 0 <= j < kept ==> (#[trigger] organisms@[j])@ == survivors@[j]@,
            forall|j: int|
                0 <= j < i ==> (#[trigger] organisms@[kept + j]).fitness is None && is_cross_of(
                    organisms@[kept + j].genome@,
                    survivors@[j].genome@,
                    survivors@[(j + 1) % (breed_count as int)].genome@,
                ),
        decreases breed_count - i,
    {
        let mate: usize = (i + 1) % breed_count;
        let child: Organism = survivors[i].breed_with(survivors[mate].clone());
        organisms.push(child);
        i += 1;
    }
    let mut i: usize = 0;
    while i < immigrant_count
        invariant
            i <= immigrant_count,
            immigrant_count > 0 ==> alphabet@.len() > 0,
            breed_count <= kept,
            kept == survivors@.len(),
            kept + breed_count + immigrant_count == total,
            organisms@.len() == kept + breed_count + i,
            forall|j: int| 0 <= j < kept ==> (#[trigger] organisms@[j])@ == survivors@[j]@,
            forall|j: int|
                0 <= j < breed_count ==> (#[trigger] organisms@[kept + j]).fitness is None
                    && is_cross_of(
                    organisms@[kept + j].genome@,
                    survivors@[j].genome@,
                    survivors@[(j + 1) % (breed_count as int)].genome@,
                ),
            forall|j: int|
                0 <= j < i ==> (#[trigger] organisms@[kept + breed_count + j]).fitness is None
                    && is_random_genome(organisms@[kept + breed_count + j].genome@, alphabet@),
        decreases immigrant_count - i,
    {
        match Organism::random(alphabet) {
            Ok(fresh) => {
                organisms.push(fresh);
            },
            Err(e) => {
                return Err(e);
            },
        }
        i += 1;
    }
    let next = Generation { organisms };
    Ok(next)
}

/// A search in progress: the settings, the current generation and its
/// number.
#[derive(Debug)]
pub struct EvolutionDriver {
    pub config: Config,
    pub population: Generation,
    pub generation: u64,
}

/// Whether `reports`, `population` and `generation` can come out of one
/// step taken on `before`: the population is evaluated against the target,
/// its best organisms survive and the first of them are reported, the
/// generation that follows from the survivors is mutated and takes the
/// place of the population, and the number of the generation goes up by one.
pub open spec fn is_step(
    before: &EvolutionDriver,
    reports: Seq<ReportView>,
    population: Seq<OrganismView>,
    generation: u64,
) -> bool {
    let config = before.config;
    let survivors = fittest(
        evaluated(before.population@, config.target@),
        config.survivor_count as nat,
    );
    &&& reports == reports_of(survivors, before.generation, config.report_count as nat)
    &&& generation == before.generation + 1
    &&& exists|bred: Seq<OrganismView>|
        #[trigger] is_succession(
            bred,
            survivors,
            config.breed_count as nat,
            config.immigrant_count as nat,
            config.alphabet@,
        ) && is_mutated_population(
            population,
            bred,
            config.mutation_rate as nat,
            config.max_shift as nat,
        )
}

impl EvolutionDriver {
    /// Whether a step can be taken: the settings are valid and the
    /// population holds the survivors.
    pub open spec fn wf(&self) -> bool {
        &&& self.config.valid()
        &&& self.config.survivor_count <= self.population@.len()
    }

    /// Whether the generation budget is used up.
    pub open spec fn is_finished(&self) -> bool {
        self.generation >= self.config.generation_budget
    }

    /// A search that starts from `population`. Settings that are not valid,
    /// or a population that does not hold the survivors, are refused.
    pub fn with_population(config: Config, population: Generation) -> (r: Result<
        EvolutionDriver,
        EvolutionError,
    >)
        ensures
            r is Ok <==> config.valid() && config.survivor_count <= population@.len(),
            r matches Ok(driver) ==> driver.config == config && driver.population == population
                && driver.generation == 0,
            r matches Err(e) ==> e == EvolutionError::Configuration,
    {
        match config.check() {
            Ok(()) => {
                if config.survivor_count <= population.organisms.len() {
                    Ok(EvolutionDriver { config, population, generation: 0 })
                } else {
                    Err(EvolutionError::Configuration)
                }
            },
            Err(e) => Err(e),
        }
    }

    /// A search that starts from a freshly drawn population of the size
    /// that the settings name. Settings that are not valid are refused.
    pub fn new(config: Config) -> (r: Result<EvolutionDriver, EvolutionError>)
        ensures
            r is Ok <==> config.valid(),
            r matches Ok(driver) ==> driver.wf() && driver.config == config && driver.generation
                == 0 && driver.population@.len() == config.initial_population && forall|i: int|
                0 <= i < config.initial_population ==> (#[trigger] driver.population@[i]).fitness
                    is None && is_random_genome(driver.population@[i].genome, config.alphabet@),
            r matches Err(e) ==> e == EvolutionError::Configuration,
    {
        match config.check() {
            Ok(()) => {
                match Generation::spawn_random_pool(config.initial_population, &config.alphabet) {
                    Ok(population) => Ok(EvolutionDriver { config, population, generation: 0 }),
                    Err(e) => Err(e),
                }
            },
            Err(e) => Err(e),
        }
    }

    /// Tells whether the generation budget is used up.
    pub fn finished(&self) -> (done: bool)
        ensures
            done == self.is_finished(),
    {
        self.generation >= self.config.generation_budget
    }

    /// Takes one step and hands back the reports on the generation that was
    /// evaluated, best organism first. Once the budget is used up a step
    /// does nothing and reports nothing. A step is refused, and nothing
    /// changes, where the search is not well formed or where the cost of an
    /// organism does not fit in 64 bits.
    pub fn step(&mut self) -> (r: Result<Vec<Report>, EvolutionError>)
        ensures
            final(self).config == old(self).config,
            r is Ok <==> old(self).wf() && (old(self).is_finished() || costs_fit(
                old(self).population@,
                old(self).config.target@,
            )),
            r matches Err(e) ==> e == (if old(self).wf() {
                EvolutionError::ArithmeticOverflow
            } else {
                EvolutionError::Configuration
            }) && final(self).population@ == old(self).population@ && final(self).generation
                == old(self).generation,
            r matches Ok(reports) ==> final(self).wf() && (if old(self).is_finished() {
                reports@.len() == 0 && final(self).population@ == old(self).population@ && final(self).generation == old(self).generation
            } else {
                is_step(
                    old(self),
                    report_views(reports@),
                    final(self).population@,
                    final(self).generation,
                )
            }),
    {
        match self.config.check() {
            Ok(()) => {},
            Err(e) => {
                return Err(e);
            },
        }
        if self.population.organisms.len() < self.config.survivor_count {
            return Err(EvolutionError::Configuration);
        }
        if self.generation >= self.config.generation_budget {
            return Ok(Vec::new());
        }
        match self.population.evaluate_fitness(&self.config.target) {
            Ok(()) => {},
            Err(e) => {
                return Err(e);
            },
        }
        let ghost ranked = evaluated(old(self).population@, self.config.target@);
        let survivors: Vec<Organism> = match self.population.top(self.config.survivor_count) {
            Ok(best) => best,
            Err(e) => {
                return Err(e);
            },
        };
        let mut next: Generation = match succeed(
            &survivors,
            self.config.breed_count,
            self.config.immigrant_count,
            &self.config.alphabet,
        ) {
            Ok(next) => next,
            Err(e) => {
                return Err(e);
            },
        };
        let shown: usize = self.config.report_count;
        let mut reports: Vec<Report> = Vec::new();
        let mut i: usize = 0;
        while i < shown
            invariant
                i <= shown <= survivors@.len(),
                views(survivors@) == fittest(ranked, survivors@.len() as nat),
                all_evaluated(ranked),
                survivors@.len() <= ranked.len() <= usize::MAX,
                reports@.len() == i,
                forall|j: int|
                    0 <= j < i ==> (#[trigger] reports@[j])@ == reports_of(
                        views(survivors@),
                        self.generation,
                        shown as nat,
                    )[j],
            decreases shown - i,
        {
            proof {
                lemma_fitness_order(ranked);
                assert(views(survivors@)[i as int].fitness is Some);
            }
            reports.push(
                Report {
                    generation: self.generation,
                    genome: survivors[i].genome.clone(),
                    fitness: survivors[i].fitness.unwrap(),
                },
            );
            i += 1;
        }
        let _ = next.apply_mutations(self.config.mutation_rate, self.config.max_shift);
        self.population = next;
        self.generation = self.generation + 1;
        proof {
            assert(report_views(reports@) =~= reports_of(
                views(survivors@),
                old(self).generation,
                shown as nat,
            ));
        }
        Ok(reports)
    }
}

} // verus!
