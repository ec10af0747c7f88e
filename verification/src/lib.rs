//! A generational evolutionary search that approximates a target character
//! sequence by mutating, recombining and selecting candidate genomes.
//!
//! An [`organism::Organism`] is a genome with a fitness, a cost measured
//! against the target by [`fitness`]. A [`generation::Generation`] is a
//! population of organisms, ranked as [`ranking`] defines. The
//! [`driver::EvolutionDriver`] takes a population through one generation
//! after another under the settings of a [`config::Config`], and hands
//! back what there is to report on each. The genetic operators of [`genes`]
//! draw their integers from [`random`].

pub mod config;
pub mod driver;
pub mod error;
pub mod fitness;
pub mod generation;
pub mod genes;
pub mod organism;
pub mod random;
pub mod ranking;
