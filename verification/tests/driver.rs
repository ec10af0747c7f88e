use string_evolver::config::Config;
use string_evolver::driver::{succeed, EvolutionDriver, Report};
use string_evolver::error::EvolutionError;
use string_evolver::generation::Generation;
use string_evolver::organism::Organism;

fn seq(s: &str) -> Vec<char> {
    s.chars().collect()
}

fn settings() -> Config {
    Config {
        target: seq("AB"),
        alphabet: seq("abcdefghijklmnopqrstuvwxyzABCDEFGHIJKLMNOPQRSTUVWXYZ"),
        initial_population: 1000,
        generation_budget: 50,
        mutation_rate: 80,
        max_shift: 3,
        survivor_count: 50,
        breed_count: 20,
        immigrant_count: 10,
        report_count: 2,
    }
}

fn genomes(organisms: &[Organism]) -> Vec<String> {
    organisms.iter().map(|o| o.genome.iter().collect::<String>()).collect()
}

fn line(report: &Report) -> (u64, String, u64) {
    (report.generation, report.genome.iter().collect(), report.fitness)
}

#[test]
fn usual_settings_are_valid() {
    assert_eq!(settings().check(), Ok(()));
}

#[test]
fn empty_alphabet_is_not_valid() {
    let mut config = settings();
    config.alphabet = Vec::new();
    assert_eq!(config.check(), Err(EvolutionError::Configuration));
}

#[test]
fn zero_mutation_rate_is_not_valid() {
    let mut config = settings();
    config.mutation_rate = 0;
    assert_eq!(config.check(), Err(EvolutionError::Configuration));
}

#[test]
fn more_survivors_than_organisms_is_not_valid() {
    let mut config = settings();
    config.initial_population = 49;
    assert_eq!(config.check(), Err(EvolutionError::Configuration));
    config.initial_population = 50;
    assert_eq!(config.check(), Ok(()));
}

#[test]
fn more_children_than_survivors_is_not_valid() {
    let mut config = settings();
    config.breed_count = 51;
    assert_eq!(config.check(), Err(EvolutionError::Configuration));
    config.breed_count = 50;
    assert_eq!(config.check(), Ok(()));
}

#[test]
fn more_reports_than_survivors_is_not_valid() {
    let mut config = settings();
    config.report_count = 51;
    assert_eq!(config.check(), Err(EvolutionError::Configuration));
    config.report_count = 50;
    assert_eq!(config.check(), Ok(()));
    config.report_count = 0;
    assert_eq!(config.check(), Ok(()));
}

#[test]
fn empty_generations_are_not_valid() {
    let mut config = settings();
    config.survivor_count = 0;
    config.breed_count = 0;
    config.report_count = 0;
    config.immigrant_count = 0;
    assert_eq!(config.check(), Err(EvolutionError::Configuration));
    config.immigrant_count = 1;
    assert_eq!(config.check(), Ok(()));
}

#[test]
fn generations_too_large_to_hold_are_not_valid() {
    let mut config = settings();
    config.initial_population = usize::MAX;
    config.survivor_count = usize::MAX;
    config.immigrant_count = 1;
    config.breed_count = 0;
    assert_eq!(config.check(), Err(EvolutionError::Configuration));
    config.immigrant_count = 0;
    assert_eq!(config.check(), Ok(()));
}

#[test]
fn zero_budget_and_zero_shift_are_valid() {
    let mut config = settings();
    config.generation_budget = 0;
    config.max_shift = 0;
    config.target = Vec::new();
    assert_eq!(config.check(), Ok(()));
}

#[test]
fn succession_keeps_breeds_and_takes_in() {
    let survivors = vec![
        Organism { genome: seq("AAAA"), fitness: Some(1) },
        Organism { genome: seq("BBB"), fitness: Some(2) },
        Organism { genome: seq("CCCCC"), fitness: Some(3) },
    ];
    let alphabet = seq("xyz");
    for _ in 0..50 {
        let next = succeed(&survivors, 3, 4, &alphabet).unwrap();
        assert_eq!(next.organisms.len(), 10);
        assert_eq!(genomes(&next.organisms[..3]), vec!["AAAA", "BBB", "CCCCC"]);
        assert_eq!(next.organisms[0].fitness, Some(1));
        assert_eq!(next.organisms[1].fitness, Some(2));
        assert_eq!(next.organisms[2].fitness, Some(3));
        let parents = [("AAAA", "BBB"), ("BBB", "CCCCC"), ("CCCCC", "AAAA")];
        for (i, (first, second)) in parents.iter().enumerate() {
            let child = &next.organisms[3 + i];
            let first = seq(first);
            let second = seq(second);
            assert_eq!(child.fitness, None);
            assert_eq!(child.genome.len(), first.len().min(second.len()));
            for (at, gene) in child.genome.iter().enumerate() {
                assert!(*gene == first[at] || *gene == second[at]);
            }
        }
        for fresh in next.organisms[6..].iter() {
            assert_eq!(fresh.fitness, None);
            assert!((5..55).contains(&fresh.genome.len()));
            assert!(fresh.genome.iter().all(|gene| alphabet.contains(gene)));
        }
    }
}

#[test]
fn succession_pairs_parents_within_the_breeders() {
    // with two children the second one pairs survivor 1 with survivor 0, not with survivor 2
    let survivors = vec![
        Organism { genome: seq("AA"), fitness: Some(1) },
        Organism { genome: seq("AA"), fitness: Some(2) },
        Organism { genome: seq("ZZ"), fitness: Some(3) },
    ];
    for _ in 0..50 {
        let next = succeed(&survivors, 2, 0, &Vec::new()).unwrap();
        assert_eq!(genomes(&next.organisms), vec!["AA", "AA", "ZZ", "AA", "AA"]);
    }
}

#[test]
fn succession_of_one_breeder_pairs_it_with_itself() {
    let survivors = vec![
        Organism { genome: seq("solo"), fitness: Some(1) },
        Organism { genome: seq("ZZZZ"), fitness: Some(2) },
    ];
    let next = succeed(&survivors, 1, 0, &seq("a")).unwrap();
    assert_eq!(genomes(&next.organisms), vec!["solo", "ZZZZ", "solo"]);
}

#[test]
fn succession_without_children_or_immigrants() {
    let survivors = vec![Organism { genome: seq("one"), fitness: Some(1) }];
    let next = succeed(&survivors, 0, 0, &Vec::new()).unwrap();
    assert_eq!(genomes(&next.organisms), vec!["one"]);
    let none = succeed(&Vec::new(), 0, 0, &Vec::new()).unwrap();
    assert!(none.organisms.is_empty());
}

#[test]
fn succession_refuses_what_cannot_be_built() {
    let survivors = vec![Organism { genome: seq("one"), fitness: Some(1) }];
    assert!(matches!(succeed(&survivors, 2, 0, &seq("a")), Err(EvolutionError::Configuration)));
    assert!(matches!(succeed(&survivors, 0, 1, &Vec::new()), Err(EvolutionError::Configuration)));
    assert!(matches!(
        succeed(&survivors, 1, usize::MAX, &seq("a")),
        Err(EvolutionError::Configuration)
    ));
}

#[test]
fn driver_starts_at_generation_zero() {
    let driver = EvolutionDriver::new(settings()).unwrap();
    assert_eq!(driver.generation, 0);
    assert_eq!(driver.population.organisms.len(), 1000);
    assert!(!driver.finished());
    for organism in driver.population.organisms.iter() {
        assert_eq!(organism.fitness, None);
        assert!((5..55).contains(&organism.genome.len()));
        assert!(organism.genome.iter().all(|gene| driver.config.alphabet.contains(gene)));
    }
}

#[test]
fn driver_refuses_settings_that_are_not_valid() {
    let mut config = settings();
    config.mutation_rate = 0;
    assert!(matches!(EvolutionDriver::new(config), Err(EvolutionError::Configuration)));
    let mut config = settings();
    config.alphabet = Vec::new();
    let population = Generation::spawn_random_pool(100, &seq("ab")).unwrap();
    assert!(matches!(
        EvolutionDriver::with_population(config, population),
        Err(EvolutionError::Configuration)
    ));
}

#[test]
fn driver_refuses_a_population_without_the_survivors() {
    let population = Generation::spawn_random_pool(49, &seq("ab")).unwrap();
    assert!(matches!(
        EvolutionDriver::with_population(settings(), population),
        Err(EvolutionError::Configuration)
    ));
    let population = Generation::spawn_random_pool(50, &seq("ab")).unwrap();
    let driver = EvolutionDriver::with_population(settings(), population).unwrap();
    assert_eq!(driver.population.organisms.len(), 50);
    assert_eq!(driver.generation, 0);
}

#[test]
fn step_selects_reports_and_replaces() {
    let mut config = settings();
    config.survivor_count = 2;
    config.breed_count = 2;
    config.immigrant_count = 0;
    config.report_count = 2;
    config.max_shift = 0;
    let population = Generation {
        organisms: vec![
            Organism::new(seq("AC")),
            Organism::new(seq("ZZ")),
            Organism::new(seq("AB")),
        ],
    };
    let mut driver = EvolutionDriver::with_population(config, population).unwrap();
    let reports = driver.step().unwrap();
    let lines: Vec<(u64, String, u64)> = reports.iter().map(line).collect();
    assert_eq!(lines, vec![(0, "AB".to_string(), 0), (0, "AC".to_string(), 1)]);
    assert_eq!(driver.generation, 1);
    let next = &driver.population.organisms;
    assert_eq!(next.len(), 4);
    assert_eq!(genomes(&next[..2]), vec!["AB", "AC"]);
    assert_eq!(next[0].fitness, Some(0));
    assert_eq!(next[1].fitness, Some(1));
    for child in next[2..].iter() {
        assert_eq!(child.fitness, None);
        assert_eq!(child.genome.len(), 2);
        assert_eq!(child.genome[0], 'A');
        assert!(child.genome[1] == 'B' || child.genome[1] == 'C');
    }
}

#[test]
fn step_tags_reports_with_the_generation() {
    let mut config = settings();
    config.survivor_count = 1;
    config.breed_count = 0;
    config.immigrant_count = 0;
    config.report_count = 1;
    config.max_shift = 0;
    config.generation_budget = 3;
    let population = Generation {
        organisms: vec![Organism::new(seq("AD")), Organism::new(seq("A"))],
    };
    let mut driver = EvolutionDriver::with_population(config, population).unwrap();
    for generation in 0..3 {
        assert!(!driver.finished());
        let reports = driver.step().unwrap();
        let lines: Vec<(u64, String, u64)> = reports.iter().map(line).collect();
        assert_eq!(lines, vec![(generation, "AD".to_string(), 4)]);
        assert_eq!(driver.generation, generation + 1);
        assert_eq!(genomes(&driver.population.organisms), vec!["AD"]);
    }
    assert!(driver.finished());
}

#[test]
fn step_after_the_budget_does_nothing() {
    let mut config = settings();
    config.generation_budget = 1;
    let mut driver = EvolutionDriver::new(config).unwrap();
    assert_eq!(driver.step().unwrap().len(), 2);
    assert!(driver.finished());
    let before = genomes(&driver.population.organisms);
    let reports = driver.step().unwrap();
    assert!(reports.is_empty());
    assert_eq!(driver.generation, 1);
    assert_eq!(genomes(&driver.population.organisms), before);
}

#[test]
fn step_with_zero_budget_does_nothing() {
    let mut config = settings();
    config.generation_budget = 0;
    let mut driver = EvolutionDriver::new(config).unwrap();
    assert!(driver.finished());
    assert!(driver.step().unwrap().is_empty());
    assert_eq!(driver.generation, 0);
    assert_eq!(driver.population.organisms.len(), 1000);
    assert!(driver.population.organisms.iter().all(|o| o.fitness.is_none()));
}

#[test]
fn step_sizes_the_next_generation() {
    let mut driver = EvolutionDriver::new(settings()).unwrap();
    let reports = driver.step().unwrap();
    assert_eq!(reports.len(), 2);
    assert!(reports[0].fitness <= reports[1].fitness);
    assert_eq!(reports[0].generation, 0);
    assert_eq!(driver.population.organisms.len(), 50 + 20 + 10);
    assert_eq!(driver.generation, 1);
    let survivors = &driver.population.organisms[..50];
    assert!(survivors.iter().all(|o| o.fitness.is_some()));
    assert!(survivors.windows(2).all(|pair| pair[0].fitness <= pair[1].fitness));
    assert_eq!(survivors[0].fitness, Some(reports[0].fitness));
    assert_eq!(survivors[1].fitness, Some(reports[1].fitness));
    assert!(driver.population.organisms[50..].iter().all(|o| o.fitness.is_none()));
}

#[test]
fn step_refuses_a_search_that_is_not_well_formed() {
    let mut driver = EvolutionDriver::new(settings()).unwrap();
    driver.population.organisms.truncate(10);
    assert!(matches!(driver.step(), Err(EvolutionError::Configuration)));
    assert_eq!(driver.generation, 0);
    assert_eq!(driver.population.organisms.len(), 10);
    let mut driver = EvolutionDriver::new(settings()).unwrap();
    driver.config.mutation_rate = 0;
    assert!(matches!(driver.step(), Err(EvolutionError::Configuration)));
    assert_eq!(driver.generation, 0);
    assert!(driver.population.organisms.iter().all(|o| o.fitness.is_none()));
}

#[test]
fn step_that_overflows_changes_nothing() {
    let n = 15_000_000;
    let mut config = settings();
    config.target = vec!['\0'; n];
    config.survivor_count = 1;
    config.breed_count = 0;
    config.immigrant_count = 0;
    config.report_count = 1;
    let population = Generation {
        organisms: vec![Organism::new(seq("AB")), Organism::new(vec!['\u{10FFFF}'; n])],
    };
    let mut driver = EvolutionDriver::with_population(config, population).unwrap();
    assert!(matches!(driver.step(), Err(EvolutionError::ArithmeticOverflow)));
    assert_eq!(driver.generation, 0);
    assert_eq!(driver.population.organisms.len(), 2);
    assert!(driver.population.organisms.iter().all(|o| o.fitness.is_none()));
}

#[test]
fn best_fitness_does_not_rise_over_a_search() {
    // Statistical: over several searches the best fitness of late
    // generations is no worse on average than that of the first ones.
    let mut early: u64 = 0;
    let mut late: u64 = 0;
    for _ in 0..5 {
        let mut driver = EvolutionDriver::new(settings()).unwrap();
        let mut best: Vec<u64> = Vec::new();
        while !driver.finished() {
            let reports = driver.step().unwrap();
            assert_eq!(reports.len(), 2);
            assert!(reports[0].fitness <= reports[1].fitness);
            assert_eq!(reports[0].generation as usize, best.len());
            best.push(reports[0].fitness);
        }
        assert_eq!(best.len(), 50);
        assert_eq!(driver.generation, 50);
        early += best[..10].iter().sum::<u64>();
        late += best[40..].iter().sum::<u64>();
        // no genome is shorter than five genes, so three genes too many is the least
        assert!(best.iter().all(|fitness| *fitness >= 3 * 9999));
    }
    assert!(late <= early);
}

#[test]
fn search_approaches_a_target_of_reachable_length() {
    let mut config = settings();
    config.target = seq("HELLO WORLD");
    config.generation_budget = 300;
    let mut driver = EvolutionDriver::new(config).unwrap();
    let first = driver.step().unwrap()[0].fitness;
    let mut last = first;
    while !driver.finished() {
        last = driver.step().unwrap()[0].fitness;
    }
    assert!(last < first);
    assert!(last < 9999);
}
