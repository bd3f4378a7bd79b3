use rand::rngs::StdRng;
use rand::SeedableRng;
use simulation::chromosome::Chromosome;
use simulation::fraction::Fraction;
use simulation::ranking::rank;
use simulation::solver::{Solver, SolverError, SolverSettings};

fn settings(population_size: usize, chromosome_size: usize, elitism: Fraction, mutation_prob: Fraction) -> SolverSettings {
    SolverSettings { population_size, chromosome_size, initial_angle: 0, initial_thrust: 0, elitism, mutation_prob }
}

fn genes(population: &Vec<Chromosome>) -> Vec<(Vec<i32>, Vec<i32>)> {
    population.iter().map(|c| (c.angles.clone(), c.thrusts.clone())).collect()
}

#[test]
fn settings_with_a_fault_are_refused() {
    let mut rng = StdRng::seed_from_u64(1);
    let unit = Fraction::new(1, 5);
    let cases = [
        (settings(300, 50, Fraction::new(6, 5), unit), SolverError::ElitismOutOfRange),
        (settings(300, 50, Fraction::new(-1, 5), unit), SolverError::ElitismOutOfRange),
        (settings(300, 50, unit, Fraction::new(6, 5)), SolverError::MutationProbOutOfRange),
        (settings(300, 50, unit, Fraction::new(-1, 100)), SolverError::MutationProbOutOfRange),
        (settings(1, 50, unit, unit), SolverError::PopulationTooSmall),
        (settings(0, 50, unit, unit), SolverError::PopulationTooSmall),
        (settings(300, 0, unit, unit), SolverError::EmptyChromosome),
        // 301 chromosomes, 60 retained: 241 cannot be bred in pairs
        (settings(301, 50, unit, unit), SolverError::OddChildrenCount),
        (settings(3, 50, Fraction::new(0, 1), unit), SolverError::OddChildrenCount),
        // the first fault found is reported
        (settings(1, 0, Fraction::new(6, 5), Fraction::new(6, 5)), SolverError::ElitismOutOfRange),
        (settings(1, 0, unit, Fraction::new(6, 5)), SolverError::MutationProbOutOfRange),
        (settings(1, 0, unit, unit), SolverError::PopulationTooSmall),
    ];
    for (s, e) in cases {
        assert_eq!(Solver::try_new(s, &mut rng).err(), Some(e));
    }
}

#[test]
fn a_new_solver_has_a_random_population_of_steps() {
    let mut rng = StdRng::seed_from_u64(1);
    let solver = Solver::try_new(settings(300, 50, Fraction::new(1, 5), Fraction::new(1, 100)), &mut rng).unwrap();
    let population = solver.iter_population();
    assert_eq!(population.len(), 300);
    for c in population {
        assert_eq!(c.angles.len(), 50);
        assert_eq!(c.thrusts.len(), 50);
        assert!(c.angles.iter().all(|a| (-15..=15).contains(a)));
        assert!(c.thrusts.iter().all(|t| (-1..=1).contains(t)));
    }
    assert!(population[0].angles != population[1].angles);
}

#[test]
fn the_edges_of_the_settings_are_accepted() {
    let mut rng = StdRng::seed_from_u64(1);
    assert!(Solver::try_new(settings(2, 1, Fraction::new(0, 1), Fraction::new(0, 1)), &mut rng).is_ok());
    assert!(Solver::try_new(settings(2, 1, Fraction::new(1, 1), Fraction::new(1, 1)), &mut rng).is_ok());
    assert!(Solver::try_new(settings(3, 1, Fraction::new(1, 3), Fraction::new(1, 2)), &mut rng).is_ok());
}

#[test]
fn the_accumulated_population_holds_commands() {
    let mut rng = StdRng::seed_from_u64(2);
    let s = SolverSettings {
        population_size: 40,
        chromosome_size: 60,
        initial_angle: -80,
        initial_thrust: 3,
        elitism: Fraction::new(1, 5),
        mutation_prob: Fraction::new(1, 100),
    };
    let solver = Solver::try_new(s, &mut rng).unwrap();
    let accumulated = solver.iter_accumulated_population();
    assert_eq!(accumulated.len(), 40);
    for (stored, commands) in solver.iter_population().iter().zip(&accumulated) {
        let mut angle = -80;
        let mut thrust = 3;
        for k in 0..60 {
            angle = (angle + stored.angles[k]).clamp(-90, 90);
            thrust = (thrust + stored.thrusts[k]).clamp(0, 4);
            assert_eq!(commands.angles[k], angle);
            assert_eq!(commands.thrusts[k], thrust);
        }
    }
}

#[test]
fn a_fitness_vector_of_another_length_is_refused() {
    let mut rng = StdRng::seed_from_u64(3);
    let mut solver = Solver::try_new(settings(10, 5, Fraction::new(1, 5), Fraction::new(1, 100)), &mut rng).unwrap();
    let before = genes(solver.iter_population());
    assert_eq!(solver.new_generation(&vec![1; 9], &mut rng), Err(SolverError::FitnessLengthMismatch));
    assert_eq!(solver.new_generation(&vec![1; 11], &mut rng), Err(SolverError::FitnessLengthMismatch));
    assert_eq!(solver.new_generation(&vec![], &mut rng), Err(SolverError::FitnessLengthMismatch));
    assert_eq!(genes(solver.iter_population()), before);
}

#[test]
fn the_best_are_retained_behind_the_children() {
    let mut rng = StdRng::seed_from_u64(4);
    let mut solver = Solver::try_new(settings(30, 20, Fraction::new(1, 5), Fraction::new(1, 10)), &mut rng).unwrap();
    for generation in 0..20i64 {
        let before = genes(solver.iter_population());
        let fitness: Vec<i64> = (0..30i64).map(|i| (i * 7 + generation * 3) % 11).collect();
        let order = rank(&fitness);
        assert_eq!(solver.new_generation(&fitness, &mut rng), Ok(()));
        let after = genes(solver.iter_population());
        // the size of the population does not change
        assert_eq!(after.len(), 30);
        // 6 are retained: they stand at the end, in the order of their rank
        for k in 0..6 {
            assert_eq!(after[24 + k], before[order[k]]);
        }
        // the fittest of all is among them
        let best = *fitness.iter().max().unwrap();
        assert_eq!(fitness[order[0]], best);
        assert!(after.contains(&before[order[0]]));
        // the children hold steps
        for (angles, thrusts) in &after[..24] {
            assert_eq!(angles.len(), 20);
            assert_eq!(thrusts.len(), 20);
            assert!(angles.iter().all(|a| (-15..=15).contains(a)));
            assert!(thrusts.iter().all(|t| (-1..=1).contains(t)));
        }
    }
}

#[test]
fn with_full_elitism_the_population_is_only_reordered() {
    let mut rng = StdRng::seed_from_u64(5);
    let mut solver = Solver::try_new(settings(6, 4, Fraction::new(1, 1), Fraction::new(1, 1)), &mut rng).unwrap();
    let before = genes(solver.iter_population());
    assert_eq!(solver.new_generation(&vec![3, 9, 3, 1, 9, 0], &mut rng), Ok(()));
    let after = genes(solver.iter_population());
    let expected: Vec<_> = [1, 4, 0, 2, 3, 5].iter().map(|&i| before[i].clone()).collect();
    assert_eq!(after, expected);
}

/// Whether `first` and `second` can be the children of `a` and `b` at some
/// cross point, without mutation.
fn can_descend(a: &(Vec<i32>, Vec<i32>), b: &(Vec<i32>, Vec<i32>), first: &(Vec<i32>, Vec<i32>), second: &(Vec<i32>, Vec<i32>)) -> bool {
    let between = |x: i32, lo: i32, hi: i32| lo.min(hi) <= x && x <= lo.max(hi);
    let fits = |pa: &Vec<i32>, pb: &Vec<i32>, c1: &Vec<i32>, c2: &Vec<i32>| {
        (0..pa.len()).all(|k| {
            between(c1[k], pa[k], pb[k])
                && between(c2[k], pa[k], pb[k])
                && (c1[k] + c2[k] - pa[k] - pb[k]).abs() <= 1
        })
    };
    fits(&a.0, &b.0, &first.0, &second.0) && fits(&a.1, &b.1, &first.1, &second.1)
}

#[test]
fn children_descend_from_two_different_parents() {
    let mut rng = StdRng::seed_from_u64(6);
    // no elitism and no mutation: every chromosome of the next generation is a child of a crossover
    let mut solver = Solver::try_new(settings(40, 30, Fraction::new(0, 1), Fraction::new(0, 1)), &mut rng).unwrap();
    let before = genes(solver.iter_population());
    assert_eq!(solver.new_generation(&vec![0; 40], &mut rng), Ok(()));
    let after = genes(solver.iter_population());
    assert_eq!(after.len(), 40);
    let mut from_the_first_two = 0;
    for pair in after.chunks(2) {
        let mut found = false;
        for one in 0..40 {
            for other in 0..40 {
                if one != other && can_descend(&before[one], &before[other], &pair[0], &pair[1]) {
                    found = true;
                    if one < 2 && other < 2 {
                        from_the_first_two += 1;
                    }
                }
            }
        }
        assert!(found);
    }
    // the parents are drawn from the whole population, not taken from its head
    assert!(from_the_first_two < 20);
}

#[test]
fn the_same_seed_gives_the_same_search() {
    let run = |seed: u64| {
        let mut rng = StdRng::seed_from_u64(seed);
        let mut solver = Solver::try_new(settings(20, 10, Fraction::new(1, 5), Fraction::new(1, 10)), &mut rng).unwrap();
        for g in 0..5i64 {
            let fitness: Vec<i64> = (0..20i64).map(|i| (i * 13 + g) % 7).collect();
            solver.new_generation(&fitness, &mut rng).unwrap();
        }
        genes(solver.iter_population())
    };
    assert_eq!(run(42), run(42));
    assert!(run(42) != run(43));
}
