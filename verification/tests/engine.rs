use genetic_algorithm::init_population;
use genetic_algorithm::population::Population;
use genetic_algorithm::ConfigError;
use genetic_algorithm::Individual;

fn popcount(genes: &Vec<bool>) -> u64 {
    let mut n: u64 = 0;
    for g in genes {
        if *g {
            n += 1;
        }
    }
    n
}

fn score_by_popcount(pop: &mut Population) {
    for i in 0..pop.individuals.len() {
        let f = popcount(&pop.individuals[i].get_genes());
        pop.individuals[i].set_fitness(f);
    }
}

#[test]
fn init_sizes_and_gene_lengths() {
    let pop = init_population(10, 6, 3, 50, false).unwrap();
    assert_eq!(pop.get_population_size(), 6);
    assert_eq!(pop.individuals.len(), 6);
    for i in 0..pop.individuals.len() {
        assert_eq!(pop.individuals[i].get_genes().len(), 10);
        assert_eq!(pop.individuals[i].get_gene_length(), 10);
        assert_eq!(pop.individuals[i].get_fitness(), 0);
    }
    assert_eq!(pop.get_parent_count(), 3);
    assert_eq!(pop.get_mutation_chance(), 50);
    assert!(!pop.is_multi_threaded());
}

#[test]
fn mutation_chance_is_clamped() {
    let high = init_population(5, 4, 2, 150, false).unwrap();
    let exact = init_population(5, 4, 2, 100, false).unwrap();
    assert_eq!(high.get_mutation_chance(), 100);
    assert_eq!(high.get_mutation_chance(), exact.get_mutation_chance());
    let low = init_population(5, 4, 2, 99, false).unwrap();
    assert_eq!(low.get_mutation_chance(), 99);
}

#[test]
fn invalid_configurations_are_rejected() {
    assert_eq!(
        init_population(0, 4, 2, 10, false).unwrap_err(),
        ConfigError::GeneLengthZero
    );
    assert_eq!(
        init_population(8, 4, 0, 10, false).unwrap_err(),
        ConfigError::ParentCountZero
    );
    assert_eq!(
        init_population(8, 3, 5, 10, false).unwrap_err(),
        ConfigError::ParentCountTooLarge
    );
}

#[test]
fn next_generation_restores_size() {
    let mut pop = init_population(12, 9, 4, 30, false).unwrap();
    for _round in 0..5 {
        score_by_popcount(&mut pop);
        pop.next_generation();
        assert_eq!(pop.individuals.len(), 9);
        for i in 0..pop.individuals.len() {
            assert_eq!(pop.individuals[i].get_genes().len(), 12);
        }
    }
}

#[test]
fn scenario_elitism_and_crossover_without_mutation() {
    let mut pop = init_population(8, 4, 2, 0, false).unwrap();
    score_by_popcount(&mut pop);

    let mut old: Vec<(u64, Vec<bool>)> = Vec::new();
    for i in 0..pop.individuals.len() {
        old.push((
            pop.individuals[i].get_fitness(),
            pop.individuals[i].get_genes(),
        ));
    }
    let mut old_scores: Vec<u64> = old.iter().map(|p| p.0).collect();
    old_scores.sort();
    old_scores.reverse();

    pop.next_generation();
    assert_eq!(pop.individuals.len(), 4);

    // The two retained individuals carry the two highest old scores, and
    // each one's genes are those of some old individual with that score.
    for i in 0..2 {
        let f = popcount(&pop.individuals[i].get_genes());
        assert_eq!(f, old_scores[i]);
        let genes = pop.individuals[i].get_genes();
        assert!(old.iter().any(|(s, g)| *s == f && *g == genes));
    }
    assert!(
        pop.individuals[0].get_genes() != pop.individuals[1].get_genes()
            || old_scores[0] == old_scores[1]
    );

    // Children are unscored and every gene comes from one of the two parents.
    let p0 = pop.individuals[0].get_genes();
    let p1 = pop.individuals[1].get_genes();
    for c in 2..4 {
        assert_eq!(pop.individuals[c].get_fitness(), 0);
        let genes = pop.individuals[c].get_genes();
        assert_eq!(genes.len(), 8);
        for i in 0..8 {
            assert!(genes[i] == p0[i] || genes[i] == p1[i]);
        }
    }
}

#[test]
fn scenario_full_mutation_negates_copied_genes() {
    let mut pop = init_population(8, 4, 2, 100, false).unwrap();
    score_by_popcount(&mut pop);
    pop.next_generation();
    assert_eq!(pop.individuals.len(), 4);
    let p0 = pop.individuals[0].get_genes();
    let p1 = pop.individuals[1].get_genes();
    for c in 2..4 {
        let genes = pop.individuals[c].get_genes();
        for i in 0..8 {
            assert!(genes[i] == !p0[i] || genes[i] == !p1[i]);
        }
    }
}

#[test]
fn mutation_rate_is_statistically_faithful() {
    let parents = vec![Individual::new(1)];
    let trials: usize = 20000;
    let mut flips: usize = 0;
    for _t in 0..trials {
        let child = Population::create_child(&parents, 15);
        if child.get_genes()[0] {
            flips += 1;
        }
    }
    // Expected 3000 of 20000; six standard deviations is about 300.
    assert!(flips >= 2600, "flip count {} is far below 15%", flips);
    assert!(flips <= 3400, "flip count {} is far above 15%", flips);
}

#[test]
fn mutation_chance_extremes_are_exact() {
    let parents = vec![Individual::new(16)];
    for _t in 0..50 {
        let silent = Population::create_child(&parents, 0);
        assert_eq!(silent.get_genes(), vec![false; 16]);
        let flipped = Population::create_child(&parents, 100);
        assert_eq!(flipped.get_genes(), vec![true; 16]);
    }
}

#[test]
fn batch_mode_restores_size_like_sequential() {
    for workers in [1usize, 2, 3, 5, 8] {
        let mut pop = init_population(6, 11, 3, 20, true).unwrap();
        score_by_popcount(&mut pop);
        pop.select_parents();
        assert_eq!(pop.individuals.len(), 3);
        let needed = pop.get_population_size() - pop.individuals.len();
        let batches = Population::worker_batches(needed, workers);
        assert_eq!(batches.len(), workers);
        assert_eq!(batches.iter().sum::<usize>(), needed);
        let mut children: Vec<Individual> = Vec::new();
        for b in &batches {
            for _c in 0..*b {
                children.push(Population::create_child(
                    &pop.individuals,
                    pop.get_mutation_chance(),
                ));
            }
        }
        pop.absorb_children(children);
        assert_eq!(pop.individuals.len(), 11);
    }
}

#[test]
fn worker_batches_cover_uneven_divisions() {
    assert_eq!(Population::worker_batches(10, 3), vec![3, 3, 4]);
    assert_eq!(Population::worker_batches(2, 5), vec![0, 0, 0, 0, 2]);
    assert_eq!(Population::worker_batches(0, 4), vec![0, 0, 0, 0]);
    assert_eq!(Population::worker_batches(12, 4), vec![3, 3, 3, 3]);
    assert_eq!(Population::worker_batches(7, 1), vec![7]);
}

#[test]
fn sort_by_fitness_orders_descending() {
    let mut pop = init_population(4, 5, 2, 0, false).unwrap();
    let scores: [u64; 5] = [3, 9, 1, 9, 4];
    for i in 0..5 {
        pop.individuals[i].set_fitness(scores[i]);
    }
    pop.sort_by_fitness();
    let got: Vec<u64> = pop.individuals.iter().map(|x| x.get_fitness()).collect();
    assert_eq!(got, vec![9, 9, 4, 3, 1]);
}

#[test]
fn read_fittest_returns_a_maximum() {
    let mut pop = init_population(4, 5, 2, 0, false).unwrap();
    let scores: [u64; 5] = [3, 9, 1, 7, 4];
    for i in 0..5 {
        pop.individuals[i].set_fitness(scores[i]);
    }
    let best = pop.read_fittest();
    assert_eq!(best.get_fitness(), 9);
    assert_eq!(best.get_genes(), pop.individuals[1].get_genes());
}

#[test]
fn fitness_roundtrip_and_equality_by_score() {
    let mut a = Individual::new(3);
    let mut b = Individual::from_genes(vec![true, true, true]);
    a.set_fitness(7);
    b.set_fitness(7);
    assert_eq!(a.get_fitness(), 7);
    // Comparison consults fitness alone: distinct genes still compare equal.
    assert!(a == b);
    b.set_fitness(8);
    assert!(a < b);
    assert!(a != b);
}
