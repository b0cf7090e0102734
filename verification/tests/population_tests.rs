use particle_life::genome::{crossover_genomes, mutate_genome, Genome};
use particle_life::population::Population;
use particle_life::rng::rng_from_seed;

fn fresh_population(species: usize, size: usize, seed: u64) -> Population {
    let mut rng = rng_from_seed(seed);
    Population::new(species, size, &mut rng)
}

#[test]
fn new_population_shape() {
    let pop = fresh_population(3, 5, 1);
    assert_eq!(pop.genomes.len(), 5);
    assert_eq!(pop.species_count, 3);
    assert_eq!(pop.generation, 0);
    for g in &pop.genomes {
        assert_eq!(g.rules.len(), 9);
        assert_eq!(g.radii.len(), 3);
        assert_eq!(g.fitness, 0);
        for &r in &g.rules {
            assert!((-1_000..=1_000).contains(&r));
        }
        for &r in &g.radii {
            assert!((20_000..=100_000).contains(&r));
        }
    }
}

#[test]
fn population_size_invariant_across_reproductions() {
    let mut pop = fresh_population(2, 4, 2);
    let mut rng = rng_from_seed(3);
    for cycle in 0..6 {
        for (i, g) in pop.genomes.iter_mut().enumerate() {
            g.fitness = ((i + cycle) % 4) as i64 * 100;
        }
        pop.select_and_reproduce(&mut rng);
        assert_eq!(pop.genomes.len(), 4);
    }
    assert_eq!(pop.generation, 6);
}

#[test]
fn elites_survive_verbatim() {
    let mut pop = fresh_population(2, 4, 4);
    pop.genomes[0].fitness = 10;
    pop.genomes[1].fitness = 40;
    pop.genomes[2].fitness = 20;
    pop.genomes[3].fitness = 30;
    let best_rules = pop.genomes[1].rules.clone();
    let best_radii = pop.genomes[1].radii.clone();
    let second_rules = pop.genomes[3].rules.clone();
    let second_radii = pop.genomes[3].radii.clone();
    let mut rng = rng_from_seed(5);
    pop.select_and_reproduce(&mut rng);
    assert_eq!(pop.genomes[0].rules, best_rules);
    assert_eq!(pop.genomes[0].radii, best_radii);
    assert_eq!(pop.genomes[0].fitness, 40);
    assert_eq!(pop.genomes[1].rules, second_rules);
    assert_eq!(pop.genomes[1].radii, second_radii);
    assert_eq!(pop.genomes[1].fitness, 30);
}

#[test]
fn equal_fitness_keeps_original_order() {
    let mut pop = fresh_population(2, 4, 6);
    for g in pop.genomes.iter_mut() {
        g.fitness = 500;
    }
    let first_rules = pop.genomes[0].rules.clone();
    let second_rules = pop.genomes[1].rules.clone();
    let mut rng = rng_from_seed(7);
    pop.select_and_reproduce(&mut rng);
    assert_eq!(pop.genomes[0].rules, first_rules);
    assert_eq!(pop.genomes[1].rules, second_rules);
}

#[test]
fn crossover_takes_every_gene_from_a_parent() {
    let e1 = Genome { rules: vec![111; 9], radii: vec![30_000; 3], fitness: 77 };
    let e2 = Genome { rules: vec![222; 9], radii: vec![60_000; 3], fitness: 55 };
    let mut rng = rng_from_seed(8);
    let child = crossover_genomes(&e1, &e2, &mut rng);
    assert_eq!(child.rules.len(), 9);
    assert_eq!(child.radii.len(), 3);
    assert_eq!(child.fitness, 77);
    for &r in &child.rules {
        assert!(r == 111 || r == 222);
    }
    for &r in &child.radii {
        assert!(r == 30_000 || r == 60_000);
    }
}

#[test]
fn crossover_mixes_both_parents() {
    let e1 = Genome { rules: vec![111; 64], radii: vec![30_000; 8], fitness: 0 };
    let e2 = Genome { rules: vec![222; 64], radii: vec![60_000; 8], fitness: 0 };
    let mut rng = rng_from_seed(9);
    let child = crossover_genomes(&e1, &e2, &mut rng);
    let from_first = child.rules.iter().filter(|&&r| r == 111).count();
    assert!(from_first > 0 && from_first < 64);
}

#[test]
fn genes_stay_in_range_across_cycles() {
    let mut pop = fresh_population(2, 4, 10);
    let mut rng = rng_from_seed(11);
    for cycle in 0..8 {
        for (i, g) in pop.genomes.iter_mut().enumerate() {
            g.fitness = ((i * 37 + cycle * 13) % 101) as i64;
        }
        pop.select_and_reproduce(&mut rng);
        for g in &pop.genomes {
            for &r in &g.rules {
                assert!((-1_000..=1_000).contains(&r));
            }
            for &r in &g.radii {
                assert!((10_000..=200_000).contains(&r));
            }
        }
    }
}

#[test]
fn mutation_clamps_to_gene_ranges() {
    let mut g = Genome { rules: vec![1_000, -1_000, 0], radii: vec![200_000, 10_000], fitness: 0 };
    let mut rng = rng_from_seed(12);
    for _ in 0..200 {
        mutate_genome(&mut g, &mut rng);
        for &r in &g.rules {
            assert!((-1_000..=1_000).contains(&r));
        }
        for &r in &g.radii {
            assert!((10_000..=200_000).contains(&r));
        }
    }
}

#[test]
fn children_have_fitness_reset() {
    let mut pop = fresh_population(2, 5, 13);
    for (i, g) in pop.genomes.iter_mut().enumerate() {
        g.fitness = i as i64 * 10 + 1;
    }
    let mut rng = rng_from_seed(14);
    pop.select_and_reproduce(&mut rng);
    for g in pop.genomes.iter().skip(2) {
        assert_eq!(g.fitness, 0);
    }
}
