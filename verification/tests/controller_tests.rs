use particle_life::components::Particle;
use particle_life::population::Population;
use particle_life::resources::{
    AdaptiveLearningState, CurrentGenomeIndex, FitnessMetric, SimulationParameters, SpeciesRadii,
    InteractionRules,
};
use particle_life::rng::rng_from_seed;
use particle_life::systems::{adaptive_learning_system, setup_system};

const HALF_W: i64 = 640_000;
const HALF_H: i64 = 360_000;

struct Sim {
    state: AdaptiveLearningState,
    population: Population,
    interaction_rules: InteractionRules,
    species_radii: SpeciesRadii,
    current_index: CurrentGenomeIndex,
    particles: Vec<Particle>,
    sim_params: SimulationParameters,
    metric: FitnessMetric,
    rng: rand::rngs::StdRng,
}

fn make_sim(species: usize, pop_size: usize, interval: usize, seed: u64) -> Sim {
    let mut rng = rng_from_seed(seed);
    let population = Population::new(species, pop_size, &mut rng);
    let mut interaction_rules = InteractionRules::default();
    let mut species_radii = SpeciesRadii::new(species);
    let current_index = CurrentGenomeIndex(0);
    let sim_params = SimulationParameters { particles_per_species: 2 };
    let mut state = AdaptiveLearningState::default();
    state.evaluate_interval = interval;
    let particles = setup_system(
        &population,
        &mut interaction_rules,
        &mut species_radii,
        &current_index,
        &sim_params,
        HALF_W,
        HALF_H,
        &mut rng,
    );
    Sim {
        state,
        population,
        interaction_rules,
        species_radii,
        current_index,
        particles,
        sim_params,
        metric: FitnessMetric::Cohesion,
        rng,
    }
}

fn tick(sim: &mut Sim) -> Option<(usize, i64)> {
    adaptive_learning_system(
        &mut sim.state,
        &mut sim.population,
        &mut sim.interaction_rules,
        &mut sim.species_radii,
        &mut sim.current_index,
        &mut sim.particles,
        &sim.sim_params,
        &sim.metric,
        HALF_W,
        HALF_H,
        &mut sim.rng,
    )
}

#[test]
fn setup_mirrors_the_active_genome() {
    let sim = make_sim(2, 4, 10, 21);
    assert_eq!(sim.interaction_rules.species_count, 2);
    assert_eq!(sim.interaction_rules.rules, sim.population.genomes[0].rules);
    assert_eq!(sim.species_radii.radii, sim.population.genomes[0].radii);
    assert_eq!(sim.particles.len(), 4);
    assert_eq!(sim.particles[0].species, 0);
    assert_eq!(sim.particles[1].species, 0);
    assert_eq!(sim.particles[2].species, 1);
    assert_eq!(sim.particles[3].species, 1);
}

#[test]
fn quiet_ticks_change_nothing_but_the_frame_count() {
    let mut sim = make_sim(2, 4, 10, 22);
    let fitness_before: Vec<i64> = sim.population.genomes.iter().map(|g| g.fitness).collect();
    let record = tick(&mut sim);
    assert_eq!(record, None);
    assert_eq!(sim.state.frame_count, 1);
    assert_eq!(sim.state.tested_count, 0);
    assert_eq!(sim.current_index.0, 0);
    assert_eq!(sim.population.generation, 0);
    let fitness_after: Vec<i64> = sim.population.genomes.iter().map(|g| g.fitness).collect();
    assert_eq!(fitness_before, fitness_after);
}

#[test]
fn ten_ticks_produce_one_record_for_generation_zero() {
    let mut sim = make_sim(2, 4, 10, 23);
    let mut records = Vec::new();
    for _ in 0..10 {
        if let Some(r) = tick(&mut sim) {
            records.push(r);
        }
    }
    assert_eq!(records.len(), 1);
    assert_eq!(records[0].0, 0);
    assert_eq!(sim.state.tested_count, 1);
    assert_eq!(sim.current_index.0, 1);
    assert_eq!(sim.population.generation, 0);
}

#[test]
fn one_full_pass_advances_the_generation() {
    let mut sim = make_sim(2, 4, 10, 24);
    for _ in 0..40 {
        tick(&mut sim);
    }
    assert_eq!(sim.population.generation, 1);
    assert_eq!(sim.state.tested_count, 0);
    assert_eq!(sim.current_index.0, 0);
    assert_eq!(sim.state.frame_count, 40);
}

#[test]
fn index_cycles_once_per_evaluation_event() {
    let mut sim = make_sim(2, 4, 1, 25);
    let mut seen = Vec::new();
    for _ in 0..6 {
        tick(&mut sim);
        seen.push(sim.current_index.0);
    }
    assert_eq!(seen, vec![1, 2, 3, 0, 1, 2]);
}

#[test]
fn evaluation_scores_the_active_genome() {
    let mut sim = make_sim(2, 4, 1, 26);
    let record = tick(&mut sim).expect("an evaluation event");
    // the genome that was active got the recorded score
    assert_eq!(sim.population.genomes[0].fitness, record.1);
    assert_eq!(sim.state.last_score, record.1);
    assert!(record.1 > 0);
}

#[test]
fn respawn_replaces_the_particle_set() {
    let mut sim = make_sim(2, 4, 1, 27);
    for p in sim.particles.iter_mut() {
        p.velocity.x = 999;
    }
    tick(&mut sim);
    assert_eq!(sim.particles.len(), 4);
    for p in &sim.particles {
        assert_eq!(p.velocity.x, 0);
        assert_eq!(p.velocity.y, 0);
        assert!(p.position.x.abs() <= HALF_W);
        assert!(p.position.y.abs() <= HALF_H);
    }
}

#[test]
fn smallest_population_still_evolves() {
    let mut sim = make_sim(1, 2, 1, 29);
    for _ in 0..2 {
        tick(&mut sim);
    }
    assert_eq!(sim.population.generation, 1);
    assert_eq!(sim.population.genomes.len(), 2);
    assert_eq!(sim.state.tested_count, 0);
    assert_eq!(sim.current_index.0, 0);
}

#[test]
fn configuration_follows_the_new_active_genome() {
    let mut sim = make_sim(2, 4, 1, 28);
    tick(&mut sim);
    assert_eq!(sim.current_index.0, 1);
    assert_eq!(sim.interaction_rules.rules, sim.population.genomes[1].rules);
    assert_eq!(sim.species_radii.radii, sim.population.genomes[1].radii);
    for (i, &r) in sim.species_radii.radii.iter().enumerate() {
        assert_eq!(sim.species_radii.radii_sqr[i], r * r);
    }
}
