use particle_life::components::Vec2;
use particle_life::resources::{
    AdaptiveLearningState, FitnessMetric, GlobalParameters, InteractionRules, SimulationParameters,
    SpeciesRadii,
};
use particle_life::systems::default_obstacles;

#[test]
fn global_parameter_defaults() {
    let p = GlobalParameters::default();
    assert_eq!(p.viscosity, 700);
    assert_eq!(p.gravity, 0);
    assert_eq!(p.wall_repel, 40_000);
    assert_eq!(p.time_scale, 1_000);
}

#[test]
fn learning_state_defaults() {
    let s = AdaptiveLearningState::default();
    assert_eq!(s.frame_count, 0);
    assert_eq!(s.evaluate_interval, 600);
    assert_eq!(s.mutation_rate, 50);
    assert_eq!(s.last_score, 0);
    assert_eq!(s.tested_count, 0);
}

#[test]
fn simulation_parameter_defaults() {
    assert_eq!(SimulationParameters::default().particles_per_species, 200);
    assert_eq!(FitnessMetric::default(), FitnessMetric::Cohesion);
}

#[test]
fn rule_lookup_is_row_major() {
    let rules = InteractionRules { rules: vec![1, 2, 3, 4], species_count: 2 };
    assert_eq!(rules.get(0, 0), 1);
    assert_eq!(rules.get(0, 1), 2);
    assert_eq!(rules.get(1, 0), 3);
    assert_eq!(rules.get(1, 1), 4);
}

#[test]
fn fresh_radii_start_at_eighty() {
    let r = SpeciesRadii::new(3);
    assert_eq!(r.radii, vec![80_000, 80_000, 80_000]);
    assert_eq!(r.radius_sqr(1), 6_400_000_000);
}

#[test]
fn setting_radii_recomputes_squares() {
    let mut r = SpeciesRadii::new(2);
    r.set_radii(&vec![10_000, 200_000]);
    assert_eq!(r.radii, vec![10_000, 200_000]);
    assert_eq!(r.radii_sqr, vec![100_000_000, 40_000_000_000]);
}

#[test]
fn the_default_world_has_one_central_obstacle() {
    let obs = default_obstacles();
    assert_eq!(obs.len(), 1);
    assert_eq!(obs[0].center, Vec2 { x: 0, y: 0 });
    assert_eq!(obs[0].radius, 50_000);
}
