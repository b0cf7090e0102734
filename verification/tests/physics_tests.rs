use particle_life::components::{Obstacle, Particle, Vec2};
use particle_life::resources::{GlobalParameters, InteractionRules, SpeciesRadii};
use particle_life::systems::{boundary_system, physics_system};

fn at_rest(species: usize, x: i64, y: i64) -> Particle {
    Particle { species, position: Vec2 { x, y }, velocity: Vec2 { x: 0, y: 0 } }
}

fn one_species_rules(coeff: i64) -> InteractionRules {
    InteractionRules { rules: vec![coeff], species_count: 1 }
}

#[test]
fn positive_rule_pushes_pair_apart() {
    // Two particles of the same species one unit apart, coefficient +1.
    // The force on each points along its own separation vector, so the
    // velocity change has positive inner product with it.
    let mut particles = vec![at_rest(0, 0, 0), at_rest(0, 1_000, 0)];
    let params = GlobalParameters::default();
    let rules = one_species_rules(1_000);
    let radii = SpeciesRadii::new(1);
    let obstacles: Vec<Obstacle> = Vec::new();
    physics_system(&mut particles, &params, &rules, &radii, &obstacles);
    assert_eq!(particles[0].velocity.x, -1_000);
    assert_eq!(particles[0].velocity.y, 0);
    assert_eq!(particles[0].position.x, -1_000);
    assert_eq!(particles[1].velocity.x, 1_000);
    assert_eq!(particles[1].position.x, 2_000);
    // inner product of the velocity change with the separation vector
    let sep_x = 0 - 1_000;
    let dot = particles[0].velocity.x * sep_x;
    assert!(dot > 0);
}

#[test]
fn negative_rule_pulls_pair_together() {
    let mut particles = vec![at_rest(0, 0, 0), at_rest(0, 1_000, 0)];
    let params = GlobalParameters::default();
    let rules = one_species_rules(-1_000);
    let radii = SpeciesRadii::new(1);
    let obstacles: Vec<Obstacle> = Vec::new();
    physics_system(&mut particles, &params, &rules, &radii, &obstacles);
    assert_eq!(particles[0].velocity.x, 1_000);
    assert_eq!(particles[1].velocity.x, -1_000);
}

#[test]
fn pairs_beyond_the_radius_ignore_each_other() {
    // Default radius is 80.0; the pair sits 81.0 apart.
    let mut particles = vec![at_rest(0, 0, 0), at_rest(0, 81_000, 0)];
    let params = GlobalParameters::default();
    let rules = one_species_rules(1_000);
    let radii = SpeciesRadii::new(1);
    let obstacles: Vec<Obstacle> = Vec::new();
    physics_system(&mut particles, &params, &rules, &radii, &obstacles);
    assert_eq!(particles[0].velocity, Vec2 { x: 0, y: 0 });
    assert_eq!(particles[1].velocity, Vec2 { x: 0, y: 0 });
}

#[test]
fn gravity_pulls_straight_down() {
    let mut particles = vec![at_rest(0, 0, 0)];
    let mut params = GlobalParameters::default();
    params.gravity = 1_000;
    let rules = one_species_rules(0);
    let radii = SpeciesRadii::new(1);
    let obstacles: Vec<Obstacle> = Vec::new();
    physics_system(&mut particles, &params, &rules, &radii, &obstacles);
    assert_eq!(particles[0].velocity, Vec2 { x: 0, y: -1_000 });
    assert_eq!(particles[0].position, Vec2 { x: 0, y: -1_000 });
}

#[test]
fn viscosity_blends_old_velocity() {
    // viscosity 0.7 keeps 30% of the old velocity.
    let mut particles = vec![Particle {
        species: 0,
        position: Vec2 { x: 0, y: 0 },
        velocity: Vec2 { x: 1_000, y: -500 },
    }];
    let params = GlobalParameters::default();
    let rules = one_species_rules(0);
    let radii = SpeciesRadii::new(1);
    let obstacles: Vec<Obstacle> = Vec::new();
    physics_system(&mut particles, &params, &rules, &radii, &obstacles);
    assert_eq!(particles[0].velocity, Vec2 { x: 300, y: -150 });
    assert_eq!(particles[0].position, Vec2 { x: 300, y: -150 });
}

#[test]
fn obstacles_repel_nearby_particles() {
    // Obstacle of radius 50.0 at the center; particle at 52.0 on the x
    // axis, inside the 5.0 repulsion margin. The push is
    // wall_repel / dist scaled by dx / dist: 40.0 * 52000 / 52.0^2.
    let mut particles = vec![at_rest(0, 52_000, 0)];
    let params = GlobalParameters::default();
    let rules = one_species_rules(0);
    let radii = SpeciesRadii::new(1);
    let obstacles = vec![Obstacle { center: Vec2 { x: 0, y: 0 }, radius: 50_000 }];
    physics_system(&mut particles, &params, &rules, &radii, &obstacles);
    assert_eq!(particles[0].velocity, Vec2 { x: 769, y: 0 });
    assert_eq!(particles[0].position, Vec2 { x: 52_769, y: 0 });
}

#[test]
fn obstacle_margin_has_a_sharp_edge() {
    // At 56.0 the particle is outside radius + margin and feels nothing.
    let mut particles = vec![at_rest(0, 56_000, 0)];
    let params = GlobalParameters::default();
    let rules = one_species_rules(0);
    let radii = SpeciesRadii::new(1);
    let obstacles = vec![Obstacle { center: Vec2 { x: 0, y: 0 }, radius: 50_000 }];
    physics_system(&mut particles, &params, &rules, &radii, &obstacles);
    assert_eq!(particles[0].velocity, Vec2 { x: 0, y: 0 });
}

#[test]
fn reflection_at_the_right_wall() {
    // Exactly at +half_w with outward velocity: held at the wall, velocity
    // negated on that axis only.
    let mut particles = vec![Particle {
        species: 0,
        position: Vec2 { x: 640_000, y: 100 },
        velocity: Vec2 { x: 500, y: 7 },
    }];
    boundary_system(&mut particles, 640_000, 360_000);
    assert_eq!(particles[0].position, Vec2 { x: 640_000, y: 100 });
    assert_eq!(particles[0].velocity, Vec2 { x: -500, y: 7 });
}

#[test]
fn reflection_clamps_overshoot() {
    let mut particles = vec![Particle {
        species: 0,
        position: Vec2 { x: -700_123, y: 0 },
        velocity: Vec2 { x: -40, y: 0 },
    }];
    boundary_system(&mut particles, 640_000, 360_000);
    assert_eq!(particles[0].position, Vec2 { x: -640_000, y: 0 });
    assert_eq!(particles[0].velocity, Vec2 { x: 40, y: 0 });
}

#[test]
fn corner_reflects_both_axes() {
    let mut particles = vec![Particle {
        species: 0,
        position: Vec2 { x: 700_000, y: -400_000 },
        velocity: Vec2 { x: 10, y: -20 },
    }];
    boundary_system(&mut particles, 640_000, 360_000);
    assert_eq!(particles[0].position, Vec2 { x: 640_000, y: -360_000 });
    assert_eq!(particles[0].velocity, Vec2 { x: -10, y: 20 });
}

#[test]
fn empty_particle_sets_are_fine() {
    let mut particles: Vec<Particle> = Vec::new();
    let params = GlobalParameters::default();
    let rules = one_species_rules(1_000);
    let radii = SpeciesRadii::new(1);
    let obstacles: Vec<Obstacle> = Vec::new();
    physics_system(&mut particles, &params, &rules, &radii, &obstacles);
    boundary_system(&mut particles, 640_000, 360_000);
    assert!(particles.is_empty());
}

#[test]
fn interior_particles_pass_through_unchanged() {
    let mut particles = vec![Particle {
        species: 0,
        position: Vec2 { x: 12_345, y: -6_789 },
        velocity: Vec2 { x: -1, y: 2 },
    }];
    boundary_system(&mut particles, 640_000, 360_000);
    assert_eq!(particles[0].position, Vec2 { x: 12_345, y: -6_789 });
    assert_eq!(particles[0].velocity, Vec2 { x: -1, y: 2 });
}
