use particle_life::components::Vec2;
use particle_life::fitness::{
    evaluate, measure_cluster_cohesion, measure_coverage, measure_dispersion, FITNESS_UNIT,
};
use particle_life::resources::FitnessMetric;

#[test]
fn empty_sets_score_zero() {
    let none: Vec<Vec2> = Vec::new();
    assert_eq!(measure_cluster_cohesion(&none), 0);
    assert_eq!(measure_dispersion(&none), 0);
    assert_eq!(measure_coverage(&none), 0);
}

#[test]
fn single_position_coheres_perfectly() {
    let one = vec![Vec2 { x: 123_456, y: -789 }];
    assert_eq!(measure_cluster_cohesion(&one), FITNESS_UNIT);
}

#[test]
fn cohesion_of_two_points_two_units_apart() {
    // Points at 0.0 and 2.0: centroid at 1.0, each squared distance is one
    // squared unit, so the score is 1 / (1 + 1) = 0.5.
    let pts = vec![Vec2 { x: 0, y: 0 }, Vec2 { x: 2_000, y: 0 }];
    assert_eq!(measure_cluster_cohesion(&pts), 500_000);
}

#[test]
fn dispersion_of_two_points() {
    // Largest pairwise squared distance is 4 squared units: 1 / (1 + 4).
    let pts = vec![Vec2 { x: 0, y: 0 }, Vec2 { x: 2_000, y: 0 }];
    assert_eq!(measure_dispersion(&pts), 200_000);
}

#[test]
fn single_position_disperses_perfectly() {
    let one = vec![Vec2 { x: -5_000, y: 4_000 }];
    assert_eq!(measure_dispersion(&one), FITNESS_UNIT);
}

#[test]
fn coverage_of_a_box() {
    // Bounding box 1.0 by 2.0: area 2 squared units, 1 / (1 + 2).
    let pts = vec![Vec2 { x: 0, y: 0 }, Vec2 { x: 1_000, y: 2_000 }];
    assert_eq!(measure_coverage(&pts), 333_333);
}

#[test]
fn coverage_of_collinear_points_is_full() {
    // Zero-height box has zero area: 1 / (1 + 0).
    let pts = vec![Vec2 { x: -7_000, y: 100 }, Vec2 { x: 9_000, y: 100 }];
    assert_eq!(measure_coverage(&pts), FITNESS_UNIT);
}

#[test]
fn evaluate_dispatches_to_the_selected_metric() {
    let pts = vec![Vec2 { x: 0, y: 0 }, Vec2 { x: 2_000, y: 0 }];
    assert_eq!(
        evaluate(&FitnessMetric::Cohesion, &pts),
        measure_cluster_cohesion(&pts)
    );
    assert_eq!(
        evaluate(&FitnessMetric::Dispersion, &pts),
        measure_dispersion(&pts)
    );
    assert_eq!(
        evaluate(&FitnessMetric::Coverage, &pts),
        measure_coverage(&pts)
    );
}

#[test]
fn scores_stay_within_unit_range() {
    let far = vec![
        Vec2 { x: -1_000_000_000, y: -1_000_000_000 },
        Vec2 { x: 1_000_000_000, y: 1_000_000_000 },
    ];
    for metric in [
        FitnessMetric::Cohesion,
        FitnessMetric::Dispersion,
        FitnessMetric::Coverage,
    ] {
        let s = evaluate(&metric, &far);
        assert!((0..=FITNESS_UNIT).contains(&s));
    }
}
