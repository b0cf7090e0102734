//! Tunable simulation parameters and the active interaction configuration.
//!
//! The rule matrix and radii here are the *active configuration*: a copy of
//! whichever genome is currently under evaluation, refreshed on every genome
//! switch and read-only during a tick.

use vstd::prelude::*;

use crate::genome::{RADIUS_CEIL, RADIUS_FLOOR, RULE_LIMIT};

verus! {

/// Smallest accepted viscosity, in milli-units (0.1).
pub const VISCOSITY_MIN: i64 = 100;

/// Largest accepted viscosity, in milli-units (2.0).
pub const VISCOSITY_MAX: i64 = 2_000;

/// Largest accepted gravity, in milli-units (1.0).
pub const GRAVITY_MAX: i64 = 1_000;

/// Largest accepted wall-repel strength, in milli-units (100.0).
pub const WALL_REPEL_MAX: i64 = 100_000;

/// Smallest accepted time scale, in milli-units (0.1).
pub const TIME_SCALE_MIN: i64 = 100;

/// Largest accepted time scale, in milli-units (5.0).
pub const TIME_SCALE_MAX: i64 = 5_000;

/// Radius every species starts from before a genome is applied (80.0).
pub const DEFAULT_RADIUS: i64 = 80_000;

/// Globally tunable physics parameters, in milli-units.
#[derive(Clone, Copy, Debug, PartialEq, Eq, Structural)]
pub struct GlobalParameters {
    pub viscosity: i64,
    pub gravity: i64,
    pub wall_repel: i64,
    pub time_scale: i64,
}

impl GlobalParameters {
    /// Every parameter lies within its accepted tuning range.
    pub open spec fn wf(self) -> bool {
        &&& VISCOSITY_MIN <= self.viscosity <= VISCOSITY_MAX
        &&& 0 <= self.gravity <= GRAVITY_MAX
        &&& 0 <= self.wall_repel <= WALL_REPEL_MAX
        &&& TIME_SCALE_MIN <= self.time_scale <= TIME_SCALE_MAX
    }
}

impl Default for GlobalParameters {
    fn default() -> (r: Self)
        ensures
            r == (GlobalParameters {
                viscosity: 700,
                gravity: 0,
                wall_repel: 40_000,
                time_scale: 1_000,
            }),
            r.wf(),
    {
        GlobalParameters { viscosity: 700, gravity: 0, wall_repel: 40_000, time_scale: 1_000 }
    }
}

/// The active rule matrix: `species_count * species_count` coefficients,
/// row-major by (acting species, other species), in milli-units.
#[derive(Clone, Debug)]
pub struct InteractionRules {
    pub rules: Vec<i64>,
    pub species_count: usize,
}

impl InteractionRules {
    /// The matrix is square and every coefficient lies in the rule range.
    pub open spec fn wf(self) -> bool {
        &&& self.rules@.len() == self.species_count * self.species_count
        &&& forall|i: int|
            0 <= i < self.rules@.len() ==> -RULE_LIMIT <= #[trigger] self.rules@[i] <= RULE_LIMIT
    }

    /// The coefficient a particle of species `s1` feels toward one of
    /// species `s2`.
    pub fn get(&self, s1: usize, s2: usize) -> (r: i64)
        requires
            self.rules@.len() == self.species_count * self.species_count,
            s1 < self.species_count,
            s2 < self.species_count,
        ensures
            r == self.rules@[s1 * self.species_count + s2],
    {
        let len = self.rules.len();
        proof {
            lemma_row_major_index(self.species_count as int, s1 as int, s2 as int);
        }
        let idx = s1 * self.species_count + s2;
        self.rules[idx]
    }
}

impl Default for InteractionRules {
    fn default() -> (r: Self)
        ensures
            r.rules@.len() == 0,
            r.species_count == 0,
    {
        InteractionRules { rules: Vec::new(), species_count: 0 }
    }
}

/// A row-major index into a square matrix stays within it.
#[verifier::nonlinear]
pub proof fn lemma_row_major_index(n: int, s1: int, s2: int)
    requires
        0 <= s1 < n,
        0 <= s2 < n,
    ensures
        0 <= s1 * n + s2 < n * n,
        s1 * n <= (n - 1) * n,
{
}

/// The active per-species interaction radii (milli-units) beside their
/// squares, kept in step so the inner force loop can compare squared
/// distances directly.
#[derive(Clone, Debug)]
pub struct SpeciesRadii {
    pub radii: Vec<i64>,
    pub radii_sqr: Vec<i64>,
}

impl SpeciesRadii {
    /// Radii lie in the accepted range and each stored square matches.
    pub open spec fn wf(self) -> bool {
        &&& self.radii_sqr@.len() == self.radii@.len()
        &&& forall|i: int|
            0 <= i < self.radii@.len() ==> RADIUS_FLOOR <= #[trigger] self.radii@[i] <= RADIUS_CEIL
        &&& forall|i: int|
            0 <= i < self.radii@.len() ==> #[trigger] self.radii_sqr@[i] == self.radii@[i] * self.radii@[i]
    }

    pub fn new(species_count: usize) -> (r: Self)
        ensures
            r.wf(),
            r.radii@.len() == species_count,
            forall|i: int| 0 <= i < species_count ==> #[trigger] r.radii@[i] == DEFAULT_RADIUS,
    {
        let mut radii: Vec<i64> = Vec::new();
        let mut radii_sqr: Vec<i64> = Vec::new();
        let mut s: usize = 0;
        while s < species_count
            invariant
                s <= species_count,
                radii@.len() == s,
                radii_sqr@.len() == s,
                forall|i: int| 0 <= i < s ==> #[trigger] radii@[i] == DEFAULT_RADIUS,
                forall|i: int|
                    0 <= i < s ==> #[trigger] radii_sqr@[i] == DEFAULT_RADIUS * DEFAULT_RADIUS,
            decreases species_count - s,
        {
            radii.push(DEFAULT_RADIUS);
            radii_sqr.push(DEFAULT_RADIUS * DEFAULT_RADIUS);
            s += 1;
        }
        SpeciesRadii { radii, radii_sqr }
    }

    /// Replace the radii with `radii`, recomputing the stored squares.
    pub fn set_radii(&mut self, radii: &Vec<i64>)
        requires
            forall|i: int|
                0 <= i < radii@.len() ==> RADIUS_FLOOR <= #[trigger] radii@[i] <= RADIUS_CEIL,
        ensures
            final(self).radii@ == radii@,
            final(self).wf(),
    {
        let mut new_radii: Vec<i64> = Vec::new();
        let mut new_sqr: Vec<i64> = Vec::new();
        let mut s: usize = 0;
        while s < radii.len()
            invariant
                s <= radii@.len(),
                new_radii@ == radii@.subrange(0, s as int),
                new_sqr@.len() == s,
                forall|i: int|
                    0 <= i < radii@.len() ==> RADIUS_FLOOR <= #[trigger] radii@[i] <= RADIUS_CEIL,
                forall|i: int|
                    0 <= i < s ==> #[trigger] new_sqr@[i] == radii@[i] * radii@[i],
            decreases radii@.len() - s,
        {
            let r = radii[s];
            proof {
                crate::fixed::lemma_square_bound(r as int, RADIUS_CEIL as int);
            }
            new_radii.push(r);
            new_sqr.push(r * r);
            proof {
                assert(new_radii@ =~= radii@.subrange(0, s as int + 1));
            }
            s += 1;
        }
        proof {
            assert(new_radii@ =~= radii@);
        }
        self.radii = new_radii;
        self.radii_sqr = new_sqr;
    }

    /// The squared interaction radius of species `s`.
    pub fn radius_sqr(&self, s: usize) -> (r: i64)
        requires
            self.wf(),
            s < self.radii@.len(),
        ensures
            r == self.radii@[s as int] * self.radii@[s as int],
    {
        self.radii_sqr[s]
    }
}

/// Frame-counted state of the evolution controller.
#[derive(Clone, Copy, Debug, PartialEq, Eq, Structural)]
pub struct AdaptiveLearningState {
    /// Ticks seen so far.
    pub frame_count: usize,
    /// Ticks each genome is simulated for before it is scored.
    pub evaluate_interval: usize,
    /// Displayed mutation rate in milli-units; informational only — the
    /// reproduction step uses a fixed probability.
    pub mutation_rate: i64,
    /// The most recently computed fitness score, in micro-units.
    pub last_score: i64,
    /// Genomes already scored in the current reproduction cycle.
    pub tested_count: usize,
}

impl Default for AdaptiveLearningState {
    fn default() -> (r: Self)
        ensures
            r == (AdaptiveLearningState {
                frame_count: 0,
                evaluate_interval: 600,
                mutation_rate: 50,
                last_score: 0,
                tested_count: 0,
            }),
    {
        AdaptiveLearningState {
            frame_count: 0,
            evaluate_interval: 600,
            mutation_rate: 50,
            last_score: 0,
            tested_count: 0,
        }
    }
}

/// Index of the genome currently driving the simulation.
#[derive(Clone, Copy, Debug, PartialEq, Eq, Structural)]
pub struct CurrentGenomeIndex(pub usize);

/// Parameters of the particle population itself.
#[derive(Clone, Copy, Debug, PartialEq, Eq, Structural)]
pub struct SimulationParameters {
    pub particles_per_species: usize,
}

impl Default for SimulationParameters {
    fn default() -> (r: Self)
        ensures
            r == (SimulationParameters { particles_per_species: 200 }),
    {
        SimulationParameters { particles_per_species: 200 }
    }
}

/// The selectable fitness scoring function.
#[derive(Clone, Copy, Debug, PartialEq, Eq, Structural)]
pub enum FitnessMetric {
    Cohesion,
    Dispersion,
    Coverage,
}

impl Default for FitnessMetric {
    fn default() -> (r: Self)
        ensures
            r == FitnessMetric::Cohesion,
    {
        FitnessMetric::Cohesion
    }
}

} // verus!
