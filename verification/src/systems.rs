//! The per-tick simulation systems: pairwise force integration, boundary
//! reflection, particle spawning, and the evolution controller.
//!
//! The force integrator reads one consistent snapshot of all positions and
//! velocities: every new state is computed from the old vector before any of
//! it is committed.

use vstd::prelude::*;

use vstd::arithmetic::div_mod::{lemma_div_basics, lemma_div_is_ordered, lemma_div_multiples_vanish};

use crate::components::{
    obstacles_wf, particles_wf, sq_dist_exec, sq_dist_pt, Obstacle, Particle, Vec2,
};
use crate::fixed::{
    cap_add, cap_int, isqrt64, lemma_sqrt_floor_bounds, lemma_square_bound, mul_div_cap,
    mul_div_int, sqrt_floor, COORD_LIMIT, UNIT,
};
use crate::fitness::{evaluate, evaluate_spec};
use crate::genome::{clone_genome, copy_genes, genome_wf, GenomeView, RULE_LIMIT};
use crate::population::{sort_desc, views, Population};
use crate::resources::{
    AdaptiveLearningState, CurrentGenomeIndex, FitnessMetric, GlobalParameters, InteractionRules,
    SimulationParameters, SpeciesRadii,
};
use crate::rng::rng_range;

verus! {

/// How far outside an obstacle's edge its repulsion still acts (5.0).
pub const WALL_MARGIN: i64 = 5_000;

/// The rule coefficient a particle of species `s1` applies toward one of
/// species `s2`, in the row-major matrix `rules`.
pub open spec fn rule_coeff(rules: Seq<i64>, sc: int, s1: int, s2: int) -> i64 {
    rules[s1 * sc + s2]
}

/// Force along x that `p2` exerts on `p1` under coefficient `rule`, when the
/// squared distance is positive and below `r2`; zero otherwise.
pub open spec fn pair_contrib_x(p1: Particle, p2: Particle, rule: i64, r2: int) -> int {
    let dx = p1.position.x - p2.position.x;
    let d2 = sq_dist_pt(p1.position, p2.position);
    if 0 < d2 < r2 {
        mul_div_int(rule as int, dx, sqrt_floor(d2 as nat) as int)
    } else {
        0
    }
}

/// Force along y that `p2` exerts on `p1`; see `pair_contrib_x`.
pub open spec fn pair_contrib_y(p1: Particle, p2: Particle, rule: i64, r2: int) -> int {
    let dy = p1.position.y - p2.position.y;
    let d2 = sq_dist_pt(p1.position, p2.position);
    if 0 < d2 < r2 {
        mul_div_int(rule as int, dy, sqrt_floor(d2 as nat) as int)
    } else {
        0
    }
}

/// Accumulated pair force along x on particle `i` from the first `n`
/// particles (skipping `i` itself), clamped at every step.
pub open spec fn pair_sum_x(
    ps: Seq<Particle>,
    i: int,
    rules: Seq<i64>,
    sc: int,
    r2: int,
    n: int,
) -> int
    decreases n,
{
    if n <= 0 {
        0
    } else {
        let acc = pair_sum_x(ps, i, rules, sc, r2, n - 1);
        if n - 1 == i {
            acc
        } else {
            cap_int(
                acc + pair_contrib_x(
                    ps[i],
                    ps[n - 1],
                    rule_coeff(rules, sc, ps[i].species as int, ps[n - 1].species as int),
                    r2,
                ),
            )
        }
    }
}

/// Accumulated pair force along y; see `pair_sum_x`.
pub open spec fn pair_sum_y(
    ps: Seq<Particle>,
    i: int,
    rules: Seq<i64>,
    sc: int,
    r2: int,
    n: int,
) -> int
    decreases n,
{
    if n <= 0 {
        0
    } else {
        let acc = pair_sum_y(ps, i, rules, sc, r2, n - 1);
        if n - 1 == i {
            acc
        } else {
            cap_int(
                acc + pair_contrib_y(
                    ps[i],
                    ps[n - 1],
                    rule_coeff(rules, sc, ps[i].species as int, ps[n - 1].species as int),
                    r2,
                ),
            )
        }
    }
}

/// Repulsion along x from obstacle `o` on particle `p`: magnitude
/// `wall_repel / distance` directed away from the center, acting within
/// `WALL_MARGIN` of the obstacle's edge.
pub open spec fn obstacle_contrib_x(p: Particle, o: Obstacle, wall_repel: i64) -> int {
    let dx = p.position.x - o.center.x;
    let d2 = sq_dist_pt(p.position, o.center);
    let rr = o.radius + WALL_MARGIN;
    if 0 < d2 < rr * rr {
        mul_div_int(wall_repel * UNIT, dx, d2)
    } else {
        0
    }
}

/// Repulsion along y; see `obstacle_contrib_x`.
pub open spec fn obstacle_contrib_y(p: Particle, o: Obstacle, wall_repel: i64) -> int {
    let dy = p.position.y - o.center.y;
    let d2 = sq_dist_pt(p.position, o.center);
    let rr = o.radius + WALL_MARGIN;
    if 0 < d2 < rr * rr {
        mul_div_int(wall_repel * UNIT, dy, d2)
    } else {
        0
    }
}

/// `base` plus the accumulated obstacle repulsion along x from the first
/// `n` obstacles, clamped at every step.
pub open spec fn obstacle_sum_x(
    p: Particle,
    obs: Seq<Obstacle>,
    wall_repel: i64,
    base: int,
    n: int,
) -> int
    decreases n,
{
    if n <= 0 {
        base
    } else {
        cap_int(
            obstacle_sum_x(p, obs, wall_repel, base, n - 1) + obstacle_contrib_x(
                p,
                obs[n - 1],
                wall_repel,
            ),
        )
    }
}

/// Accumulated obstacle repulsion along y; see `obstacle_sum_x`.
pub open spec fn obstacle_sum_y(
    p: Particle,
    obs: Seq<Obstacle>,
    wall_repel: i64,
    base: int,
    n: int,
) -> int
    decreases n,
{
    if n <= 0 {
        base
    } else {
        cap_int(
            obstacle_sum_y(p, obs, wall_repel, base, n - 1) + obstacle_contrib_y(
                p,
                obs[n - 1],
                wall_repel,
            ),
        )
    }
}

/// One integration step for particle `i` against the snapshot `ps`: pair
/// forces, obstacle repulsion, gravity, viscosity blend, position update.
pub open spec fn step_particle(
    ps: Seq<Particle>,
    i: int,
    rules: Seq<i64>,
    sc: int,
    radii: Seq<i64>,
    obs: Seq<Obstacle>,
    params: GlobalParameters,
) -> Particle {
    let p = ps[i];
    let r2 = radii[p.species as int] * radii[p.species as int];
    let fx = obstacle_sum_x(
        p,
        obs,
        params.wall_repel,
        pair_sum_x(ps, i, rules, sc, r2, ps.len() as int),
        obs.len() as int,
    );
    let fy0 = obstacle_sum_y(
        p,
        obs,
        params.wall_repel,
        pair_sum_y(ps, i, rules, sc, r2, ps.len() as int),
        obs.len() as int,
    );
    let fy = cap_int(fy0 + -params.gravity);
    let vmix = 1000 - params.viscosity as int;
    let vx = cap_int(
        mul_div_int(p.velocity.x as int, vmix, 1000) + mul_div_int(fx, params.time_scale as int, 1000),
    );
    let vy = cap_int(
        mul_div_int(p.velocity.y as int, vmix, 1000) + mul_div_int(fy, params.time_scale as int, 1000),
    );
    Particle {
        species: p.species,
        position: Vec2 {
            x: cap_int(p.position.x + vx) as i64,
            y: cap_int(p.position.y + vy) as i64,
        },
        velocity: Vec2 { x: vx as i64, y: vy as i64 },
    }
}

/// The force integrator: every particle's new velocity and position are
/// computed from one snapshot of the whole vector, then committed together.
pub fn physics_system(
    particles: &mut Vec<Particle>,
    params: &GlobalParameters,
    interaction_rules: &InteractionRules,
    species_radii: &SpeciesRadii,
    obstacles: &Vec<Obstacle>,
)
    requires
        particles_wf(old(particles)@, interaction_rules.species_count as int),
        params.wf(),
        interaction_rules.wf(),
        species_radii.wf(),
        species_radii.radii@.len() == interaction_rules.species_count,
        obstacles_wf(obstacles@),
    ensures
        final(particles)@.len() == old(particles)@.len(),
        forall|i: int|
            0 <= i < old(particles)@.len() ==> #[trigger] final(particles)@[i] == step_particle(
                old(particles)@,
                i,
                interaction_rules.rules@,
                interaction_rules.species_count as int,
                species_radii.radii@,
                obstacles@,
                *params,
            ),
        particles_wf(final(particles)@, interaction_rules.species_count as int),
{
    let ghost ps0 = particles@;
    let ghost sc = interaction_rules.species_count as int;
    let n = particles.len();
    let mut out: Vec<Particle> = Vec::new();
    let mut i: usize = 0;
    while i < n
        invariant
            i <= n,
            n == particles@.len(),
            particles@ == ps0,
            particles_wf(ps0, sc),
            params.wf(),
            interaction_rules.wf(),
            species_radii.wf(),
            species_radii.radii@.len() == interaction_rules.species_count,
            obstacles_wf(obstacles@),
            sc == interaction_rules.species_count as int,
            out@.len() == i,
            forall|m: int|
                0 <= m < i ==> #[trigger] out@[m] == step_particle(
                    ps0,
                    m,
                    interaction_rules.rules@,
                    sc,
                    species_radii.radii@,
                    obstacles@,
                    *params,
                ),
            forall|m: int| 0 <= m < i ==> (#[trigger] out@[m]).wf(),
        decreases n - i,
    {
        let p = particles[i];
        let r2 = species_radii.radius_sqr(p.species);
        let ghost r2s = r2 as int;
        let mut fx: i64 = 0;
        let mut fy: i64 = 0;
        let mut j: usize = 0;
        while j < n
            invariant
                j <= n,
                n == particles@.len(),
                particles@ == ps0,
                particles_wf(ps0, sc),
                i < n,
                p == ps0[i as int],
                interaction_rules.wf(),
                sc == interaction_rules.species_count as int,
                r2s == r2 as int,
                fx as int == pair_sum_x(ps0, i as int, interaction_rules.rules@, sc, r2s, j as int),
                fy as int == pair_sum_y(ps0, i as int, interaction_rules.rules@, sc, r2s, j as int),
                -COORD_LIMIT <= fx <= COORD_LIMIT,
                -COORD_LIMIT <= fy <= COORD_LIMIT,
            decreases n - j,
        {
            if j != i {
                let q = particles[j];
                let d2 = sq_dist_exec(p.position, q.position.x, q.position.y);
                if 0 < d2 && d2 < r2 {
                    let dist = isqrt64(d2 as u64);
                    proof {
                        assert(dist >= 1) by (nonlinear_arith)
                            requires
                                (d2 as int) < (dist as int + 1) * (dist as int + 1),
                                d2 as int >= 1,
                                dist as int >= 0;
                    }
                    let coeff = interaction_rules.get(p.species, q.species);
                    let dx = p.position.x - q.position.x;
                    let dy = p.position.y - q.position.y;
                    let cx = mul_div_cap(coeff, dx, dist as i64);
                    let cy = mul_div_cap(coeff, dy, dist as i64);
                    fx = cap_add(fx, cx);
                    fy = cap_add(fy, cy);
                } else {
                    proof {
                        assert(pair_contrib_x(ps0[i as int], ps0[j as int], rule_coeff(
                            interaction_rules.rules@, sc, ps0[i as int].species as int,
                            ps0[j as int].species as int,
                        ), r2s) == 0);
                        assert(pair_contrib_y(ps0[i as int], ps0[j as int], rule_coeff(
                            interaction_rules.rules@, sc, ps0[i as int].species as int,
                            ps0[j as int].species as int,
                        ), r2s) == 0);
                    }
                }
            }
            j += 1;
        }
        let ghost base_x = fx as int;
        let ghost base_y = fy as int;
        let mut k: usize = 0;
        while k < obstacles.len()
            invariant
                k <= obstacles@.len(),
                p == ps0[i as int],
                p.wf(),
                params.wf(),
                obstacles_wf(obstacles@),
                fx as int == obstacle_sum_x(p, obstacles@, params.wall_repel, base_x, k as int),
                fy as int == obstacle_sum_y(p, obstacles@, params.wall_repel, base_y, k as int),
                -COORD_LIMIT <= fx <= COORD_LIMIT,
                -COORD_LIMIT <= fy <= COORD_LIMIT,
            decreases obstacles@.len() - k,
        {
            let o = obstacles[k];
            let d2 = sq_dist_exec(p.position, o.center.x, o.center.y);
            let rr = o.radius + WALL_MARGIN;
            proof {
                lemma_square_bound(rr as int, COORD_LIMIT as int + WALL_MARGIN as int);
            }
            let rr2 = rr * rr;
            if 0 < d2 && d2 < rr2 {
                let wrs = params.wall_repel * UNIT;
                let dx = p.position.x - o.center.x;
                let dy = p.position.y - o.center.y;
                fx = cap_add(fx, mul_div_cap(wrs, dx, d2));
                fy = cap_add(fy, mul_div_cap(wrs, dy, d2));
            } else {
                proof {
                    assert(obstacle_contrib_x(p, obstacles@[k as int], params.wall_repel) == 0);
                    assert(obstacle_contrib_y(p, obstacles@[k as int], params.wall_repel) == 0);
                }
            }
            k += 1;
        }
        fy = cap_add(fy, -params.gravity);
        let vmix = 1000 - params.viscosity;
        let vx = cap_add(mul_div_cap(p.velocity.x, vmix, 1000), mul_div_cap(fx, params.time_scale, 1000));
        let vy = cap_add(mul_div_cap(p.velocity.y, vmix, 1000), mul_div_cap(fy, params.time_scale, 1000));
        let nx = cap_add(p.position.x, vx);
        let ny = cap_add(p.position.y, vy);
        out.push(Particle { species: p.species, position: Vec2 { x: nx, y: ny }, velocity: Vec2 { x: vx, y: vy } });
        i += 1;
    }
    *particles = out;
}

/// The reflection of one particle off the world rectangle: each axis is
/// clamped to its half-extent and the velocity on a crossed axis negated,
/// both axes checked independently.
pub open spec fn reflect(p: Particle, half_w: int, half_h: int) -> Particle {
    let lo_x = if p.position.x <= -half_w {
        (-half_w, -p.velocity.x as int)
    } else {
        (p.position.x as int, p.velocity.x as int)
    };
    let fin_x = if lo_x.0 >= half_w {
        (half_w, -lo_x.1)
    } else {
        lo_x
    };
    let lo_y = if p.position.y <= -half_h {
        (-half_h, -p.velocity.y as int)
    } else {
        (p.position.y as int, p.velocity.y as int)
    };
    let fin_y = if lo_y.0 >= half_h {
        (half_h, -lo_y.1)
    } else {
        lo_y
    };
    Particle {
        species: p.species,
        position: Vec2 { x: fin_x.0 as i64, y: fin_y.0 as i64 },
        velocity: Vec2 { x: fin_x.1 as i64, y: fin_y.1 as i64 },
    }
}

/// The boundary reflector: clamp every particle to the world rectangle and
/// negate the velocity on each crossed axis.
pub fn boundary_system(particles: &mut Vec<Particle>, half_w: i64, half_h: i64)
    requires
        0 <= half_w <= COORD_LIMIT,
        0 <= half_h <= COORD_LIMIT,
        forall|i: int| 0 <= i < old(particles)@.len() ==> (#[trigger] old(particles)@[i]).wf(),
    ensures
        final(particles)@.len() == old(particles)@.len(),
        forall|i: int|
            0 <= i < old(particles)@.len() ==> #[trigger] final(particles)@[i] == reflect(
                old(particles)@[i],
                half_w as int,
                half_h as int,
            ),
        forall|i: int| 0 <= i < final(particles)@.len() ==> (#[trigger] final(particles)@[i]).wf(),
{
    let ghost ps0 = particles@;
    let n = particles.len();
    let mut i: usize = 0;
    while i < n
        invariant
            i <= n,
            n == particles@.len(),
            n == ps0.len(),
            0 <= half_w <= COORD_LIMIT,
            0 <= half_h <= COORD_LIMIT,
            forall|m: int| 0 <= m < n ==> (#[trigger] ps0[m]).wf(),
            forall|m: int| i <= m < n ==> #[trigger] particles@[m] == ps0[m],
            forall|m: int|
                0 <= m < i ==> #[trigger] particles@[m] == reflect(ps0[m], half_w as int, half_h as int),
            forall|m: int| 0 <= m < i ==> (#[trigger] particles@[m]).wf(),
        decreases n - i,
    {
        let p = particles[i];
        let mut x = p.position.x;
        let mut y = p.position.y;
        let mut vx = p.velocity.x;
        let mut vy = p.velocity.y;
        if x <= -half_w {
            x = -half_w;
            vx = -vx;
        }
        if x >= half_w {
            x = half_w;
            vx = -vx;
        }
        if y <= -half_h {
            y = -half_h;
            vy = -vy;
        }
        if y >= half_h {
            y = half_h;
            vy = -vy;
        }
        let updated = Particle { species: p.species, position: Vec2 { x, y }, velocity: Vec2 { x: vx, y: vy } };
        particles.set(i, updated);
        i += 1;
    }
}

/// A particle sitting exactly on the right wall with outward velocity is
/// held at the wall and its horizontal velocity negated.
pub proof fn lemma_reflect_at_wall(p: Particle, half_w: int, half_h: int)
    requires
        p.wf(),
        0 < half_w,
        p.position.x == half_w,
        p.velocity.x > 0,
    ensures
        reflect(p, half_w, half_h).position.x == half_w,
        reflect(p, half_w, half_h).velocity.x == -p.velocity.x,
{
}

/// With the largest positive coefficient, the pair force on the first
/// particle has positive inner product with the separation vector
/// `p1 - p2`: it accelerates the particle directly away from the other, so
/// a positive rule is repulsion under this force law.
pub proof fn lemma_pair_force_along_separation(p1: Particle, p2: Particle, r2: int)
    requires
        p1.wf(),
        p2.wf(),
        0 < sq_dist_pt(p1.position, p2.position),
        sq_dist_pt(p1.position, p2.position) < r2,
    ensures
        pair_contrib_x(p1, p2, RULE_LIMIT, r2) * (p1.position.x - p2.position.x) + pair_contrib_y(
            p1,
            p2,
            RULE_LIMIT,
            r2,
        ) * (p1.position.y - p2.position.y) > 0,
{
    let dx = p1.position.x - p2.position.x;
    let dy = p1.position.y - p2.position.y;
    let d2 = sq_dist_pt(p1.position, p2.position);
    assert(d2 == dx * dx + dy * dy);
    lemma_sqrt_floor_bounds(d2 as nat);
    let dist = sqrt_floor(d2 as nat) as int;
    assert(dist * dist <= d2);
    assert(d2 < (dist + 1) * (dist + 1));
    assert(dist >= 1) by (nonlinear_arith)
        requires
            d2 < (dist + 1) * (dist + 1),
            d2 >= 1,
            dist >= 0;
    assert(-dist <= dx <= dist) by (nonlinear_arith)
        requires
            dist >= 0,
            d2 == dx * dx + dy * dy,
            d2 < (dist + 1) * (dist + 1);
    assert(-dist <= dy <= dist) by (nonlinear_arith)
        requires
            dist >= 0,
            d2 == dx * dx + dy * dy,
            d2 < (dist + 1) * (dist + 1);
    assert(2 * dx >= dist || -(2 * dx) >= dist || 2 * dy >= dist || -(2 * dy) >= dist)
        by (nonlinear_arith)
        requires
            dist >= 1,
            d2 == dx * dx + dy * dy,
            dist * dist <= d2;
    lemma_axis_contrib(dx, dist);
    lemma_axis_contrib(dy, dist);
    assert(pair_contrib_x(p1, p2, RULE_LIMIT, r2) == mul_div_int(RULE_LIMIT as int, dx, dist));
    assert(pair_contrib_y(p1, p2, RULE_LIMIT, r2) == mul_div_int(RULE_LIMIT as int, dy, dist));
}

/// The positions of all particles, in order.
pub open spec fn positions_view(s: Seq<Particle>) -> Seq<Vec2> {
    s.map_values(|p: Particle| p.position)
}

/// Collect every particle's position.
pub fn positions_of(particles: &Vec<Particle>) -> (ps: Vec<Vec2>)
    ensures
        ps@ == positions_view(particles@),
{
    let mut ps: Vec<Vec2> = Vec::new();
    let mut i: usize = 0;
    while i < particles.len()
        invariant
            i <= particles@.len(),
            ps@.len() == i,
            forall|m: int| 0 <= m < i ==> #[trigger] ps@[m] == particles@[m].position,
        decreases particles@.len() - i,
    {
        ps.push(particles[i].position);
        i += 1;
    }
    proof {
        assert(ps@ =~= positions_view(particles@));
    }
    ps
}

/// A fresh particle set: `per_species` particles of each species, placed
/// uniformly within the world rectangle, at rest, grouped by species.
pub fn spawn_particles(
    species_count: usize,
    per_species: usize,
    half_w: i64,
    half_h: i64,
    rng: &mut rand::rngs::StdRng,
) -> (ps: Vec<Particle>)
    requires
        0 <= half_w <= COORD_LIMIT,
        0 <= half_h <= COORD_LIMIT,
        1 <= per_species,
        species_count * per_species <= usize::MAX,
    ensures
        ps@.len() == species_count * per_species,
        particles_wf(ps@, species_count as int),
        forall|i: int|
            0 <= i < ps@.len() ==> (#[trigger] ps@[i]).species as int == i / (per_species as int),
        forall|i: int|
            0 <= i < ps@.len() ==> -half_w <= (#[trigger] ps@[i]).position.x <= half_w && -half_h
                <= ps@[i].position.y <= half_h,
        forall|i: int| 0 <= i < ps@.len() ==> (#[trigger] ps@[i]).velocity == (Vec2 { x: 0, y: 0 }),
{
    let mut ps: Vec<Particle> = Vec::new();
    let mut s: usize = 0;
    while s < species_count
        invariant
            s <= species_count,
            0 <= half_w <= COORD_LIMIT,
            0 <= half_h <= COORD_LIMIT,
            1 <= per_species,
            species_count * per_species <= usize::MAX,
            ps@.len() == s * per_species,
            forall|i: int|
                0 <= i < ps@.len() ==> (#[trigger] ps@[i]).wf() && ps@[i].species < species_count,
            forall|i: int|
                0 <= i < ps@.len() ==> (#[trigger] ps@[i]).species as int == i / (per_species as int),
            forall|i: int|
                0 <= i < ps@.len() ==> -half_w <= (#[trigger] ps@[i]).position.x <= half_w && -half_h
                    <= ps@[i].position.y <= half_h,
            forall|i: int|
                0 <= i < ps@.len() ==> (#[trigger] ps@[i]).velocity == (Vec2 { x: 0, y: 0 }),
        decreases species_count - s,
    {
        proof {
            vstd::arithmetic::mul::lemma_mul_inequality(
                s as int + 1,
                species_count as int,
                per_species as int,
            );
            vstd::arithmetic::mul::lemma_mul_is_distributive_add_other_way(
                per_species as int,
                s as int,
                1,
            );
        }
        let mut c: usize = 0;
        while c < per_species
            invariant
                c <= per_species,
                s < species_count,
                0 <= half_w <= COORD_LIMIT,
                0 <= half_h <= COORD_LIMIT,
                1 <= per_species,
                species_count * per_species <= usize::MAX,
                (s as int + 1) * (per_species as int) <= species_count * per_species,
                (s as int + 1) * (per_species as int) == s * per_species + per_species,
                ps@.len() == s * per_species + c,
                forall|i: int|
                    0 <= i < ps@.len() ==> (#[trigger] ps@[i]).wf() && ps@[i].species
                        < species_count,
                forall|i: int|
                    0 <= i < ps@.len() ==> (#[trigger] ps@[i]).species as int == i / (
                    per_species as int),
                forall|i: int|
                    0 <= i < ps@.len() ==> -half_w <= (#[trigger] ps@[i]).position.x <= half_w
                        && -half_h <= ps@[i].position.y <= half_h,
                forall|i: int|
                    0 <= i < ps@.len() ==> (#[trigger] ps@[i]).velocity == (Vec2 { x: 0, y: 0 }),
            decreases per_species - c,
        {
            let x = rng_range(rng, -half_w, half_w);
            let y = rng_range(rng, -half_h, half_h);
            let p = Particle {
                species: s,
                position: Vec2 { x, y },
                velocity: Vec2 { x: 0, y: 0 },
            };
            proof {
                vstd::arithmetic::div_mod::lemma_div_multiples_vanish_fancy(
                    s as int,
                    c as int,
                    per_species as int,
                );
                assert((per_species as int) * (s as int) == (s as int) * (per_species as int))
                    by (nonlinear_arith);
            }
            ps.push(p);
            c += 1;
        }
        s += 1;
    }
    ps
}

/// Copy the rules and radii of the genome at `idx` into the active
/// configuration, recomputing the squared radii.
pub fn refresh_active_config(
    population: &Population,
    idx: usize,
    interaction_rules: &mut InteractionRules,
    species_radii: &mut SpeciesRadii,
)
    requires
        population.wf(),
        idx < population.genomes@.len(),
    ensures
        final(interaction_rules).species_count == population.species_count,
        final(interaction_rules).rules@ == views(population.genomes@)[idx as int].rules,
        final(interaction_rules).wf(),
        final(species_radii).radii@ == views(population.genomes@)[idx as int].radii,
        final(species_radii).wf(),
        final(species_radii).radii@.len() == population.species_count,
{
    let g = &population.genomes[idx];
    proof {
        assert(g@ == views(population.genomes@)[idx as int]);
    }
    interaction_rules.rules = copy_genes(&g.rules);
    interaction_rules.species_count = population.species_count;
    species_radii.set_radii(&g.radii);
}

/// The single static obstacle the simulation starts with: a circle of
/// radius 50 at the center of the world.
pub fn default_obstacles() -> (obs: Vec<Obstacle>)
    ensures
        obs@.len() == 1,
        obs@[0] == (Obstacle { center: Vec2 { x: 0, y: 0 }, radius: 50_000 }),
        obstacles_wf(obs@),
{
    let mut obs: Vec<Obstacle> = Vec::new();
    obs.push(Obstacle { center: Vec2 { x: 0, y: 0 }, radius: 50_000 });
    obs
}

/// Initial setup: apply the genome under evaluation to the active
/// configuration and sample the starting particle set.
pub fn setup_system(
    population: &Population,
    interaction_rules: &mut InteractionRules,
    species_radii: &mut SpeciesRadii,
    current_index: &CurrentGenomeIndex,
    sim_params: &SimulationParameters,
    half_w: i64,
    half_h: i64,
    rng: &mut rand::rngs::StdRng,
) -> (particles: Vec<Particle>)
    requires
        population.wf(),
        current_index.0 < population.genomes@.len(),
        0 <= half_w <= COORD_LIMIT,
        0 <= half_h <= COORD_LIMIT,
        1 <= sim_params.particles_per_species,
        population.species_count * sim_params.particles_per_species <= usize::MAX,
    ensures
        final(interaction_rules).species_count == population.species_count,
        final(interaction_rules).rules@ == views(population.genomes@)[current_index.0 as int].rules,
        final(interaction_rules).wf(),
        final(species_radii).radii@ == views(population.genomes@)[current_index.0 as int].radii,
        final(species_radii).wf(),
        particles@.len() == population.species_count * sim_params.particles_per_species,
        particles_wf(particles@, population.species_count as int),
        forall|i: int|
            0 <= i < particles@.len() ==> (#[trigger] particles@[i]).velocity == (Vec2 {
                x: 0,
                y: 0,
            }),
{
    refresh_active_config(population, current_index.0, interaction_rules, species_radii);
    spawn_particles(
        population.species_count,
        sim_params.particles_per_species,
        half_w,
        half_h,
        rng,
    )
}

/// `g` with its fitness replaced.
pub open spec fn with_fitness(g: GenomeView, f: i64) -> GenomeView {
    GenomeView { fitness: f, ..g }
}

/// The population's genome views after the genome at `idx` received the
/// score `f`.
pub open spec fn scored_views(s: Seq<GenomeView>, idx: int, f: i64) -> Seq<GenomeView> {
    s.update(idx, with_fitness(s[idx], f))
}

/// Whether the tick that takes the frame count to `frames` is an evaluation
/// event.
pub open spec fn evaluation_fires(frames: int, interval: int) -> bool {
    frames % interval == 0
}

/// One controller tick. The frame counter always advances. On an
/// evaluation event the controller scores the active genome from the
/// particle positions, records `(generation, score)` for the result sink,
/// reproduces the population once every genome has been tested, advances
/// the genome index cyclically, refreshes the active configuration from the
/// newly active genome, and replaces the particle set wholesale; on any
/// other tick it changes nothing else and records nothing.
pub fn adaptive_learning_system(
    state: &mut AdaptiveLearningState,
    population: &mut Population,
    interaction_rules: &mut InteractionRules,
    species_radii: &mut SpeciesRadii,
    current_index: &mut CurrentGenomeIndex,
    particles: &mut Vec<Particle>,
    sim_params: &SimulationParameters,
    metric: &FitnessMetric,
    half_w: i64,
    half_h: i64,
    rng: &mut rand::rngs::StdRng,
) -> (record: Option<(usize, i64)>)
    requires
        old(state).evaluate_interval >= 1,
        old(state).frame_count < usize::MAX,
        old(population).wf(),
        old(population).genomes@.len() >= 2,
        old(population).generation < usize::MAX,
        old(current_index).0 < old(population).genomes@.len(),
        old(state).tested_count < old(population).genomes@.len(),
        particles_wf(old(particles)@, old(population).species_count as int),
        0 <= half_w <= COORD_LIMIT,
        0 <= half_h <= COORD_LIMIT,
        1 <= sim_params.particles_per_species,
        old(population).species_count * sim_params.particles_per_species <= usize::MAX,
    ensures
        final(state).frame_count == old(state).frame_count + 1,
        final(state).evaluate_interval == old(state).evaluate_interval,
        final(state).mutation_rate == old(state).mutation_rate,
        !evaluation_fires(old(state).frame_count + 1, old(state).evaluate_interval as int) ==> {
            &&& final(state).tested_count == old(state).tested_count
            &&& final(state).last_score == old(state).last_score
            &&& *final(population) == *old(population)
            &&& *final(interaction_rules) == *old(interaction_rules)
            &&& *final(species_radii) == *old(species_radii)
            &&& *final(current_index) == *old(current_index)
            &&& final(particles)@ == old(particles)@
            &&& record == None::<(usize, i64)>
        },
        evaluation_fires(old(state).frame_count + 1, old(state).evaluate_interval as int) ==> {
            let score = evaluate_spec(*metric, positions_view(old(particles)@));
            let scored = scored_views(
                views(old(population).genomes@),
                old(current_index).0 as int,
                score as i64,
            );
            let len = old(population).genomes@.len() as int;
            let reproduced = old(state).tested_count + 1 == len;
            &&& record == Some((old(population).generation, score as i64))
            &&& final(state).last_score as int == score
            &&& final(state).tested_count == (if reproduced {
                0int
            } else {
                old(state).tested_count + 1
            })
            &&& final(current_index).0 as int == (old(current_index).0 + 1) % len
            &&& final(population).wf()
            &&& final(population).species_count == old(population).species_count
            &&& final(population).genomes@.len() == old(population).genomes@.len()
            &&& (!reproduced ==> views(final(population).genomes@) == scored
                && final(population).generation == old(population).generation)
            &&& (reproduced ==> final(population).generation == old(population).generation + 1
                && views(final(population).genomes@)[0] == sort_desc(scored)[0]
                && views(final(population).genomes@)[1] == sort_desc(scored)[1])
            &&& final(interaction_rules).species_count == old(population).species_count
            &&& final(interaction_rules).rules@
                == views(final(population).genomes@)[final(current_index).0 as int].rules
            &&& final(interaction_rules).wf()
            &&& final(species_radii).radii@
                == views(final(population).genomes@)[final(current_index).0 as int].radii
            &&& final(species_radii).wf()
            &&& final(particles)@.len() == old(population).species_count
                * sim_params.particles_per_species
            &&& particles_wf(final(particles)@, old(population).species_count as int)
            &&& forall|i: int|
                0 <= i < final(particles)@.len() ==> (#[trigger] final(particles)@[i]).velocity
                    == (Vec2 { x: 0, y: 0 })
        },
{
    state.frame_count = state.frame_count + 1;
    if state.frame_count % state.evaluate_interval != 0 {
        return None;
    }
    let ghost orig_views = views(population.genomes@);
    let ghost sc = population.species_count as int;
    let positions = positions_of(particles);
    proof {
        assert forall|i: int| 0 <= i < positions@.len() implies (#[trigger] positions@[i]).wf() by {
            assert(positions@[i] == old(particles)@[i].position);
        }
    }
    let score = evaluate(metric, &positions);
    let idx = current_index.0;
    let mut g = clone_genome(&population.genomes[idx]);
    g.fitness = score;
    population.genomes.set(idx, g);
    proof {
        assert(views(population.genomes@) =~= scored_views(orig_views, idx as int, score));
        assert forall|i: int| 0 <= i < population.genomes@.len() implies genome_wf(
            #[trigger] views(population.genomes@)[i],
            sc,
        ) by {
            if i != idx as int {
                assert(views(population.genomes@)[i] == orig_views[i]);
            }
        }
    }
    state.last_score = score;
    let gen_for_record = population.generation;
    let len = population.genomes.len();
    state.tested_count = state.tested_count + 1;
    if state.tested_count == len {
        population.select_and_reproduce(rng);
        state.tested_count = 0;
    }
    let next = (idx + 1) % len;
    current_index.0 = next;
    refresh_active_config(population, next, interaction_rules, species_radii);
    let fresh = spawn_particles(
        population.species_count,
        sim_params.particles_per_species,
        half_w,
        half_h,
        rng,
    );
    *particles = fresh;
    Some((gen_for_record, score))
}

/// Along one axis, the pair force component never opposes the separation,
/// and strictly pushes along it when that component carries at least half
/// the distance.
proof fn lemma_axis_contrib(c: int, dist: int)
    requires
        1 <= dist,
        -dist <= c <= dist,
    ensures
        mul_div_int(1000, c, dist) * c >= 0,
        (2 * c >= dist || -(2 * c) >= dist) ==> mul_div_int(1000, c, dist) * c >= 1,
{
    let a = if c >= 0 { c } else { -c };
    assert(0 <= a <= dist);
    assert(1000 * a <= 1000 * dist) by (nonlinear_arith)
        requires a <= dist;
    lemma_div_is_ordered(1000 * a, 1000 * dist, dist);
    lemma_div_multiples_vanish(1000, dist);
    assert(dist * 1000 == 1000 * dist) by (nonlinear_arith);
    assert((1000 * a) / dist <= 1000);
    vstd::arithmetic::div_mod::lemma_div_pos_is_pos(1000 * a, dist);
    let q = (1000 * a) / dist;
    assert(0 <= q <= 1000);
    assert(mul_div_int(1000, c, dist) == (if c >= 0 { q } else { -q })) by {
        if c >= 0 {
            assert(1000 * c >= 0) by (nonlinear_arith)
                requires c >= 0;
            assert(cap_int(q) == q);
        } else {
            assert(1000 * c < 0 || c == 0) by (nonlinear_arith)
                requires c < 0;
            assert(-(1000 * c) == 1000 * a) by (nonlinear_arith)
                requires a == -c;
            assert(cap_int(q) == q);
        }
    }
    assert(mul_div_int(1000, c, dist) * c == q * a) by (nonlinear_arith)
        requires
            mul_div_int(1000, c, dist) == (if c >= 0 { q } else { -q }),
            a == (if c >= 0 { c } else { -c });
    assert(q * a >= 0) by (nonlinear_arith)
        requires q >= 0, a >= 0;
    if 2 * c >= dist || -(2 * c) >= dist {
        assert(2 * a >= dist);
        assert(a >= 1);
        assert(1000 * a >= dist) by (nonlinear_arith)
            requires 2 * a >= dist, a >= 0;
        lemma_div_is_ordered(dist, 1000 * a, dist);
        lemma_div_basics(dist);
        assert(q >= 1);
        assert(q * a >= 1) by (nonlinear_arith)
            requires q >= 1, a >= 1;
    }
}

} // verus!
