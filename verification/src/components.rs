//! The live simulation's data: 2-D vectors, particles and obstacles.

use vstd::prelude::*;

use crate::fixed::{lemma_signed_square_bound, COORD_LIMIT};

verus! {

/// The largest squared distance two in-range positions can have.
pub const SQ_DIST_CEIL: i64 = 8_000_000_000_000_000_000;

/// A 2-D vector in milli-units.
#[derive(Clone, Copy, Debug, PartialEq, Eq, Structural)]
pub struct Vec2 {
    pub x: i64,
    pub y: i64,
}

impl Vec2 {
    /// Both components lie within the coordinate range.
    pub open spec fn wf(self) -> bool {
        &&& -COORD_LIMIT <= self.x <= COORD_LIMIT
        &&& -COORD_LIMIT <= self.y <= COORD_LIMIT
    }

    pub fn zero() -> (v: Vec2)
        ensures
            v == (Vec2 { x: 0, y: 0 }),
    {
        Vec2 { x: 0, y: 0 }
    }
}

/// A point agent: species index, position and velocity.
#[derive(Clone, Copy, Debug, PartialEq, Eq, Structural)]
pub struct Particle {
    pub species: usize,
    pub position: Vec2,
    pub velocity: Vec2,
}

impl Particle {
    /// Position and velocity lie within the coordinate range.
    pub open spec fn wf(self) -> bool {
        self.position.wf() && self.velocity.wf()
    }
}

/// All particles of `s` are well-formed and belong to one of the first
/// `species_count` species.
pub open spec fn particles_wf(s: Seq<Particle>, species_count: int) -> bool {
    forall|i: int|
        0 <= i < s.len() ==> (#[trigger] s[i]).wf() && s[i].species < species_count
}

/// Squared distance from position `p` to the point `(cx, cy)`.
pub open spec fn sq_dist(p: Vec2, cx: int, cy: int) -> int {
    (p.x - cx) * (p.x - cx) + (p.y - cy) * (p.y - cy)
}

/// Squared distance between two positions.
pub open spec fn sq_dist_pt(p: Vec2, q: Vec2) -> int {
    sq_dist(p, q.x as int, q.y as int)
}

/// Squared distance from `p` to `(cx, cy)`, exact in `i64`.
pub fn sq_dist_exec(p: Vec2, cx: i64, cy: i64) -> (r: i64)
    requires
        p.wf(),
        -COORD_LIMIT <= cx <= COORD_LIMIT,
        -COORD_LIMIT <= cy <= COORD_LIMIT,
    ensures
        r == sq_dist(p, cx as int, cy as int),
        0 <= r <= SQ_DIST_CEIL,
{
    let dx = p.x - cx;
    let dy = p.y - cy;
    proof {
        lemma_signed_square_bound(dx as int, 2 * COORD_LIMIT as int);
        lemma_signed_square_bound(dy as int, 2 * COORD_LIMIT as int);
    }
    dx * dx + dy * dy
}

/// A static circular obstacle repelling nearby particles.
#[derive(Clone, Copy, Debug, PartialEq, Eq, Structural)]
pub struct Obstacle {
    pub center: Vec2,
    pub radius: i64,
}

impl Obstacle {
    pub open spec fn wf(self) -> bool {
        self.center.wf() && 0 <= self.radius <= COORD_LIMIT
    }
}

pub open spec fn obstacles_wf(s: Seq<Obstacle>) -> bool {
    forall|i: int| 0 <= i < s.len() ==> (#[trigger] s[i]).wf()
}

} // verus!
