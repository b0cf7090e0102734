//! Fitness metrics: pure functions of the particle position set.
//!
//! Each metric has the shape `1 / (1 + q)` for a squared spatial quantity
//! `q`, carried in micro-units so that every score lies in
//! `[0, FITNESS_UNIT]`; the empty position set scores `0`.

use vstd::prelude::*;

use vstd::arithmetic::div_mod::{lemma_div_basics, lemma_multiply_divide_le};

use crate::components::{sq_dist, sq_dist_exec, sq_dist_pt, Vec2, SQ_DIST_CEIL};
use crate::fixed::COORD_LIMIT;
use crate::resources::FitnessMetric;

verus! {

/// Micro-units per unit of fitness: scores lie in `[0, FITNESS_UNIT]`.
pub const FITNESS_UNIT: i64 = 1_000_000;

/// Squared milli-units per squared world unit.
pub const SQ_UNIT: i64 = 1_000_000;

/// All positions lie within the coordinate range.
pub open spec fn positions_wf(s: Seq<Vec2>) -> bool {
    forall|i: int| 0 <= i < s.len() ==> (#[trigger] s[i]).wf()
}

pub open spec fn sum_x(s: Seq<Vec2>) -> int
    decreases s.len(),
{
    if s.len() == 0 {
        0
    } else {
        sum_x(s.drop_last()) + s.last().x
    }
}

pub open spec fn sum_y(s: Seq<Vec2>) -> int
    decreases s.len(),
{
    if s.len() == 0 {
        0
    } else {
        sum_y(s.drop_last()) + s.last().y
    }
}

/// Quotient rounded toward zero; meaningful for `n >= 1`.
pub open spec fn div_trunc(a: int, n: int) -> int {
    if a >= 0 {
        a / n
    } else {
        -((-a) / n)
    }
}

/// The centroid of a non-empty position set, componentwise.
pub open spec fn centroid_x(s: Seq<Vec2>) -> int {
    div_trunc(sum_x(s), s.len() as int)
}

pub open spec fn centroid_y(s: Seq<Vec2>) -> int {
    div_trunc(sum_y(s), s.len() as int)
}

pub open spec fn sum_sq_dist(s: Seq<Vec2>, cx: int, cy: int) -> int
    decreases s.len(),
{
    if s.len() == 0 {
        0
    } else {
        sum_sq_dist(s.drop_last(), cx, cy) + sq_dist(s.last(), cx, cy)
    }
}

/// `1 / (1 + q)` in micro-units, for a squared quantity `q` in squared
/// milli-units.
pub open spec fn inverse_score(q: int) -> int {
    (FITNESS_UNIT * SQ_UNIT) / (SQ_UNIT + q)
}

/// Cohesion: `1 / (1 + mean squared distance to the centroid)`; `0` for the
/// empty set.
pub open spec fn cohesion_spec(s: Seq<Vec2>) -> int {
    if s.len() == 0 {
        0
    } else {
        inverse_score(sum_sq_dist(s, centroid_x(s), centroid_y(s)) / s.len() as int)
    }
}

/// Largest squared distance from `p` to any position of `s` (zero if `s` is
/// empty).
pub open spec fn row_max(p: Vec2, s: Seq<Vec2>) -> int
    decreases s.len(),
{
    if s.len() == 0 {
        0
    } else {
        let m = row_max(p, s.drop_last());
        let d = sq_dist_pt(p, s.last());
        if d > m {
            d
        } else {
            m
        }
    }
}

/// Largest squared distance over all pairs whose first element is among the
/// first `k` positions.
pub open spec fn max_pair_rows(s: Seq<Vec2>, k: int) -> int
    decreases k,
{
    if k <= 0 {
        0
    } else {
        let m = max_pair_rows(s, k - 1);
        let d = row_max(s[k - 1], s);
        if d > m {
            d
        } else {
            m
        }
    }
}

/// Largest pairwise squared distance of a position set.
pub open spec fn max_pair(s: Seq<Vec2>) -> int {
    max_pair_rows(s, s.len() as int)
}

/// Dispersion: `1 / (1 + max pairwise squared distance)`; `0` for the empty
/// set. As specified this rewards positions being close together, the same
/// direction as cohesion.
pub open spec fn dispersion_spec(s: Seq<Vec2>) -> int {
    if s.len() == 0 {
        0
    } else {
        inverse_score(max_pair(s))
    }
}

pub open spec fn min_x_of(s: Seq<Vec2>) -> int
    decreases s.len(),
{
    if s.len() <= 1 {
        s[0].x as int
    } else {
        let m = min_x_of(s.drop_last());
        if (s.last().x as int) < m {
            s.last().x as int
        } else {
            m
        }
    }
}

pub open spec fn max_x_of(s: Seq<Vec2>) -> int
    decreases s.len(),
{
    if s.len() <= 1 {
        s[0].x as int
    } else {
        let m = max_x_of(s.drop_last());
        if (s.last().x as int) > m {
            s.last().x as int
        } else {
            m
        }
    }
}

pub open spec fn min_y_of(s: Seq<Vec2>) -> int
    decreases s.len(),
{
    if s.len() <= 1 {
        s[0].y as int
    } else {
        let m = min_y_of(s.drop_last());
        if (s.last().y as int) < m {
            s.last().y as int
        } else {
            m
        }
    }
}

pub open spec fn max_y_of(s: Seq<Vec2>) -> int
    decreases s.len(),
{
    if s.len() <= 1 {
        s[0].y as int
    } else {
        let m = max_y_of(s.drop_last());
        if (s.last().y as int) > m {
            s.last().y as int
        } else {
            m
        }
    }
}

/// Area of the axis-aligned bounding box of a non-empty position set.
pub open spec fn bounding_area(s: Seq<Vec2>) -> int {
    (max_x_of(s) - min_x_of(s)) * (max_y_of(s) - min_y_of(s))
}

/// Coverage: `1 / (1 + bounding-box area)`; `0` for the empty set.
pub open spec fn coverage_spec(s: Seq<Vec2>) -> int {
    if s.len() == 0 {
        0
    } else {
        inverse_score(bounding_area(s))
    }
}

/// The score of the selected metric on a position set.
pub open spec fn evaluate_spec(metric: FitnessMetric, s: Seq<Vec2>) -> int {
    match metric {
        FitnessMetric::Cohesion => cohesion_spec(s),
        FitnessMetric::Dispersion => dispersion_spec(s),
        FitnessMetric::Coverage => coverage_spec(s),
    }
}

/// `1 / (1 + q)` in micro-units, exact.
fn inverse_score_exec(q: u128) -> (r: i64)
    requires
        q <= u128::MAX - SQ_UNIT as u128,
    ensures
        r == inverse_score(q as int),
        0 <= r <= FITNESS_UNIT,
{
    let den: u128 = q + SQ_UNIT as u128;
    let num: u128 = 1_000_000_000_000;
    let out = num / den;
    proof {
        assert(num as int == FITNESS_UNIT * SQ_UNIT);
        lemma_multiply_divide_le(num as int, den as int, FITNESS_UNIT as int);
        assert(num as int <= den as int * FITNESS_UNIT as int) by (nonlinear_arith)
            requires den as int >= SQ_UNIT as int, num as int == 1_000_000_000_000, SQ_UNIT == 1_000_000, FITNESS_UNIT == 1_000_000;
    }
    out as i64
}

/// Truncated division of a bounded sum by the number of its terms.
fn div_trunc_exec(a: i128, n: usize, bound: i64) -> (r: i64)
    requires
        1 <= n,
        0 <= bound,
        (n as int) * (bound as int) <= i128::MAX as int,
        -((n as int) * (bound as int)) <= a as int <= (n as int) * (bound as int),
    ensures
        r == div_trunc(a as int, n as int),
        -bound <= r <= bound,
{
    if a >= 0 {
        let q = (a as u128) / (n as u128);
        proof {
            lemma_multiply_divide_le(a as int, n as int, bound as int);
        }
        q as i64
    } else {
        let q = ((-a) as u128) / (n as u128);
        proof {
            lemma_multiply_divide_le(-(a as int), n as int, bound as int);
        }
        -(q as i64)
    }
}

/// Cohesion: `1 / (1 + mean squared distance to the centroid)`, in
/// micro-units; `0` for an empty set.
pub fn measure_cluster_cohesion(positions: &Vec<Vec2>) -> (score: i64)
    requires
        positions_wf(positions@),
    ensures
        score == cohesion_spec(positions@),
        0 <= score <= FITNESS_UNIT,
{
    let n = positions.len();
    if n == 0 {
        return 0;
    }
    let mut sx: i128 = 0;
    let mut sy: i128 = 0;
    let mut i: usize = 0;
    while i < n
        invariant
            i <= n,
            n == positions@.len(),
            positions_wf(positions@),
            sx as int == sum_x(positions@.take(i as int)),
            sy as int == sum_y(positions@.take(i as int)),
            -((i as int) * (COORD_LIMIT as int)) <= sx as int <= (i as int) * (COORD_LIMIT as int),
            -((i as int) * (COORD_LIMIT as int)) <= sy as int <= (i as int) * (COORD_LIMIT as int),
        decreases n - i,
    {
        let p = positions[i];
        sx = sx + p.x as i128;
        sy = sy + p.y as i128;
        proof {
            assert(positions@.take(i as int + 1).drop_last() =~= positions@.take(i as int));
            assert(positions@.take(i as int + 1).last() == positions@[i as int]);
        }
        i += 1;
    }
    proof {
        assert(positions@.take(n as int) =~= positions@);
        crate::fixed::lemma_mul_bound(
            n as int,
            COORD_LIMIT as int,
            usize::MAX as int,
            COORD_LIMIT as int,
        );
    }
    let cx = div_trunc_exec(sx, n, COORD_LIMIT);
    let cy = div_trunc_exec(sy, n, COORD_LIMIT);
    let mut acc: u128 = 0;
    let mut j: usize = 0;
    while j < n
        invariant
            j <= n,
            n == positions@.len(),
            positions_wf(positions@),
            -COORD_LIMIT <= cx <= COORD_LIMIT,
            -COORD_LIMIT <= cy <= COORD_LIMIT,
            acc as int == sum_sq_dist(positions@.take(j as int), cx as int, cy as int),
            acc as int <= (j as int) * (SQ_DIST_CEIL as int),
        decreases n - j,
    {
        let d = sq_dist_exec(positions[j], cx, cy);
        acc = acc + d as u128;
        proof {
            assert(positions@.take(j as int + 1).drop_last() =~= positions@.take(j as int));
            assert(positions@.take(j as int + 1).last() == positions@[j as int]);
        }
        j += 1;
    }
    proof {
        assert(positions@.take(n as int) =~= positions@);
    }
    let avg = acc / (n as u128);
    proof {
        vstd::arithmetic::div_mod::lemma_div_nonincreasing(acc as int, n as int);
        crate::fixed::lemma_mul_bound(
            n as int,
            SQ_DIST_CEIL as int,
            usize::MAX as int,
            SQ_DIST_CEIL as int,
        );
    }
    inverse_score_exec(avg)
}

/// Dispersion: `1 / (1 + largest pairwise squared distance)`, in
/// micro-units; `0` for an empty set.
pub fn measure_dispersion(positions: &Vec<Vec2>) -> (score: i64)
    requires
        positions_wf(positions@),
    ensures
        score == dispersion_spec(positions@),
        0 <= score <= FITNESS_UNIT,
{
    let n = positions.len();
    if n == 0 {
        return 0;
    }
    let mut m: i64 = 0;
    let mut i: usize = 0;
    while i < n
        invariant
            i <= n,
            n == positions@.len(),
            positions_wf(positions@),
            m == max_pair_rows(positions@, i as int),
            0 <= m <= SQ_DIST_CEIL,
        decreases n - i,
    {
        let p = positions[i];
        let mut j: usize = 0;
        while j < n
            invariant
                j <= n,
                n == positions@.len(),
                positions_wf(positions@),
                p == positions@[i as int],
                i < n,
                m == (if row_max(p, positions@.take(j as int)) > max_pair_rows(positions@, i as int) {
                    row_max(p, positions@.take(j as int))
                } else {
                    max_pair_rows(positions@, i as int)
                }),
                0 <= m <= SQ_DIST_CEIL,
            decreases n - j,
        {
            let d = sq_dist_exec(p, positions[j].x, positions[j].y);
            proof {
                assert(positions@.take(j as int + 1).drop_last() =~= positions@.take(j as int));
                assert(positions@.take(j as int + 1).last() == positions@[j as int]);
            }
            if d > m {
                m = d;
            }
            j += 1;
        }
        proof {
            assert(positions@.take(n as int) =~= positions@);
        }
        i += 1;
    }
    inverse_score_exec(m as u128)
}

/// Coverage: `1 / (1 + bounding-box area)`, in micro-units; `0` for an
/// empty set.
pub fn measure_coverage(positions: &Vec<Vec2>) -> (score: i64)
    requires
        positions_wf(positions@),
    ensures
        score == coverage_spec(positions@),
        0 <= score <= FITNESS_UNIT,
{
    let n = positions.len();
    if n == 0 {
        return 0;
    }
    let first = positions[0];
    let mut mnx: i64 = first.x;
    let mut mxx: i64 = first.x;
    let mut mny: i64 = first.y;
    let mut mxy: i64 = first.y;
    let mut i: usize = 1;
    proof {
        assert(positions@.take(1) =~= seq![positions@[0]]);
    }
    while i < n
        invariant
            1 <= i <= n,
            n == positions@.len(),
            positions_wf(positions@),
            mnx as int == min_x_of(positions@.take(i as int)),
            mxx as int == max_x_of(positions@.take(i as int)),
            mny as int == min_y_of(positions@.take(i as int)),
            mxy as int == max_y_of(positions@.take(i as int)),
            -COORD_LIMIT <= mnx <= mxx <= COORD_LIMIT,
            -COORD_LIMIT <= mny <= mxy <= COORD_LIMIT,
        decreases n - i,
    {
        let p = positions[i];
        proof {
            assert(positions@.take(i as int + 1).drop_last() =~= positions@.take(i as int));
            assert(positions@.take(i as int + 1).last() == positions@[i as int]);
            assert(positions@.take(i as int + 1).len() == i as int + 1);
        }
        if p.x < mnx {
            mnx = p.x;
        }
        if p.x > mxx {
            mxx = p.x;
        }
        if p.y < mny {
            mny = p.y;
        }
        if p.y > mxy {
            mxy = p.y;
        }
        i += 1;
    }
    proof {
        assert(positions@.take(n as int) =~= positions@);
    }
    let w = mxx - mnx;
    let h = mxy - mny;
    proof {
        crate::fixed::lemma_mul_bound(w as int, h as int, 2 * COORD_LIMIT as int, 2 * COORD_LIMIT as int);
    }
    let area = w * h;
    inverse_score_exec(area as u128)
}

/// The selected metric applied to the position set.
pub fn evaluate(metric: &FitnessMetric, positions: &Vec<Vec2>) -> (score: i64)
    requires
        positions_wf(positions@),
    ensures
        score == evaluate_spec(*metric, positions@),
        0 <= score <= FITNESS_UNIT,
{
    match metric {
        FitnessMetric::Cohesion => measure_cluster_cohesion(positions),
        FitnessMetric::Dispersion => measure_dispersion(positions),
        FitnessMetric::Coverage => measure_coverage(positions),
    }
}

/// A single position coheres perfectly: its centroid is itself, the mean
/// squared distance is zero, and the cohesion score is exactly one.
pub proof fn lemma_cohesion_single(p: Vec2)
    requires
        p.wf(),
    ensures
        cohesion_spec(seq![p]) == FITNESS_UNIT as int,
{
    let s = seq![p];
    assert(s.len() == 1);
    assert(s.drop_last() =~= Seq::<Vec2>::empty());
    assert(s.last() == p);
    assert(sum_x(Seq::<Vec2>::empty()) == 0);
    assert(sum_y(Seq::<Vec2>::empty()) == 0);
    assert(sum_sq_dist(Seq::<Vec2>::empty(), p.x as int, p.y as int) == 0);
    assert(sum_x(s) == p.x as int);
    assert(sum_y(s) == p.y as int);
    lemma_div_basics(p.x as int);
    lemma_div_basics(-(p.x as int));
    lemma_div_basics(p.y as int);
    lemma_div_basics(-(p.y as int));
    assert(centroid_x(s) == p.x as int);
    assert(centroid_y(s) == p.y as int);
    assert(sq_dist(p, p.x as int, p.y as int) == 0);
    assert(sum_sq_dist(s, p.x as int, p.y as int) == 0);
    lemma_div_basics(0);
    assert(cohesion_spec(s) == inverse_score(0));
    assert(inverse_score(0) == FITNESS_UNIT as int);
}

} // verus!
