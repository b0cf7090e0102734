//! Fixed-point scalar arithmetic.
//!
//! Coordinates, velocities, forces, rule coefficients and radii are all
//! carried as `i64` milli-units. Every operation here is total and exactly
//! described by a spec function: sums and quotients are clamped into
//! `[-COORD_LIMIT, COORD_LIMIT]`, and quotients of signed values are taken
//! sign-and-magnitude (round toward zero), which the specs mirror.

use vstd::prelude::*;

verus! {

/// Milli-units per world unit.
pub const UNIT: i64 = 1_000;

/// Largest magnitude a coordinate, velocity or force component may take.
pub const COORD_LIMIT: i64 = 1_000_000_000;

/// `x` clamped into `[lo, hi]`.
pub open spec fn clamp_int(x: int, lo: int, hi: int) -> int {
    if x < lo {
        lo
    } else if x > hi {
        hi
    } else {
        x
    }
}

/// `x` clamped into the coordinate range.
pub open spec fn cap_int(x: int) -> int {
    clamp_int(x, -COORD_LIMIT as int, COORD_LIMIT as int)
}

/// Sign-and-magnitude quotient `a * b / d`, rounded toward zero and clamped
/// into the coordinate range. Meaningful for `d >= 1`.
pub open spec fn mul_div_int(a: int, b: int, d: int) -> int {
    let p = a * b;
    if p >= 0 {
        cap_int(p / d)
    } else {
        -cap_int((-p) / d)
    }
}

/// Largest `r` with `r * r <= n`.
pub open spec fn sqrt_floor(n: nat) -> nat
    decreases n,
{
    if n == 0 {
        0
    } else {
        let r = sqrt_floor((n - 1) as nat);
        if (r + 1) * (r + 1) <= n {
            r + 1
        } else {
            r
        }
    }
}

pub proof fn lemma_sqrt_floor_bounds(n: nat)
    ensures
        sqrt_floor(n) * sqrt_floor(n) <= n,
        n < (sqrt_floor(n) + 1) * (sqrt_floor(n) + 1),
    decreases n,
{
    if n == 0 {
        assert(sqrt_floor(0) == 0);
        assert(sqrt_floor(n) * sqrt_floor(n) <= n);
        assert(n < (sqrt_floor(n) + 1) * (sqrt_floor(n) + 1)) by (nonlinear_arith)
            requires n == 0, sqrt_floor(n) == 0;
    } else {
        lemma_sqrt_floor_bounds((n - 1) as nat);
        let r = sqrt_floor((n - 1) as nat);
        if (r + 1) * (r + 1) <= n {
            assert(sqrt_floor(n) == r + 1);
            assert(n <= (r + 1) * (r + 1));
            assert((r + 1) * (r + 1) < (r + 2) * (r + 2)) by (nonlinear_arith);
            assert(sqrt_floor(n) * sqrt_floor(n) <= n);
            assert(n < (sqrt_floor(n) + 1) * (sqrt_floor(n) + 1));
        } else {
            assert(sqrt_floor(n) == r);
            assert(sqrt_floor(n) * sqrt_floor(n) <= n);
            assert(n < (sqrt_floor(n) + 1) * (sqrt_floor(n) + 1));
        }
    }
}

pub proof fn lemma_sqrt_floor_unique(n: nat, r: nat)
    requires
        r * r <= n,
        n < (r + 1) * (r + 1),
    ensures
        sqrt_floor(n) == r,
{
    lemma_sqrt_floor_bounds(n);
    let s = sqrt_floor(n);
    if s < r {
        assert((s + 1) * (s + 1) <= r * r) by (nonlinear_arith)
            requires s + 1 <= r;
    }
    if r < s {
        assert((r + 1) * (r + 1) <= s * s) by (nonlinear_arith)
            requires r + 1 <= s;
    }
}

/// The square of a value bounded by `hi` is bounded by `hi * hi`.
#[verifier::nonlinear]
pub proof fn lemma_square_bound(x: int, hi: int)
    requires
        0 <= x <= hi,
    ensures
        0 <= x * x <= hi * hi,
{
}

/// The square of a value of magnitude at most `hi` is at most `hi * hi`.
#[verifier::nonlinear]
pub proof fn lemma_signed_square_bound(x: int, hi: int)
    requires
        -hi <= x <= hi,
    ensures
        0 <= x * x <= hi * hi,
{
}

/// A product of bounded non-negative values is bounded by the product of the
/// bounds.
#[verifier::nonlinear]
pub proof fn lemma_mul_bound(a: int, b: int, ca: int, cb: int)
    requires
        0 <= a <= ca,
        0 <= b <= cb,
    ensures
        0 <= a * b <= ca * cb,
{
}

/// `a + b`, clamped into the coordinate range.
pub fn cap_add(a: i64, b: i64) -> (r: i64)
    ensures
        r as int == cap_int(a + b),
{
    let s: i128 = a as i128 + b as i128;
    if s < -(COORD_LIMIT as i128) {
        -COORD_LIMIT
    } else if s > COORD_LIMIT as i128 {
        COORD_LIMIT
    } else {
        s as i64
    }
}

/// `x` clamped into `[lo, hi]`.
pub fn clamp64(x: i64, lo: i64, hi: i64) -> (r: i64)
    requires
        lo <= hi,
    ensures
        r as int == clamp_int(x as int, lo as int, hi as int),
{
    if x < lo {
        lo
    } else if x > hi {
        hi
    } else {
        x
    }
}

/// Integer square root: the largest `r` with `r * r <= x`.
pub fn isqrt64(x: u64) -> (r: u64)
    ensures
        r as nat == sqrt_floor(x as nat),
        r as int * r as int <= x as int,
        (x as int) < (r as int + 1) * (r as int + 1),
        r < 0x1_0000_0000,
{
    let mut lo: u64 = 0;
    let mut hi: u64 = 0x1_0000_0000;
    proof {
        assert((hi as int) * (hi as int) > x as int) by (nonlinear_arith)
            requires hi as int == 0x1_0000_0000, x as int <= u64::MAX as int;
    }
    while lo + 1 < hi
        invariant
            lo < hi,
            hi <= 0x1_0000_0000,
            lo as int * lo as int <= x as int,
            (x as int) < (hi as int) * (hi as int),
        decreases hi - lo,
    {
        let mid = lo + (hi - lo) / 2;
        proof {
            assert(mid as int * mid as int <= 0x1_0000_0000_0000_0000) by (nonlinear_arith)
                requires 0 <= mid as int <= 0x1_0000_0000;
        }
        if (mid as u128) * (mid as u128) <= x as u128 {
            lo = mid;
        } else {
            hi = mid;
        }
    }
    proof {
        lemma_sqrt_floor_unique(x as nat, lo as nat);
    }
    lo
}

/// Sign-and-magnitude `a * b / d`, rounded toward zero, clamped into the
/// coordinate range.
pub fn mul_div_cap(a: i64, b: i64, d: i64) -> (r: i64)
    requires
        d >= 1,
    ensures
        r as int == mul_div_int(a as int, b as int, d as int),
{
    let am: u128 = if a < 0 {
        (-(a as i128)) as u128
    } else {
        a as u128
    };
    let bm: u128 = if b < 0 {
        (-(b as i128)) as u128
    } else {
        b as u128
    };
    proof {
        assert(am as int * bm as int == (if a as int * b as int >= 0 {
            a as int * b as int
        } else {
            -(a as int * b as int)
        })) by (nonlinear_arith)
            requires
                am as int == (if a < 0 { -(a as int) } else { a as int }),
                bm as int == (if b < 0 { -(b as int) } else { b as int });
        assert(((a < 0) != (b < 0)) ==> a as int * b as int <= 0) by (nonlinear_arith);
        assert(((a < 0) == (b < 0)) ==> a as int * b as int >= 0) by (nonlinear_arith);
        assert(am as int * bm as int <= 0x8000_0000_0000_0000 * 0x8000_0000_0000_0000) by (nonlinear_arith)
            requires
                0 <= am as int <= 0x8000_0000_0000_0000,
                0 <= bm as int <= 0x8000_0000_0000_0000;
    }
    let p: u128 = am * bm;
    let q: u128 = p / (d as u128);
    let qc: i64 = if q > COORD_LIMIT as u128 {
        COORD_LIMIT
    } else {
        q as i64
    };
    if (a < 0) != (b < 0) {
        -qc
    } else {
        qc
    }
}

} // verus!
