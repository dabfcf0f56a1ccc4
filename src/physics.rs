//! The rules of motion: the pairwise collision resolver, the speed
//! corrector with its runaway guard, and the drawing of fresh velocities.
use crate::geometry::{
    div_trunc, is_isqrt, isqrt, lemma_trunc_div_bounds, saturate, trunc_div,
    clamp_spec, Vec3, COORD_MAX,
};
use crate::random::random_between;
use rand::rngs::StdRng;
use vstd::math::abs;
use vstd::prelude::*;

verus! {

/// The integer square root of `n`.
pub open spec fn isqrt_spec(n: int) -> int {
    choose|r: int| is_isqrt(n, r)
}

/// An integer square root is unique, so `isqrt_spec` names it.
pub proof fn lemma_isqrt_spec(n: int, r: int)
    requires
        is_isqrt(n, r),
    ensures
        isqrt_spec(n) == r,
{
    let s = isqrt_spec(n);
    assert(is_isqrt(n, s));
    if s < r {
        assert((s + 1) * (s + 1) <= r * r) by (nonlinear_arith)
            requires
                0 <= s + 1 <= r,
        ;
    } else if r < s {
        assert((r + 1) * (r + 1) <= s * s) by (nonlinear_arith)
            requires
                0 <= r + 1 <= s,
        ;
    }
}

/// Offset between two centres in the plane.
pub open spec fn dx(ci: Vec3, cj: Vec3) -> int {
    ci.x - cj.x
}

pub open spec fn dy(ci: Vec3, cj: Vec3) -> int {
    ci.y - cj.y
}

/// Squared planar distance between two centres.
pub open spec fn dist2(ci: Vec3, cj: Vec3) -> int {
    dx(ci, cj) * dx(ci, cj) + dy(ci, cj) * dy(ci, cj)
}

/// Two particles collide when their squared distance is below the product of
/// the first one's scaled extents.
pub open spec fn overlaps(ci: Vec3, cj: Vec3, extent_x: int, extent_y: int) -> bool {
    dist2(ci, cj) < extent_x * extent_y
}

/// What resolving one collision yields: the push for the first particle (the
/// second is pushed by its negation) and both new velocities.
#[derive(Debug, Clone, Copy, PartialEq, Eq, Structural)]
pub struct PairOutcome {
    pub push: Vec3,
    pub velocity_i: Vec3,
    pub velocity_j: Vec3,
}

/// Half of the missing distance, along the line from `cj` to `ci`.
pub open spec fn push_spec(ci: Vec3, cj: Vec3, target: int) -> Vec3 {
    let dist = isqrt_spec(dist2(ci, cj));
    Vec3 {
        x: trunc_div(dx(ci, cj) * (target - dist), 2 * dist) as i64,
        y: trunc_div(dy(ci, cj) * (target - dist), 2 * dist) as i64,
        z: 0,
    }
}

/// `(vi - vj) · (ci - cj)` in the plane.
pub open spec fn approach(ci: Vec3, vi: Vec3, cj: Vec3, vj: Vec3) -> int {
    (vi.x - vj.x) * dx(ci, cj) + (vi.y - vj.y) * dy(ci, cj)
}

/// The velocity exchanged along the line of centres, per component.
pub open spec fn exchange_x(ci: Vec3, vi: Vec3, cj: Vec3, vj: Vec3) -> int {
    trunc_div(dx(ci, cj) * approach(ci, vi, cj, vj), dist2(ci, cj))
}

pub open spec fn exchange_y(ci: Vec3, vi: Vec3, cj: Vec3, vj: Vec3) -> int {
    trunc_div(dy(ci, cj) * approach(ci, vi, cj, vj), dist2(ci, cj))
}

pub open spec fn sat(v: int) -> int {
    clamp_spec(v, -COORD_MAX, COORD_MAX as int)
}

/// The outcome of an equal-mass elastic collision of two discs at distinct
/// centres: each velocity loses (or gains) its component along the line of
/// centres, `vi' = vi - d (vi - vj)·d / |d|²` and `vj' = vj + d (vi - vj)·d /
/// |d|²`, saturated to the coordinate range; the vertical component is kept.
pub open spec fn outcome_spec(ci: Vec3, vi: Vec3, cj: Vec3, vj: Vec3, target: int) -> PairOutcome {
    PairOutcome {
        push: push_spec(ci, cj, target),
        velocity_i: Vec3 {
            x: sat(vi.x - exchange_x(ci, vi, cj, vj)) as i64,
            y: sat(vi.y - exchange_y(ci, vi, cj, vj)) as i64,
            z: vi.z,
        },
        velocity_j: Vec3 {
            x: sat(vj.x + exchange_x(ci, vi, cj, vj)) as i64,
            y: sat(vj.y + exchange_y(ci, vi, cj, vj)) as i64,
            z: vj.z,
        },
    }
}

/// Tests two particles for a collision and, where they collide at distinct
/// centres, resolves it: `None` where they do not overlap or share a centre.
/// `extent_x` and `extent_y` are the first particle's scaled extents;
/// `target` is the distance the two should keep.
pub fn resolve_collision(
    ci: Vec3,
    vi: Vec3,
    cj: Vec3,
    vj: Vec3,
    extent_x: i64,
    extent_y: i64,
    target: i64,
) -> (r: Option<PairOutcome>)
    requires
        ci.in_range(),
        cj.in_range(),
        vi.in_range(),
        vj.in_range(),
        0 <= extent_x <= COORD_MAX,
        0 <= extent_y <= COORD_MAX,
        0 <= target <= COORD_MAX,
    ensures
        r is Some <==> overlaps(ci, cj, extent_x as int, extent_y as int) && dist2(ci, cj) > 0,
        r is Some ==> r->0 == outcome_spec(ci, vi, cj, vj, target as int),
        r is Some ==> r->0.velocity_i.in_range() && r->0.velocity_j.in_range(),
{
    let ddx: i128 = ci.x as i128 - cj.x as i128;
    let ddy: i128 = ci.y as i128 - cj.y as i128;
    let ghost b41: int = 0x200_0000_0000;
    proof {
        lemma_mul_bound(ddx as int, ddx as int, b41, b41);
        lemma_mul_bound(ddy as int, ddy as int, b41, b41);
        lemma_mul_bound(extent_x as int, extent_y as int, b41, b41);
        assert(0 <= ddx * ddx && 0 <= ddy * ddy) by (nonlinear_arith);
    }
    let d2: i128 = ddx * ddx + ddy * ddy;
    let limit: i128 = extent_x as i128 * extent_y as i128;
    if !(d2 < limit) || d2 == 0 {
        return None;
    }
    let dist: i128 = isqrt(d2 as u128) as i128;
    proof {
        lemma_isqrt_spec(d2 as int, dist as int);
        lemma_sqrt_bound(d2 as int, dist as int);
    }
    let gap: i128 = target as i128 - dist;
    proof {
        lemma_mul_bound(ddx as int, gap as int, b41, 4 * b41);
        lemma_mul_bound(ddy as int, gap as int, b41, 4 * b41);
    }
    let px: i128 = div_trunc(ddx * gap, 2 * dist);
    let py: i128 = div_trunc(ddy * gap, 2 * dist);
    proof {
        assert(ddx * ddx < (dist + 1) * (dist + 1));
        assert(ddy * ddy < (dist + 1) * (dist + 1));
        lemma_push_bound(ddx as int, gap as int, dist as int);
        lemma_push_bound(ddy as int, gap as int, dist as int);
    }
    let rvx: i128 = vi.x as i128 - vj.x as i128;
    let rvy: i128 = vi.y as i128 - vj.y as i128;
    proof {
        lemma_mul_bound(rvx as int, ddx as int, b41, b41);
        lemma_mul_bound(rvy as int, ddy as int, b41, b41);
    }
    let dot: i128 = rvx * ddx + rvy * ddy;
    proof {
        lemma_mul_bound(ddx as int, dot as int, b41, 2 * b41 * b41);
        lemma_mul_bound(ddy as int, dot as int, b41, 2 * b41 * b41);
    }
    let tx: i128 = div_trunc(ddx * dot, d2);
    let ty: i128 = div_trunc(ddy * dot, d2);
    proof {
        lemma_trunc_div_bounds((ddx * dot) as int, d2 as int);
        lemma_trunc_div_bounds((ddy * dot) as int, d2 as int);
    }
    Some(
        PairOutcome {
            push: Vec3 { x: px as i64, y: py as i64, z: 0 },
            velocity_i: Vec3 {
                x: saturate(vi.x as i128 - tx),
                y: saturate(vi.y as i128 - ty),
                z: vi.z,
            },
            velocity_j: Vec3 {
                x: saturate(vj.x as i128 + tx),
                y: saturate(vj.y as i128 + ty),
                z: vj.z,
            },
        },
    )
}

proof fn lemma_mul_bound(a: int, b: int, ba: int, bb: int)
    requires
        -ba <= a <= ba,
        -bb <= b <= bb,
    ensures
        -(ba * bb) <= a * b <= ba * bb,
{
    assert(-(ba * bb) <= a * b <= ba * bb) by (nonlinear_arith)
        requires
            -ba <= a <= ba,
            -bb <= b <= bb,
    ;
}

proof fn lemma_sqrt_bound(n: int, r: int)
    requires
        is_isqrt(n, r),
        0 < n <= 2 * 0x200_0000_0000 * 0x200_0000_0000,
    ensures
        0 < r <= 0x400_0000_0000,
{
    if r > 0x400_0000_0000 {
        assert(r * r > 0x400_0000_0000 * 0x400_0000_0000) by (nonlinear_arith)
            requires
                r > 0x400_0000_0000,
        ;
    }
    if r == 0 {
        assert((r + 1) * (r + 1) == 1) by (nonlinear_arith)
            requires
                r == 0,
        ;
    }
}

proof fn lemma_push_bound(d: int, gap: int, dist: int)
    requires
        0 < dist,
        d * d < (dist + 1) * (dist + 1),
    ensures
        -abs(gap) <= trunc_div(d * gap, 2 * dist) <= abs(gap),
{
    assert(-dist <= d <= dist) by (nonlinear_arith)
        requires
            d * d < (dist + 1) * (dist + 1),
            0 < dist,
    ;
    let a: int = abs(d * gap) as int;
    let g: int = abs(gap) as int;
    assert(a <= g * dist) by (nonlinear_arith)
        requires
            -dist <= d <= dist,
            a == abs(d * gap) as int,
            g == abs(gap) as int,
    ;
    assert(0 <= a) by (nonlinear_arith)
        requires
            a == abs(d * gap) as int,
    ;
    vstd::arithmetic::div_mod::lemma_div_is_ordered(a, g * dist, 2 * dist);
    vstd::arithmetic::div_mod::lemma_div_is_ordered_by_denominator(g * dist, dist, 2 * dist);
    assert(0 <= g * dist) by (nonlinear_arith)
        requires
            0 <= g,
            0 < dist,
    ;
    vstd::arithmetic::div_mod::lemma_div_multiples_vanish(g, dist);
    assert(dist * g == g * dist) by (nonlinear_arith);
    if d * gap >= 0 {
        assert(a == d * gap);
    } else {
        assert(a == -(d * gap));
    }
}

/// Every non-negative integer has an integer square root.
pub proof fn lemma_isqrt_exists(n: int)
    requires
        0 <= n,
    ensures
        is_isqrt(n, isqrt_spec(n)),
    decreases n,
{
    if n == 0 {
        assert(is_isqrt(0, 0));
    } else {
        lemma_isqrt_exists(n - 1);
        let r = isqrt_spec(n - 1);
        if (r + 1) * (r + 1) <= n {
            assert((r + 2) * (r + 2) > n) by (nonlinear_arith)
                requires
                    n - 1 < (r + 1) * (r + 1),
                    0 <= r,
            ;
            assert(is_isqrt(n, r + 1));
        } else {
            assert(is_isqrt(n, r));
        }
    }
}

proof fn lemma_moves_apart(d: int, g: int, dist: int)
    requires
        0 < dist,
        0 <= g,
    ensures
        (d + 2 * trunc_div(d * g, 2 * dist)) * (d + 2 * trunc_div(d * g, 2 * dist)) >= d * d,
{
    let p = trunc_div(d * g, 2 * dist);
    lemma_trunc_div_bounds(d * g, 2 * dist);
    if d >= 0 {
        assert(d * g >= 0) by (nonlinear_arith)
            requires
                d >= 0,
                g >= 0,
        ;
        assert((d + 2 * p) * (d + 2 * p) >= d * d) by (nonlinear_arith)
            requires
                d >= 0,
                p >= 0,
        ;
    } else {
        assert(d * g <= 0) by (nonlinear_arith)
            requires
                d < 0,
                g >= 0,
        ;
        assert((d + 2 * p) * (d + 2 * p) >= d * d) by (nonlinear_arith)
            requires
                d < 0,
                p <= 0,
        ;
    }
}

/// A resolved collision never brings the two centres closer together when
/// the distance to keep is at least their current distance: the first centre
/// moves by the push and the second by its negation, and along each axis
/// both move away from each other.
pub proof fn lemma_collision_separates(ci: Vec3, vi: Vec3, cj: Vec3, vj: Vec3, target: int)
    requires
        ci.in_range(),
        cj.in_range(),
        0 <= target <= COORD_MAX,
        dist2(ci, cj) > 0,
        target >= isqrt_spec(dist2(ci, cj)),
    ensures
        ({
            let p = outcome_spec(ci, vi, cj, vj, target).push;
            let ex = (ci.x + p.x) - (cj.x - p.x);
            let ey = (ci.y + p.y) - (cj.y - p.y);
            ex * ex + ey * ey >= dist2(ci, cj)
        }),
{
    let d2 = dist2(ci, cj);
    let dist = isqrt_spec(d2);
    lemma_isqrt_exists(d2);
    let ddx = dx(ci, cj);
    let ddy = dy(ci, cj);
    assert(0 <= ddx * ddx && 0 <= ddy * ddy) by (nonlinear_arith);
    if dist == 0 {
        assert((dist + 1) * (dist + 1) == 1) by (nonlinear_arith)
            requires
                dist == 0,
        ;
        assert(false) by (nonlinear_arith)
            requires
                ddx * ddx + ddy * ddy < 1,
                ddx * ddx + ddy * ddy > 0,
                0 <= ddx * ddx,
                0 <= ddy * ddy,
        ;
    }
    let g = target - dist;
    lemma_push_bound(ddx, g, dist);
    lemma_push_bound(ddy, g, dist);
    lemma_moves_apart(ddx, g, dist);
    lemma_moves_apart(ddy, g, dist);
    let p = outcome_spec(ci, vi, cj, vj, target).push;
    assert(p.x == trunc_div(ddx * g, 2 * dist));
    assert(p.y == trunc_div(ddy * g, 2 * dist));
}

/// For a square collider whose kept distance is its extent (the particle's
/// scale is the configured size), every overlapping pair lies closer than
/// the kept distance, so the separation above applies to every collision.
pub proof fn lemma_square_overlap_within_target(ci: Vec3, cj: Vec3, extent: int)
    requires
        0 <= extent,
        overlaps(ci, cj, extent, extent),
    ensures
        isqrt_spec(dist2(ci, cj)) < extent,
{
    let d2 = dist2(ci, cj);
    assert(0 <= dx(ci, cj) * dx(ci, cj) && 0 <= dy(ci, cj) * dy(ci, cj)) by (nonlinear_arith);
    lemma_isqrt_exists(d2);
    let r = isqrt_spec(d2);
    if r >= extent {
        assert(r * r >= extent * extent) by (nonlinear_arith)
            requires
                r >= extent,
                extent >= 0,
        ;
    }
}

/// One unit of length per second in speed units: the speed of `1.0`.
pub const SPEED_UNIT: i64 = 1000000;

/// Microseconds in a second.
pub const MICROS_PER_SECOND: i64 = 1000000;

/// Squared length of a velocity.
pub open spec fn speed2(v: Vec3) -> int {
    v.x * v.x + v.y * v.y + v.z * v.z
}

/// The length of a velocity, rounded down.
pub open spec fn speed_spec(v: Vec3) -> int {
    isqrt_spec(speed2(v))
}

/// The squared speed beyond which a velocity has run away: a thousand times
/// the squared target speed, and never less than ten squared units.
pub open spec fn runaway_limit(target: int) -> int {
    let a = target * target * 1000;
    let b = 10 * SPEED_UNIT * SPEED_UNIT;
    if a >= b {
        a
    } else {
        b
    }
}

/// The correction factor `num / den` for a frame of `dt` microseconds:
/// `1 + (target / actual - 1) * dt / 10 s`, clamped into `[1/2, 2]`. With no
/// measured speed yet it is the largest factor (or one, when the target is
/// zero too).
pub open spec fn factor_spec(target: int, actual: int, dt: int) -> (int, int) {
    if actual <= 0 {
        if target > 0 {
            (2, 1)
        } else {
            (1, 1)
        }
    } else {
        let den = actual * 10 * MICROS_PER_SECOND;
        let num = den + (target - actual) * dt;
        (clamp_spec(num, den / 2, 2 * den), den)
    }
}

/// A velocity scaled by the correction factor, component by component.
pub open spec fn scaled_velocity(v: Vec3, target: int, actual: int, dt: int) -> Vec3 {
    let (num, den) = factor_spec(target, actual, dt);
    Vec3 {
        x: sat(trunc_div(v.x * num, den)) as i64,
        y: sat(trunc_div(v.y * num, den)) as i64,
        z: sat(trunc_div(v.z * num, den)) as i64,
    }
}

/// The corrected velocity, or `None` where the velocity must be drawn anew:
/// it is zero, or it has run away once scaled.
pub open spec fn correct_spec(v: Vec3, target: int, actual: int, dt: int) -> Option<Vec3> {
    if speed2(v) == 0 {
        None
    } else {
        let w = scaled_velocity(v, target, actual, dt);
        if speed2(w) > runaway_limit(target) {
            None
        } else {
            Some(w)
        }
    }
}

proof fn lemma_speed2_bound(v: Vec3)
    requires
        v.in_range(),
    ensures
        0 <= speed2(v) <= 3 * COORD_MAX * COORD_MAX,
{
    lemma_mul_bound(v.x as int, v.x as int, COORD_MAX as int, COORD_MAX as int);
    lemma_mul_bound(v.y as int, v.y as int, COORD_MAX as int, COORD_MAX as int);
    lemma_mul_bound(v.z as int, v.z as int, COORD_MAX as int, COORD_MAX as int);
    assert(0 <= v.x * v.x && 0 <= v.y * v.y && 0 <= v.z * v.z) by (nonlinear_arith);
}

/// The squared length of a velocity.
pub fn speed_squared(v: Vec3) -> (r: i128)
    requires
        v.in_range(),
    ensures
        r == speed2(v),
        0 <= r <= 3 * COORD_MAX * COORD_MAX,
{
    let x: i128 = v.x as i128;
    let y: i128 = v.y as i128;
    let z: i128 = v.z as i128;
    proof {
        lemma_speed2_bound(v);
        lemma_mul_bound(x as int, x as int, COORD_MAX as int, COORD_MAX as int);
        lemma_mul_bound(y as int, y as int, COORD_MAX as int, COORD_MAX as int);
        lemma_mul_bound(z as int, z as int, COORD_MAX as int, COORD_MAX as int);
        assert(0 <= x * x && 0 <= y * y && 0 <= z * z) by (nonlinear_arith);
    }
    x * x + y * y + z * z
}

/// The length of a velocity, rounded down.
pub fn speed(v: Vec3) -> (r: i64)
    requires
        v.in_range(),
    ensures
        r == speed_spec(v),
        0 <= r <= 2 * COORD_MAX,
{
    let s2 = speed_squared(v);
    let r = isqrt(s2 as u128);
    proof {
        lemma_isqrt_spec(s2 as int, r as int);
        if r > 2 * COORD_MAX {
            assert(r * r > 4 * COORD_MAX * COORD_MAX) by (nonlinear_arith)
                requires
                    r > 2 * COORD_MAX,
            ;
        }
    }
    r as i64
}

/// The runaway limit for a target speed.
pub fn runaway_limit_of(target: i64) -> (r: i128)
    requires
        0 <= target <= COORD_MAX,
    ensures
        r == runaway_limit(target as int),
{
    proof {
        lemma_mul_bound(target as int, target as int, COORD_MAX as int, COORD_MAX as int);
    }
    let a: i128 = target as i128 * target as i128 * 1000;
    let b: i128 = 10 * SPEED_UNIT as i128 * SPEED_UNIT as i128;
    if a >= b {
        a
    } else {
        b
    }
}

/// Scales a velocity toward the target speed for one frame, or reports that
/// it must be drawn anew.
pub fn correct_velocity(v: Vec3, target: i64, actual: i64, dt: u64) -> (r: Option<Vec3>)
    requires
        v.in_range(),
        0 <= target <= COORD_MAX,
        0 <= actual <= 2 * COORD_MAX,
    ensures
        r == correct_spec(v, target as int, actual as int, dt as int),
        r is Some ==> r->0.in_range() && speed2(r->0) <= runaway_limit(target as int),
{
    if speed_squared(v) == 0 {
        return None;
    }
    let num: i128;
    let den: i128;
    if actual <= 0 {
        if target > 0 {
            num = 2;
            den = 1;
        } else {
            num = 1;
            den = 1;
        }
    } else {
        let d: i128 = actual as i128 * 10 * MICROS_PER_SECOND as i128;
        proof {
            lemma_mul_bound(
                (target - actual) as int,
                dt as int,
                3 * COORD_MAX as int,
                0x1_0000_0000_0000_0000,
            );
        }
        let raw: i128 = d + (target as i128 - actual as i128) * dt as i128;
        let lo: i128 = d / 2;
        let hi: i128 = 2 * d;
        num = if raw < lo {
            lo
        } else if raw > hi {
            hi
        } else {
            raw
        };
        den = d;
    }
    assert(0 < den <= 2 * COORD_MAX * 10 * MICROS_PER_SECOND);
    assert(0 <= num <= 2 * den);
    proof {
        lemma_mul_bound(v.x as int, num as int, COORD_MAX as int, 4 * COORD_MAX * 10 * MICROS_PER_SECOND);
        lemma_mul_bound(v.y as int, num as int, COORD_MAX as int, 4 * COORD_MAX * 10 * MICROS_PER_SECOND);
        lemma_mul_bound(v.z as int, num as int, COORD_MAX as int, 4 * COORD_MAX * 10 * MICROS_PER_SECOND);
    }
    let w = Vec3 {
        x: saturate(div_trunc(v.x as i128 * num, den)),
        y: saturate(div_trunc(v.y as i128 * num, den)),
        z: saturate(div_trunc(v.z as i128 * num, den)),
    };
    if speed_squared(w) > runaway_limit_of(target) {
        None
    } else {
        Some(w)
    }
}

/// Scaling by a factor of at least one never shrinks a component, and by a
/// factor of at most one never grows it.
pub proof fn lemma_scaling_direction(a: int, num: int, den: int)
    requires
        0 < den,
        0 <= num,
        -COORD_MAX <= a <= COORD_MAX,
    ensures
        num >= den ==> abs(sat(trunc_div(a * num, den))) >= abs(a),
        num <= den ==> abs(sat(trunc_div(a * num, den))) <= abs(a),
{
    let q = trunc_div(a * num, den);
    if a >= 0 {
        assert(a * num >= 0) by (nonlinear_arith)
            requires
                a >= 0,
                num >= 0,
        ;
        if num >= den {
            assert(a * num >= a * den) by (nonlinear_arith)
                requires
                    a >= 0,
                    num >= den,
            ;
            vstd::arithmetic::div_mod::lemma_div_is_ordered(a * den, a * num, den);
            vstd::arithmetic::div_mod::lemma_div_multiples_vanish(a, den);
            assert(den * a == a * den) by (nonlinear_arith);
        }
        if num <= den {
            assert(a * num <= a * den) by (nonlinear_arith)
                requires
                    a >= 0,
                    num <= den,
            ;
            vstd::arithmetic::div_mod::lemma_div_is_ordered(a * num, a * den, den);
            vstd::arithmetic::div_mod::lemma_div_multiples_vanish(a, den);
            assert(den * a == a * den) by (nonlinear_arith);
        }
    } else {
        let b = -a;
        assert(a * num == -(b * num)) by (nonlinear_arith)
            requires
                b == -a,
        ;
        assert(b * num >= 0) by (nonlinear_arith)
            requires
                b > 0,
                num >= 0,
        ;
        if num >= den {
            assert(b * num >= b * den) by (nonlinear_arith)
                requires
                    b >= 0,
                    num >= den,
            ;
            vstd::arithmetic::div_mod::lemma_div_is_ordered(b * den, b * num, den);
            vstd::arithmetic::div_mod::lemma_div_multiples_vanish(b, den);
            assert(den * b == b * den) by (nonlinear_arith);
        }
        if num <= den {
            assert(b * num <= b * den) by (nonlinear_arith)
                requires
                    b >= 0,
                    num <= den,
            ;
            vstd::arithmetic::div_mod::lemma_div_is_ordered(b * num, b * den, den);
            vstd::arithmetic::div_mod::lemma_div_multiples_vanish(b, den);
            assert(den * b == b * den) by (nonlinear_arith);
            vstd::arithmetic::div_mod::lemma_div_pos_is_pos(b * num, den);
        }
        vstd::arithmetic::div_mod::lemma_div_pos_is_pos(b * num, den);
    }
}

/// One frame of speed correction moves every kept velocity toward the
/// target: below the target no component shrinks, above it none grows; and
/// a kept velocity never exceeds the runaway limit.
pub proof fn lemma_correction_toward_target(v: Vec3, target: int, actual: int, dt: int)
    requires
        v.in_range(),
        0 <= target,
        0 <= actual,
        0 <= dt,
        correct_spec(v, target, actual, dt) is Some,
    ensures
        ({
            let w = correct_spec(v, target, actual, dt)->0;
            &&& actual < target ==> abs(w.x as int) >= abs(v.x as int) && abs(w.y as int) >= abs(
                v.y as int,
            ) && abs(w.z as int) >= abs(v.z as int)
            &&& actual > target ==> abs(w.x as int) <= abs(v.x as int) && abs(w.y as int) <= abs(
                v.y as int,
            ) && abs(w.z as int) <= abs(v.z as int)
            &&& speed2(w) <= runaway_limit(target)
        }),
{
    let (num, den) = factor_spec(target, actual, dt);
    if actual > 0 {
        let d = actual * 10 * MICROS_PER_SECOND;
        assert(d > 0) by (nonlinear_arith)
            requires
                actual > 0,
                d == actual * 10 * MICROS_PER_SECOND,
        ;
        if actual < target {
            assert((target - actual) * dt >= 0) by (nonlinear_arith)
                requires
                    target - actual > 0,
                    dt >= 0,
            ;
        }
        if actual > target {
            assert((target - actual) * dt <= 0) by (nonlinear_arith)
                requires
                    target - actual < 0,
                    dt >= 0,
            ;
        }
    }
    lemma_scaling_direction(v.x as int, num, den);
    lemma_scaling_direction(v.y as int, num, den);
    lemma_scaling_direction(v.z as int, num, den);
}

/// The velocity of the given speed along the direction `(dx, dy)`, in the
/// plane; along the first axis where the direction is zero.
pub open spec fn toward_spec(ddx: int, ddy: int, speed: int) -> Vec3 {
    let len = isqrt_spec(ddx * ddx + ddy * ddy);
    if len == 0 {
        Vec3 { x: speed as i64, y: 0, z: 0 }
    } else {
        Vec3 {
            x: trunc_div(ddx * speed, len) as i64,
            y: trunc_div(ddy * speed, len) as i64,
            z: 0,
        }
    }
}

/// The largest magnitude of a drawn direction component.
pub const DIRECTION_RANGE: i64 = 1048576;

proof fn lemma_toward_bound(d: int, len: int, speed: int)
    requires
        0 < len,
        0 <= speed,
        d * d < (len + 1) * (len + 1),
    ensures
        -speed <= trunc_div(d * speed, len) <= speed,
{
    assert(-len <= d <= len) by (nonlinear_arith)
        requires
            d * d < (len + 1) * (len + 1),
            0 < len,
    ;
    lemma_push_bound(d, 2 * speed, len);
    let a: int = abs(d * speed) as int;
    assert(a <= speed * len) by (nonlinear_arith)
        requires
            -len <= d <= len,
            a == abs(d * speed) as int,
            0 <= speed,
    ;
    assert(0 <= a) by (nonlinear_arith)
        requires
            a == abs(d * speed) as int,
    ;
    vstd::arithmetic::div_mod::lemma_div_is_ordered(a, speed * len, len);
    vstd::arithmetic::div_mod::lemma_div_multiples_vanish(speed, len);
    assert(len * speed == speed * len) by (nonlinear_arith);
    if d * speed >= 0 {
        assert(a == d * speed);
    } else {
        assert(a == -(d * speed));
    }
}

/// The velocity of the given speed along a direction.
pub fn velocity_toward(ddx: i64, ddy: i64, speed: i64) -> (r: Vec3)
    requires
        -DIRECTION_RANGE <= ddx <= DIRECTION_RANGE,
        -DIRECTION_RANGE <= ddy <= DIRECTION_RANGE,
        0 <= speed <= COORD_MAX,
    ensures
        r == toward_spec(ddx as int, ddy as int, speed as int),
        -speed <= r.x <= speed,
        -speed <= r.y <= speed,
        r.z == 0,
{
    let x: i128 = ddx as i128;
    let y: i128 = ddy as i128;
    proof {
        lemma_mul_bound(x as int, x as int, DIRECTION_RANGE as int, DIRECTION_RANGE as int);
        lemma_mul_bound(y as int, y as int, DIRECTION_RANGE as int, DIRECTION_RANGE as int);
        assert(0 <= x * x && 0 <= y * y) by (nonlinear_arith);
    }
    let n: i128 = x * x + y * y;
    let len = isqrt(n as u128) as i128;
    proof {
        lemma_isqrt_spec(n as int, len as int);
    }
    if len == 0 {
        Vec3 { x: speed, y: 0, z: 0 }
    } else {
        proof {
            assert(ddx * ddx < (len + 1) * (len + 1));
            assert(ddy * ddy < (len + 1) * (len + 1));
            lemma_toward_bound(ddx as int, len as int, speed as int);
            lemma_toward_bound(ddy as int, len as int, speed as int);
            lemma_mul_bound(ddx as int, speed as int, DIRECTION_RANGE as int, COORD_MAX as int);
            lemma_mul_bound(ddy as int, speed as int, DIRECTION_RANGE as int, COORD_MAX as int);
        }
        Vec3 {
            x: div_trunc(ddx as i128 * speed as i128, len) as i64,
            y: div_trunc(ddy as i128 * speed as i128, len) as i64,
            z: 0,
        }
    }
}

/// `v` is the velocity of the given speed along some direction that can be
/// drawn: each direction component at most `DIRECTION_RANGE` in magnitude.
pub open spec fn drawn_velocity(v: Vec3, speed: int) -> bool {
    exists|ddx: int, ddy: int|
        -DIRECTION_RANGE <= ddx <= DIRECTION_RANGE && -DIRECTION_RANGE <= ddy <= DIRECTION_RANGE
            && v == #[trigger] toward_spec(ddx, ddy, speed)
}

/// A velocity of the given speed in a random direction of the plane.
pub fn random_velocity(rng: &mut StdRng, speed: i64) -> (r: Vec3)
    requires
        0 <= speed <= COORD_MAX,
    ensures
        drawn_velocity(r, speed as int),
        -speed <= r.x <= speed,
        -speed <= r.y <= speed,
        r.z == 0,
        r.in_range(),
{
    let ddx = random_between(rng, -DIRECTION_RANGE, DIRECTION_RANGE);
    let ddy = random_between(rng, -DIRECTION_RANGE, DIRECTION_RANGE);
    velocity_toward(ddx, ddy, speed)
}

} // verus!
