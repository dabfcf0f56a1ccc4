//! Points, axis-aligned domains and the boundary policies that keep a point
//! inside a domain.
use crate::random::random_between;
use rand::rngs::StdRng;
use vstd::math::abs;
use vstd::prelude::*;

verus! {

/// The largest magnitude of a coordinate, a size or a velocity component.
pub const COORD_MAX: i64 = 1099511627776;

pub open spec fn in_coord_range(v: int) -> bool {
    -COORD_MAX <= v <= COORD_MAX
}

/// `v` clamped into `[lo, hi]` (the lower bound wins when `lo > hi`).
pub open spec fn clamp_spec(v: int, lo: int, hi: int) -> int {
    if v < lo {
        lo
    } else if v > hi {
        hi
    } else {
        v
    }
}

/// Clamps `v` into `[lo, hi]`.
pub fn clamp_i64(v: i64, lo: i64, hi: i64) -> (r: i64)
    ensures
        r == clamp_spec(v as int, lo as int, hi as int),
{
    if v < lo {
        lo
    } else if v > hi {
        hi
    } else {
        v
    }
}

/// Clamps a wide intermediate value into the coordinate range.
pub fn saturate(v: i128) -> (r: i64)
    ensures
        r == clamp_spec(v as int, -COORD_MAX, COORD_MAX as int),
        in_coord_range(r as int),
{
    if v < -(COORD_MAX as i128) {
        -COORD_MAX
    } else if v > COORD_MAX as i128 {
        COORD_MAX
    } else {
        v as i64
    }
}

#[derive(Debug, Clone, Copy, PartialEq, Eq, Structural)]
pub struct Vec3 {
    pub x: i64,
    pub y: i64,
    pub z: i64,
}

impl Vec3 {
    pub open spec fn in_range(self) -> bool {
        in_coord_range(self.x as int) && in_coord_range(self.y as int) && in_coord_range(
            self.z as int,
        )
    }

    pub fn new(x: i64, y: i64, z: i64) -> (r: Vec3)
        ensures
            r == (Vec3 { x, y, z }),
    {
        Vec3 { x, y, z }
    }

    pub fn zero() -> (r: Vec3)
        ensures
            r == (Vec3 { x: 0, y: 0, z: 0 }),
    {
        Vec3 { x: 0, y: 0, z: 0 }
    }
}

/// How a domain corrects a position that has left it.
#[derive(Debug, Clone, Copy, PartialEq, Eq, Structural)]
pub enum BoundingBoxType {
    Clamp,
    Modulo,
    Ignore,
    Bounce,
}

/// An axis-aligned box with a boundary policy.
#[derive(Debug, Clone, Copy, PartialEq, Eq, Structural)]
pub struct BoundingBox {
    pub min_pos: Vec3,
    pub max_pos: Vec3,
    pub bound_type: BoundingBoxType,
}

pub open spec fn min_spec(a: int, b: int) -> int {
    if a <= b {
        a
    } else {
        b
    }
}

pub open spec fn max_spec(a: int, b: int) -> int {
    if a >= b {
        a
    } else {
        b
    }
}

/// One component of a wrap: a value below `lo` moves up by the width, one
/// above `hi` moves down by it, one inside stays.
pub open spec fn wrap_spec(v: int, lo: int, hi: int) -> int {
    if v < lo {
        v + (hi - lo)
    } else if v > hi {
        v - (hi - lo)
    } else {
        v
    }
}

fn wrap_i64(v: i64, lo: i64, hi: i64) -> (r: i64)
    requires
        lo <= hi,
        in_coord_range(lo as int),
        in_coord_range(hi as int),
    ensures
        r == wrap_spec(v as int, lo as int, hi as int),
{
    if v < lo {
        v + (hi - lo)
    } else if v > hi {
        v - (hi - lo)
    } else {
        v
    }
}

impl BoundingBox {
    /// Lower corner below or at the upper corner, both in the coordinate range.
    pub open spec fn wf(self) -> bool {
        &&& self.min_pos.in_range()
        &&& self.max_pos.in_range()
        &&& self.min_pos.x <= self.max_pos.x
        &&& self.min_pos.y <= self.max_pos.y
        &&& self.min_pos.z <= self.max_pos.z
    }

    pub open spec fn contains(self, p: Vec3) -> bool {
        &&& self.min_pos.x <= p.x <= self.max_pos.x
        &&& self.min_pos.y <= p.y <= self.max_pos.y
        &&& self.min_pos.z <= p.z <= self.max_pos.z
    }

    pub open spec fn width_spec(self) -> int {
        self.max_pos.x - self.min_pos.x
    }

    pub open spec fn height_spec(self) -> int {
        self.max_pos.y - self.min_pos.y
    }

    pub fn width(&self) -> (r: i64)
        requires
            self.wf(),
        ensures
            r == self.width_spec(),
    {
        self.max_pos.x - self.min_pos.x
    }

    pub fn height(&self) -> (r: i64)
        requires
            self.wf(),
        ensures
            r == self.height_spec(),
    {
        self.max_pos.y - self.min_pos.y
    }

    pub fn depth(&self) -> (r: i64)
        requires
            self.wf(),
        ensures
            r == self.max_pos.z - self.min_pos.z,
    {
        self.max_pos.z - self.min_pos.z
    }

    pub fn bound_type(&self) -> (r: BoundingBoxType)
        ensures
            r == self.bound_type,
    {
        self.bound_type
    }

    /// The box spanned by two corners, in either order.
    pub fn new(position_1: Vec3, position_2: Vec3, bound_type: BoundingBoxType) -> (r: BoundingBox)
        requires
            position_1.in_range(),
            position_2.in_range(),
        ensures
            r.wf(),
            r.bound_type == bound_type,
            r.min_pos.x == min_spec(position_1.x as int, position_2.x as int),
            r.min_pos.y == min_spec(position_1.y as int, position_2.y as int),
            r.min_pos.z == min_spec(position_1.z as int, position_2.z as int),
            r.max_pos.x == max_spec(position_1.x as int, position_2.x as int),
            r.max_pos.y == max_spec(position_1.y as int, position_2.y as int),
            r.max_pos.z == max_spec(position_1.z as int, position_2.z as int),
    {
        let min_pos = Vec3 {
            x: if position_1.x <= position_2.x { position_1.x } else { position_2.x },
            y: if position_1.y <= position_2.y { position_1.y } else { position_2.y },
            z: if position_1.z <= position_2.z { position_1.z } else { position_2.z },
        };
        let max_pos = Vec3 {
            x: if position_1.x >= position_2.x { position_1.x } else { position_2.x },
            y: if position_1.y >= position_2.y { position_1.y } else { position_2.y },
            z: if position_1.z >= position_2.z { position_1.z } else { position_2.z },
        };
        BoundingBox { min_pos, max_pos, bound_type }
    }

    /// The box of the given extents around a centre. A negative extent counts
    /// by its magnitude; the lower corner sits half the extent (rounded down)
    /// below the centre and the upper corner a full extent above the lower one.
    pub fn new_with_size(
        pos: Vec3,
        size_x: i64,
        size_y: i64,
        size_z: i64,
        bound_type: BoundingBoxType,
    ) -> (r: BoundingBox)
        requires
            pos.in_range(),
            in_coord_range(pos.x - abs(size_x as int)),
            in_coord_range(pos.x + abs(size_x as int)),
            in_coord_range(pos.y - abs(size_y as int)),
            in_coord_range(pos.y + abs(size_y as int)),
            in_coord_range(pos.z - abs(size_z as int)),
            in_coord_range(pos.z + abs(size_z as int)),
        ensures
            r.wf(),
            r.bound_type == bound_type,
            r.min_pos.x == pos.x - abs(size_x as int) / 2,
            r.min_pos.y == pos.y - abs(size_y as int) / 2,
            r.min_pos.z == pos.z - abs(size_z as int) / 2,
            r.max_pos.x - r.min_pos.x == abs(size_x as int),
            r.max_pos.y - r.min_pos.y == abs(size_y as int),
            r.max_pos.z - r.min_pos.z == abs(size_z as int),
    {
        let ax: i64 = if size_x < 0 { -size_x } else { size_x };
        let ay: i64 = if size_y < 0 { -size_y } else { size_y };
        let az: i64 = if size_z < 0 { -size_z } else { size_z };
        let min_pos = Vec3 { x: pos.x - ax / 2, y: pos.y - ay / 2, z: pos.z - az / 2 };
        let max_pos = Vec3 { x: min_pos.x + ax, y: min_pos.y + ay, z: min_pos.z + az };
        BoundingBox { min_pos, max_pos, bound_type }
    }

    /// Each component clamped into the box.
    pub fn clamp_pos(&self, pos: Vec3) -> (r: Vec3)
        requires
            self.wf(),
        ensures
            self.contains(r),
            r.x == clamp_spec(pos.x as int, self.min_pos.x as int, self.max_pos.x as int),
            r.y == clamp_spec(pos.y as int, self.min_pos.y as int, self.max_pos.y as int),
            r.z == clamp_spec(pos.z as int, self.min_pos.z as int, self.max_pos.z as int),
    {
        Vec3 {
            x: clamp_i64(pos.x, self.min_pos.x, self.max_pos.x),
            y: clamp_i64(pos.y, self.min_pos.y, self.max_pos.y),
            z: clamp_i64(pos.z, self.min_pos.z, self.max_pos.z),
        }
    }

    /// A point drawn component by component from the box.
    pub fn random_pos(&self, rng: &mut StdRng) -> (r: Vec3)
        requires
            self.wf(),
        ensures
            self.contains(r),
            r.in_range(),
    {
        Vec3 {
            x: random_between(rng, self.min_pos.x, self.max_pos.x),
            y: random_between(rng, self.min_pos.y, self.max_pos.y),
            z: random_between(rng, self.min_pos.z, self.max_pos.z),
        }
    }

    /// Each component that left the box re-enters one width further on, at
    /// the opposite side.
    pub fn modulo_pos(&self, pos: Vec3) -> (r: Vec3)
        requires
            self.wf(),
        ensures
            r.x == wrap_spec(pos.x as int, self.min_pos.x as int, self.max_pos.x as int),
            r.y == wrap_spec(pos.y as int, self.min_pos.y as int, self.max_pos.y as int),
            r.z == wrap_spec(pos.z as int, self.min_pos.z as int, self.max_pos.z as int),
    {
        Vec3 {
            x: wrap_i64(pos.x, self.min_pos.x, self.max_pos.x),
            y: wrap_i64(pos.y, self.min_pos.y, self.max_pos.y),
            z: wrap_i64(pos.z, self.min_pos.z, self.max_pos.z),
        }
    }
}


/// `r` is the integer square root of `n`.
pub open spec fn is_isqrt(n: int, r: int) -> bool {
    0 <= r && r * r <= n < (r + 1) * (r + 1)
}

/// The integer square root: the largest `r` with `r * r <= n`.
pub fn isqrt(n: u128) -> (r: u128)
    ensures
        is_isqrt(n as int, r as int),
        r < 0x1_0000_0000_0000_0000,
{
    let mut lo: u128 = 0;
    let mut hi: u128 = 0x1_0000_0000_0000_0000;
    assert(n < hi * hi) by (nonlinear_arith)
        requires
            hi == 0x1_0000_0000_0000_0000u128,
            n <= u128::MAX,
    ;
    while hi - lo > 1
        invariant
            lo < hi <= 0x1_0000_0000_0000_0000,
            lo * lo <= n,
            n < hi * hi,
        decreases hi - lo,
    {
        let mid = lo + (hi - lo) / 2;
        assert(mid * mid <= u128::MAX) by (nonlinear_arith)
            requires
                mid < 0x1_0000_0000_0000_0000,
        ;
        if mid * mid <= n {
            lo = mid;
        } else {
            hi = mid;
        }
    }
    assert(hi == lo + 1);
    lo
}

/// Integer division rounded toward zero, by a positive divisor.
pub open spec fn trunc_div(a: int, b: int) -> int {
    if a >= 0 {
        a / b
    } else {
        -((-a) / b)
    }
}

pub proof fn lemma_trunc_div_bounds(a: int, b: int)
    requires
        0 < b,
    ensures
        a >= 0 ==> 0 <= trunc_div(a, b) <= a,
        a < 0 ==> a <= trunc_div(a, b) <= 0,
{
    if a >= 0 {
        vstd::arithmetic::div_mod::lemma_div_pos_is_pos(a, b);
        vstd::arithmetic::div_mod::lemma_div_is_ordered_by_denominator(a, 1, b);
    } else {
        vstd::arithmetic::div_mod::lemma_div_pos_is_pos(-a, b);
        vstd::arithmetic::div_mod::lemma_div_is_ordered_by_denominator(-a, 1, b);
    }
}

/// `a / b` rounded toward zero.
pub fn div_trunc(a: i128, b: i128) -> (r: i128)
    requires
        0 < b,
        a > i128::MIN,
    ensures
        r == trunc_div(a as int, b as int),
{
    proof {
        lemma_trunc_div_bounds(a as int, b as int);
    }
    if a >= 0 {
        ((a as u128) / (b as u128)) as i128
    } else {
        -((((-a) as u128) / (b as u128)) as i128)
    }
}

} // verus!
