//! The records of one particle: what is drawn, and what only the simulation
//! reads.
use crate::color::Color;
use crate::geometry::Vec3;
use vstd::prelude::*;

verus! {

/// What is drawn of a particle: where, how large, in which colour, and how
/// long it has lived (in microseconds).
#[derive(Debug, Clone, Copy, PartialEq, Eq, Structural)]
pub struct ParticleInstance {
    pub position: Vec3,
    pub color: Color,
    pub scale: i64,
    pub age: u64,
}

/// The full width and height of a particle at scale one.
#[derive(Debug, Clone, Copy, PartialEq, Eq, Structural)]
pub struct Extent {
    pub x: i64,
    pub y: i64,
}

/// What only the simulation reads of a particle: its velocity (units per
/// second) and the extent used to test it for overlap.
#[derive(Debug, Clone, Copy, PartialEq, Eq, Structural)]
pub struct ParticleData {
    pub velocity: Vec3,
    pub collider: Option<Extent>,
}

/// The scale that leaves a size unchanged: scales are fixed-point with this
/// denominator.
pub const SCALE_ONE: i64 = 1000000;

/// The largest scale of a particle.
pub const SCALE_MAX: i64 = 16000000;

/// `size` multiplied by the fixed-point `scale`, rounded toward zero.
pub open spec fn scaled(scale: int, size: int) -> int {
    scale * size / SCALE_ONE as int
}

impl Extent {
    pub open spec fn wf(self) -> bool {
        0 <= self.x <= crate::geometry::COORD_MAX && 0 <= self.y <= crate::geometry::COORD_MAX
    }
}

impl ParticleInstance {
    pub open spec fn wf(self) -> bool {
        &&& self.position.in_range()
        &&& 0 <= self.scale <= SCALE_MAX
        &&& self.color.wf()
    }
}

/// A drawn particle that ages as time passes.
pub trait Instance {
    spec fn age_spec(&self) -> u64;

    /// `self` and `other` agree in everything but their age.
    spec fn same_but_age(&self, other: &Self) -> bool;

    /// Ages the particle by `delta_time` microseconds, saturating at the
    /// largest age.
    fn update(&mut self, delta_time: u64)
        ensures
            final(self).age_spec() == if old(self).age_spec() + delta_time > u64::MAX {
                u64::MAX as int
            } else {
                old(self).age_spec() + delta_time
            },
            final(self).same_but_age(old(self)),
    ;
}

impl Instance for ParticleInstance {
    open spec fn age_spec(&self) -> u64 {
        self.age
    }

    open spec fn same_but_age(&self, other: &Self) -> bool {
        self.position == other.position && self.color == other.color && self.scale == other.scale
    }

    fn update(&mut self, delta_time: u64) {
        self.age = self.age.saturating_add(delta_time);
    }
}

impl ParticleData {
    pub open spec fn wf(self) -> bool {
        &&& self.velocity.in_range()
        &&& match self.collider {
            Some(c) => c.wf(),
            None => true,
        }
    }
}

} // verus!
