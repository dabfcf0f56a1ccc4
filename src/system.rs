//! A particle system: the particle store, each particle's simulation data
//! at the same index, the domain, and one integration step.
use crate::color::Color;
use crate::geometry::{
    clamp_spec, div_trunc, lemma_trunc_div_bounds, saturate, trunc_div, wrap_spec, BoundingBox,
    BoundingBoxType, Vec3, COORD_MAX,
};
use crate::grid::InstanceContainer;
use crate::particle::{scaled, Extent, ParticleData, ParticleInstance, SCALE_MAX, SCALE_ONE};
use crate::physics::{sat, MICROS_PER_SECOND};
use rand::rngs::StdRng;
use vstd::math::abs;
use vstd::prelude::*;

verus! {

/// The domain that a particle system lives in.
#[derive(Debug, Clone, Copy, PartialEq, Eq, Structural)]
pub struct ParticleSystemData {
    pub domain: BoundingBox,
}

impl ParticleSystemData {
    pub fn new(domain: BoundingBox) -> (r: Self)
        ensures
            r.domain == domain,
    {
        ParticleSystemData { domain }
    }
}

/// Where a particle at `p` moving at `v` is after `dt` microseconds, before
/// any boundary policy, saturated to the coordinate range.
pub open spec fn advance_spec(p: Vec3, v: Vec3, dt: int) -> Vec3 {
    Vec3 {
        x: sat(p.x + trunc_div(v.x * dt, MICROS_PER_SECOND as int)) as i64,
        y: sat(p.y + trunc_div(v.y * dt, MICROS_PER_SECOND as int)) as i64,
        z: sat(p.z + trunc_div(v.z * dt, MICROS_PER_SECOND as int)) as i64,
    }
}

/// The velocity component after a bounce test along one axis: pointing
/// inward where the particle's edge, `half` from its centre, has crossed the
/// lower bound, or else the upper one.
pub open spec fn bounce_axis(v: int, p: int, lo: int, hi: int, half: int) -> int {
    if lo - p > -half {
        abs(v) as int
    } else if hi - p < half {
        -abs(v)
    } else {
        v
    }
}

/// Half of a particle's scaled extent along each axis; zero without a
/// collider.
pub open spec fn half_extent(inst: ParticleInstance, data: ParticleData) -> (int, int) {
    match data.collider {
        Some(c) => (scaled(inst.scale as int, c.x as int) / 2, scaled(inst.scale as int, c.y as int) / 2),
        None => (0, 0),
    }
}

/// The velocity after the bounce tests of all three axes; the depth axis
/// has no extent.
pub open spec fn bounced_velocity(domain: BoundingBox, inst: ParticleInstance, data: ParticleData) -> Vec3 {
    let (hx, hy) = half_extent(inst, data);
    let p = inst.position;
    let v = data.velocity;
    Vec3 {
        x: bounce_axis(v.x as int, p.x as int, domain.min_pos.x as int, domain.max_pos.x as int, hx) as i64,
        y: bounce_axis(v.y as int, p.y as int, domain.min_pos.y as int, domain.max_pos.y as int, hy) as i64,
        z: bounce_axis(v.z as int, p.z as int, domain.min_pos.z as int, domain.max_pos.z as int, 0) as i64,
    }
}

pub open spec fn clamp_vec(domain: BoundingBox, p: Vec3) -> Vec3 {
    Vec3 {
        x: clamp_spec(p.x as int, domain.min_pos.x as int, domain.max_pos.x as int) as i64,
        y: clamp_spec(p.y as int, domain.min_pos.y as int, domain.max_pos.y as int) as i64,
        z: clamp_spec(p.z as int, domain.min_pos.z as int, domain.max_pos.z as int) as i64,
    }
}

pub open spec fn wrap_vec(domain: BoundingBox, p: Vec3) -> Vec3 {
    Vec3 {
        x: wrap_spec(p.x as int, domain.min_pos.x as int, domain.max_pos.x as int) as i64,
        y: wrap_spec(p.y as int, domain.min_pos.y as int, domain.max_pos.y as int) as i64,
        z: wrap_spec(p.z as int, domain.min_pos.z as int, domain.max_pos.z as int) as i64,
    }
}

pub open spec fn aged(age: int, dt: int) -> u64 {
    if age + dt > u64::MAX {
        u64::MAX
    } else {
        (age + dt) as u64
    }
}

/// One particle after one step of `dt` microseconds under the domain's
/// policy: it ages, moves by its velocity, and is then clamped into the
/// domain (`Clamp`), wrapped round it (`Modulo`), left alone (`Ignore`), or,
/// for `Bounce`, first has each velocity component turned inward where its
/// edge has left the domain and is then clamped.
pub open spec fn step_spec(
    domain: BoundingBox,
    inst: ParticleInstance,
    data: ParticleData,
    dt: int,
) -> (ParticleInstance, ParticleData) {
    let age = aged(inst.age as int, dt);
    match domain.bound_type {
        BoundingBoxType::Clamp => (
            ParticleInstance {
                position: clamp_vec(domain, advance_spec(inst.position, data.velocity, dt)),
                age,
                ..inst
            },
            data,
        ),
        BoundingBoxType::Modulo => (
            ParticleInstance {
                position: wrap_vec(domain, advance_spec(inst.position, data.velocity, dt)),
                age,
                ..inst
            },
            data,
        ),
        BoundingBoxType::Ignore => (
            ParticleInstance { position: advance_spec(inst.position, data.velocity, dt), age, ..inst },
            data,
        ),
        BoundingBoxType::Bounce => {
            let v = bounced_velocity(domain, inst, data);
            (
                ParticleInstance {
                    position: clamp_vec(domain, advance_spec(inst.position, v, dt)),
                    age,
                    ..inst
                },
                ParticleData { velocity: v, ..data },
            )
        },
    }
}

/// Moves `p` by `v` for `dt` microseconds.
pub fn advance(p: Vec3, v: Vec3, dt: u64) -> (r: Vec3)
    requires
        p.in_range(),
        v.in_range(),
    ensures
        r == advance_spec(p, v, dt as int),
        r.in_range(),
{
    let t: i128 = dt as i128;
    let m: i128 = MICROS_PER_SECOND as i128;
    proof {
        assert(-COORD_MAX * 0x1_0000_0000_0000_0000 <= v.x * t <= COORD_MAX * 0x1_0000_0000_0000_0000
            && -COORD_MAX * 0x1_0000_0000_0000_0000 <= v.y * t <= COORD_MAX * 0x1_0000_0000_0000_0000
            && -COORD_MAX * 0x1_0000_0000_0000_0000 <= v.z * t <= COORD_MAX * 0x1_0000_0000_0000_0000)
            by (nonlinear_arith)
            requires
                v.in_range(),
                0 <= t < 0x1_0000_0000_0000_0000,
        ;
    }
    let sx = div_trunc(v.x as i128 * t, m);
    let sy = div_trunc(v.y as i128 * t, m);
    let sz = div_trunc(v.z as i128 * t, m);
    proof {
        lemma_trunc_div_bounds(v.x * t, m as int);
        lemma_trunc_div_bounds(v.y * t, m as int);
        lemma_trunc_div_bounds(v.z * t, m as int);
    }
    Vec3 {
        x: saturate(p.x as i128 + sx),
        y: saturate(p.y as i128 + sy),
        z: saturate(p.z as i128 + sz),
    }
}

fn bounce_axis_exec(v: i64, p: i64, lo: i64, hi: i64, half: i64) -> (r: i64)
    requires
        -COORD_MAX <= v <= COORD_MAX,
        -COORD_MAX <= p <= COORD_MAX,
        -COORD_MAX <= lo <= COORD_MAX,
        -COORD_MAX <= hi <= COORD_MAX,
        0 <= half <= 16 * COORD_MAX,
    ensures
        r == bounce_axis(v as int, p as int, lo as int, hi as int, half as int),
{
    let a: i64 = if v < 0 {
        -v
    } else {
        v
    };
    if lo - p > -half {
        a
    } else if hi - p < half {
        -a
    } else {
        v
    }
}

/// Half of the scaled extent `scale * size / SCALE_ONE`.
fn half_scaled(scale: i64, size: i64) -> (r: i64)
    requires
        0 <= scale <= SCALE_MAX,
        0 <= size <= COORD_MAX,
    ensures
        r == scaled(scale as int, size as int) / 2,
        0 <= r <= 16 * COORD_MAX,
{
    proof {
        assert(0 <= scale * size <= SCALE_MAX * COORD_MAX) by (nonlinear_arith)
            requires
                0 <= scale <= SCALE_MAX,
                0 <= size <= COORD_MAX,
        ;
        vstd::arithmetic::div_mod::lemma_div_pos_is_pos(scale * size, SCALE_ONE as int);
        vstd::arithmetic::div_mod::lemma_div_is_ordered(scale * size, SCALE_MAX * COORD_MAX, SCALE_ONE as int);
        assert((SCALE_MAX * COORD_MAX) / (SCALE_ONE as int) == 16 * COORD_MAX);
    }
    let s: i128 = scale as i128 * size as i128;
    ((s / SCALE_ONE as i128) / 2) as i64
}

/// One particle after one integration step.
pub fn step_particle(
    domain: &BoundingBox,
    inst: ParticleInstance,
    data: ParticleData,
    dt: u64,
) -> (r: (ParticleInstance, ParticleData))
    requires
        domain.wf(),
        inst.wf(),
        data.wf(),
    ensures
        r == step_spec(*domain, inst, data, dt as int),
        r.0.wf(),
        r.1.wf(),
{
    let age = inst.age.saturating_add(dt);
    match domain.bound_type {
        BoundingBoxType::Clamp => {
            let p = domain.clamp_pos(advance(inst.position, data.velocity, dt));
            (ParticleInstance { position: p, age, ..inst }, data)
        },
        BoundingBoxType::Modulo => {
            let p = domain.modulo_pos(advance(inst.position, data.velocity, dt));
            (ParticleInstance { position: p, age, ..inst }, data)
        },
        BoundingBoxType::Ignore => {
            let p = advance(inst.position, data.velocity, dt);
            (ParticleInstance { position: p, age, ..inst }, data)
        },
        BoundingBoxType::Bounce => {
            let (hx, hy) = match data.collider {
                Some(c) => (half_scaled(inst.scale, c.x), half_scaled(inst.scale, c.y)),
                None => (0, 0),
            };
            let p = inst.position;
            let v = data.velocity;
            let nv = Vec3 {
                x: bounce_axis_exec(v.x, p.x, domain.min_pos.x, domain.max_pos.x, hx),
                y: bounce_axis_exec(v.y, p.y, domain.min_pos.y, domain.max_pos.y, hy),
                z: bounce_axis_exec(v.z, p.z, domain.min_pos.z, domain.max_pos.z, 0),
            };
            let np = domain.clamp_pos(advance(p, nv, dt));
            (ParticleInstance { position: np, age, ..inst }, ParticleData { velocity: nv, ..data })
        },
    }
}

/// Under the `Clamp` and `Bounce` policies, every particle is inside the
/// domain after one integration step, whatever its position and velocity
/// before.
pub proof fn lemma_step_stays_inside(
    domain: BoundingBox,
    inst: ParticleInstance,
    data: ParticleData,
    dt: int,
)
    requires
        domain.wf(),
        domain.bound_type == BoundingBoxType::Clamp || domain.bound_type == BoundingBoxType::Bounce,
    ensures
        domain.contains(step_spec(domain, inst, data, dt).0.position),
{
}

/// `b1` is `b0` after one integration step of `dt` microseconds: every
/// particle stepped per `step_spec`, the grid and the domain kept.
pub open spec fn stepped(b0: ParticleSystem, b1: ParticleSystem, dt: int) -> bool {
    &&& b1.wf()
    &&& b1.len_spec() == b0.len_spec()
    &&& b1.particle_system_data == b0.particle_system_data
    &&& b1.collider == b0.collider
    &&& b1.instances.regions@ == b0.instances.regions@
    &&& b1.instances.regions_x == b0.instances.regions_x
    &&& b1.instances.regions_y == b0.instances.regions_y
    &&& b1.instances.bounding_box == b0.instances.bounding_box
    &&& forall|i: int|
        0 <= i < b0.len_spec() ==> (#[trigger] b1.instances.instances@[i], b1.particle_data@[i])
            == step_spec(
            b0.particle_system_data.domain,
            b0.instances.instances@[i],
            b0.particle_data@[i],
            dt,
        )
}

/// The particles, their simulation data index for index, the domain, and the
/// extent that every particle is made with.
pub struct ParticleSystem {
    pub instances: InstanceContainer,
    pub particle_data: Vec<ParticleData>,
    pub particle_system_data: ParticleSystemData,
    pub collider: Extent,
}

impl ParticleSystem {
    /// The store and the data have one entry per particle, every record is
    /// well formed, and the domain is a proper box.
    pub open spec fn wf(self) -> bool {
        &&& self.instances.instances@.len() == self.particle_data@.len()
        &&& self.particle_system_data.domain.wf()
        &&& self.collider.wf()
        &&& forall|i: int|
            0 <= i < self.particle_data@.len() ==> (#[trigger] self.instances.instances@[i]).wf()
                && self.particle_data@[i].wf()
    }

    pub open spec fn len_spec(self) -> nat {
        self.instances.instances@.len()
    }

    /// An empty system of particles of the given width and height in the
    /// given domain.
    pub fn create_billboard(width: i64, height: i64, particle_system_data: ParticleSystemData) -> (r: ParticleSystem)
        requires
            particle_system_data.domain.wf(),
            0 <= width <= COORD_MAX,
            0 <= height <= COORD_MAX,
        ensures
            r.wf(),
            r.len_spec() == 0,
            r.particle_system_data == particle_system_data,
            r.collider == (Extent { x: width, y: height }),
    {
        ParticleSystem {
            instances: InstanceContainer::new(Vec::new(), 1, 1),
            particle_data: Vec::new(),
            particle_system_data,
            collider: Extent { x: width, y: height },
        }
    }

    pub fn len(&self) -> (r: usize)
        ensures
            r == self.len_spec(),
    {
        self.instances.instances.len()
    }

    /// Appends `instance_count` white particles of scale one at random places
    /// in the domain, at rest.
    pub fn populate_random(&mut self, rng: &mut StdRng, instance_count: usize)
        requires
            old(self).wf(),
        ensures
            final(self).wf(),
            final(self).len_spec() == old(self).len_spec() + instance_count,
            final(self).particle_system_data == old(self).particle_system_data,
            final(self).collider == old(self).collider,
            final(self).instances.regions@ == old(self).instances.regions@,
            final(self).instances.regions_x == old(self).instances.regions_x,
            final(self).instances.regions_y == old(self).instances.regions_y,
            final(self).instances.bounding_box == old(self).instances.bounding_box,
            forall|i: int|
                0 <= i < old(self).len_spec() ==> final(self).instances.instances@[i]
                    == old(self).instances.instances@[i] && final(self).particle_data@[i]
                    == old(self).particle_data@[i],
            forall|i: int|
                old(self).len_spec() <= i < final(self).len_spec() ==> {
                    let p = #[trigger] final(self).instances.instances@[i];
                    &&& old(self).particle_system_data.domain.contains(p.position)
                    &&& p.color == Color::white_spec()
                    &&& p.scale == SCALE_ONE
                    &&& p.age == 0
                    &&& final(self).particle_data@[i] == (ParticleData {
                        velocity: Vec3 { x: 0, y: 0, z: 0 },
                        collider: Some(old(self).collider),
                    })
                },
    {
        let mut k: usize = 0;
        while k < instance_count
            invariant
                k <= instance_count,
                self.wf(),
                self.len_spec() == old(self).len_spec() + k,
                self.particle_system_data == old(self).particle_system_data,
                self.collider == old(self).collider,
                self.instances.regions@ == old(self).instances.regions@,
                self.instances.regions_x == old(self).instances.regions_x,
                self.instances.regions_y == old(self).instances.regions_y,
                self.instances.bounding_box == old(self).instances.bounding_box,
                forall|i: int|
                    0 <= i < old(self).len_spec() ==> self.instances.instances@[i]
                        == old(self).instances.instances@[i] && self.particle_data@[i]
                        == old(self).particle_data@[i],
                forall|i: int|
                    old(self).len_spec() <= i < self.len_spec() ==> {
                        let p = #[trigger] self.instances.instances@[i];
                        &&& old(self).particle_system_data.domain.contains(p.position)
                        &&& p.color == Color::white_spec()
                        &&& p.scale == SCALE_ONE
                        &&& p.age == 0
                        &&& self.particle_data@[i] == (ParticleData {
                            velocity: Vec3 { x: 0, y: 0, z: 0 },
                            collider: Some(old(self).collider),
                        })
                    },
            decreases instance_count - k,
        {
            let position = self.particle_system_data.domain.random_pos(rng);
            self.instances.push(
                ParticleInstance { position, color: Color::white(), scale: SCALE_ONE, age: 0 },
            );
            self.particle_data.push(
                ParticleData { velocity: Vec3::zero(), collider: Some(self.collider) },
            );
            k = k + 1;
        }
    }

    /// One integration step of `delta_t` microseconds for every particle.
    pub fn update(&mut self, delta_t: u64)
        requires
            old(self).wf(),
        ensures
            stepped(*old(self), *final(self), delta_t as int),
            final(self).wf(),
            final(self).len_spec() == old(self).len_spec(),
            final(self).particle_system_data == old(self).particle_system_data,
            final(self).collider == old(self).collider,
            final(self).instances.regions@ == old(self).instances.regions@,
            final(self).instances.regions_x == old(self).instances.regions_x,
            final(self).instances.regions_y == old(self).instances.regions_y,
            final(self).instances.bounding_box == old(self).instances.bounding_box,
            forall|i: int|
                0 <= i < old(self).len_spec() ==> (
                #[trigger] final(self).instances.instances@[i],
                final(self).particle_data@[i],
            ) == step_spec(
                old(self).particle_system_data.domain,
                old(self).instances.instances@[i],
                old(self).particle_data@[i],
                delta_t as int,
            ),
    {
        let n = self.instances.instances.len();
        let mut i: usize = 0;
        while i < n
            invariant
                i <= n,
                n == old(self).len_spec(),
                self.wf(),
                self.len_spec() == n,
                self.particle_system_data == old(self).particle_system_data,
                self.collider == old(self).collider,
                self.instances.regions@ == old(self).instances.regions@,
                self.instances.regions_x == old(self).instances.regions_x,
                self.instances.regions_y == old(self).instances.regions_y,
                self.instances.bounding_box == old(self).instances.bounding_box,
                forall|k: int|
                    i <= k < n ==> self.instances.instances@[k] == old(self).instances.instances@[k]
                        && self.particle_data@[k] == old(self).particle_data@[k],
                forall|k: int|
                    0 <= k < i ==> (
                    #[trigger] self.instances.instances@[k],
                    self.particle_data@[k],
                ) == step_spec(
                    old(self).particle_system_data.domain,
                    old(self).instances.instances@[k],
                    old(self).particle_data@[k],
                    delta_t as int,
                ),
            decreases n - i,
        {
            let (inst, data) = step_particle(
                &self.particle_system_data.domain,
                self.instances.instances[i],
                self.particle_data[i],
                delta_t,
            );
            self.instances.instances.set(i, inst);
            self.particle_data.set(i, data);
            i = i + 1;
        }
    }

    /// Replaces particle `i`'s record with a well-formed one.
    pub fn set_instance(&mut self, i: usize, inst: ParticleInstance)
        requires
            old(self).wf(),
            i < old(self).len_spec(),
            inst.wf(),
        ensures
            final(self).wf(),
            final(self).instances.instances@ == old(self).instances.instances@.update(i as int, inst),
            final(self).particle_data@ == old(self).particle_data@,
            final(self).particle_system_data == old(self).particle_system_data,
            final(self).collider == old(self).collider,
            final(self).instances.regions@ == old(self).instances.regions@,
            final(self).instances.regions_x == old(self).instances.regions_x,
            final(self).instances.regions_y == old(self).instances.regions_y,
            final(self).instances.bounding_box == old(self).instances.bounding_box,
    {
        self.instances.instances.set(i, inst);
        assert forall|k: int| 0 <= k < self.particle_data@.len() implies (
        #[trigger] self.instances.instances@[k]).wf() && self.particle_data@[k].wf() by {
            if k != i {
                assert(old(self).instances.instances@[k].wf());
            }
        }
    }

    /// Replaces particle `i`'s simulation data with well-formed data.
    pub fn set_data(&mut self, i: usize, data: ParticleData)
        requires
            old(self).wf(),
            i < old(self).len_spec(),
            data.wf(),
        ensures
            final(self).wf(),
            final(self).particle_data@ == old(self).particle_data@.update(i as int, data),
            final(self).instances == old(self).instances,
            final(self).particle_system_data == old(self).particle_system_data,
            final(self).collider == old(self).collider,
    {
        self.particle_data.set(i, data);
        assert forall|k: int| 0 <= k < self.particle_data@.len() implies (
        #[trigger] self.instances.instances@[k]).wf() && self.particle_data@[k].wf() by {
            assert(old(self).instances.instances@[k].wf());
        }
    }
}

} // verus!
