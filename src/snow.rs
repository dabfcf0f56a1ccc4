//! The snow variant: two layers of flakes drifting through a wrapping
//! domain, without collisions. A flake's depth sets its size, its opacity
//! and its speed.
use crate::balls::LENGTH_UNIT;
use crate::color::{Alpha, Color};
use crate::config::Configurator;
use crate::geometry::{
    div_trunc, lemma_trunc_div_bounds, trunc_div, BoundingBox, BoundingBoxType, Vec3, COORD_MAX,
};
use crate::particle::{ParticleData, ParticleInstance, SCALE_ONE};
use crate::random::{random_between, seeded_rng};
use crate::system::{stepped, ParticleSystem, ParticleSystemData};
use rand::rngs::StdRng;
use vstd::prelude::*;

verus! {

/// The width and height of a flake at scale one.
pub const FLAKE_EXTENT: i64 = 30000;

/// The number of flake layers.
pub const SNOW_LAYERS: usize = 2;

/// The depth a flake is drawn at for a depth `z` drawn uniformly from
/// `[0, 1]`: `1 - z²`, so that more flakes lie near the front.
pub open spec fn flake_depth(z: int) -> int {
    LENGTH_UNIT - z * z / (LENGTH_UNIT as int)
}

/// A flake at depth `depth` is `1 - 0.8 depth` times its full size.
pub open spec fn flake_scale(depth: int) -> int {
    SCALE_ONE - depth * 4 / 5
}

/// What a flake drawn at `p` becomes: moved to its depth, sized, faded by
/// depth, and drifting left and down in proportion to its size, by the
/// drawn amounts `dx` and `dy` (each at most a tenth of a unit).
pub open spec fn flake_spec(p: Vec3, dx: int, dy: int) -> (ParticleInstance, ParticleData) {
    let depth = flake_depth(p.z as int);
    let scale = flake_scale(depth);
    (
        ParticleInstance {
            position: Vec3 { z: depth as i64, ..p },
            color: Color {
                r: 255,
                g: 255,
                b: 255,
                a: Alpha { num: (LENGTH_UNIT - depth) as u64, den: LENGTH_UNIT as u64 },
            },
            scale: scale as i64,
            age: 0,
        },
        ParticleData {
            velocity: Vec3 {
                x: trunc_div((dx - 4 * LENGTH_UNIT / 10) * scale, SCALE_ONE as int) as i64,
                y: trunc_div((dy + 5 * LENGTH_UNIT / 10) * scale, SCALE_ONE as int) as i64,
                z: 0,
            },
            collider: None,
        },
    )
}

/// A flake made from a particle drawn at `p`, for some drawn drift.
pub open spec fn is_flake(inst: ParticleInstance, data: ParticleData, p: Vec3) -> bool {
    exists|dx: int, dy: int|
        0 <= dx <= LENGTH_UNIT / 10 && 0 <= dy <= LENGTH_UNIT / 10 && (inst, data)
            == #[trigger] flake_spec(p, dx, dy)
}

/// A fresh flake: one made from a particle drawn somewhere in the domain.
pub open spec fn fresh_flake(inst: ParticleInstance, data: ParticleData) -> bool {
    exists|p: Vec3| snow_domain_spec().contains(p) && #[trigger] is_flake(inst, data, p)
}

/// Every particle of a layer is a fresh flake.
pub open spec fn fresh_layer(sys: ParticleSystem) -> bool {
    forall|k: int|
        0 <= k < sys.len_spec() ==> fresh_flake(
            #[trigger] sys.instances.instances@[k],
            sys.particle_data@[k],
        )
}

/// `b1` is layer `b0` brought to `count` flakes: the first ones kept as they
/// were, the new ones fresh flakes; unchanged where the count did not change.
pub open spec fn resized_layer(b0: ParticleSystem, b1: ParticleSystem, count: int, changed: bool) -> bool {
    if !changed {
        b1 == b0
    } else {
        &&& b1.len_spec() == count
        &&& b1.particle_system_data == b0.particle_system_data
        &&& forall|k: int|
            0 <= k < count && k < b0.len_spec() ==> #[trigger] b1.instances.instances@[k]
                == b0.instances.instances@[k] && b1.particle_data@[k] == b0.particle_data@[k]
        &&& forall|k: int|
            b0.len_spec() <= k < count ==> fresh_flake(
                #[trigger] b1.instances.instances@[k],
                b1.particle_data@[k],
            )
    }
}

/// Layer `b1` is layer `b0` after a frame: resized, then stepped.
pub open spec fn layer_frame(b0: ParticleSystem, b1: ParticleSystem, count: int, changed: bool, dt: int) -> bool {
    exists|g: ParticleSystem|
        #![trigger resized_layer(b0, g, count, changed)]
        resized_layer(b0, g, count, changed) && stepped(g, b1, dt)
}

/// The snow variant's state between frames.
pub struct SnowScreenSaver {
    pub models: Vec<ParticleSystem>,
    pub old_config: Configurator,
    pub rng: StdRng,
}

/// The domain of the flakes: six units wide, three high and one deep,
/// centred half a unit behind the origin, wrapping.
pub open spec fn snow_domain_spec() -> BoundingBox {
    BoundingBox {
        min_pos: Vec3 { x: (-3 * LENGTH_UNIT) as i64, y: (-3 * LENGTH_UNIT / 2) as i64, z: 0 },
        max_pos: Vec3 { x: (3 * LENGTH_UNIT) as i64, y: (3 * LENGTH_UNIT / 2) as i64, z: LENGTH_UNIT },
        bound_type: BoundingBoxType::Modulo,
    }
}

/// Turns the freshly drawn particles `from..` of a layer into flakes.
fn init_flakes(sys: &mut ParticleSystem, rng: &mut StdRng, from: usize)
    requires
        old(sys).wf(),
        old(sys).particle_system_data.domain == snow_domain_spec(),
        forall|k: int|
            from <= k < old(sys).len_spec() ==> snow_domain_spec().contains(
                (#[trigger] old(sys).instances.instances@[k]).position,
            ),
    ensures
        final(sys).wf(),
        final(sys).len_spec() == old(sys).len_spec(),
        final(sys).particle_system_data == old(sys).particle_system_data,
        final(sys).collider == old(sys).collider,
        forall|k: int|
            0 <= k < from && k < old(sys).len_spec() ==> final(sys).instances.instances@[k]
                == old(sys).instances.instances@[k] && final(sys).particle_data@[k]
                == old(sys).particle_data@[k],
        forall|k: int|
            from <= k < old(sys).len_spec() ==> #[trigger] is_flake(
                final(sys).instances.instances@[k],
                final(sys).particle_data@[k],
                old(sys).instances.instances@[k].position,
            ),
{
    let n = sys.len();
    let mut i: usize = from;
    while i < n
        invariant
            from <= i,
            n == old(sys).len_spec(),
            sys.wf(),
            sys.len_spec() == n,
            sys.particle_system_data == old(sys).particle_system_data,
            sys.collider == old(sys).collider,
            forall|k: int|
                (0 <= k < from || i <= k < n) && k < n ==> sys.instances.instances@[k]
                    == old(sys).instances.instances@[k] && sys.particle_data@[k]
                    == old(sys).particle_data@[k],
            forall|k: int|
                from <= k < i && k < n ==> #[trigger] is_flake(
                    sys.instances.instances@[k],
                    sys.particle_data@[k],
                    old(sys).instances.instances@[k].position,
                ),
            forall|k: int|
                from <= k < old(sys).len_spec() ==> snow_domain_spec().contains(
                    (#[trigger] old(sys).instances.instances@[k]).position,
                ),
        decreases n - i,
    {
        let inst = sys.instances.instances[i];
        let p = inst.position;
        proof {
            assert(snow_domain_spec().contains(old(sys).instances.instances@[i as int].position));
            assert(0 <= p.z * p.z <= LENGTH_UNIT * LENGTH_UNIT) by (nonlinear_arith)
                requires
                    0 <= p.z <= LENGTH_UNIT,
            ;
            vstd::arithmetic::div_mod::lemma_div_pos_is_pos(p.z * p.z, LENGTH_UNIT as int);
            vstd::arithmetic::div_mod::lemma_div_is_ordered(p.z * p.z, LENGTH_UNIT * LENGTH_UNIT, LENGTH_UNIT as int);
            vstd::arithmetic::div_mod::lemma_div_multiples_vanish(LENGTH_UNIT as int, LENGTH_UNIT as int);
        }
        let depth: i64 = LENGTH_UNIT - (p.z * p.z) / LENGTH_UNIT;
        let scale: i64 = SCALE_ONE - depth * 4 / 5;
        let dx = random_between(rng, 0, LENGTH_UNIT / 10);
        let dy = random_between(rng, 0, LENGTH_UNIT / 10);
        proof {
            assert(-COORD_MAX <= (dx - 4 * LENGTH_UNIT / 10) * scale <= COORD_MAX) by (nonlinear_arith)
                requires
                    -LENGTH_UNIT <= dx - 4 * LENGTH_UNIT / 10 <= LENGTH_UNIT,
                    0 <= scale <= SCALE_ONE,
                    LENGTH_UNIT == 1000000,
                    SCALE_ONE == 1000000,
            ;
            assert(-COORD_MAX <= (dy + 5 * LENGTH_UNIT / 10) * scale <= COORD_MAX) by (nonlinear_arith)
                requires
                    -LENGTH_UNIT <= dy + 5 * LENGTH_UNIT / 10 <= LENGTH_UNIT,
                    0 <= scale <= SCALE_ONE,
                    LENGTH_UNIT == 1000000,
                    SCALE_ONE == 1000000,
            ;
        }
        let ax: i128 = (dx as i128 - 4 * LENGTH_UNIT as i128 / 10) * scale as i128;
        let ay: i128 = (dy as i128 + 5 * LENGTH_UNIT as i128 / 10) * scale as i128;
        proof {
            lemma_trunc_div_bounds(ax as int, SCALE_ONE as int);
            lemma_trunc_div_bounds(ay as int, SCALE_ONE as int);
        }
        let vx: i64 = div_trunc(ax, SCALE_ONE as i128) as i64;
        let vy: i64 = div_trunc(ay, SCALE_ONE as i128) as i64;
        let flake = ParticleInstance {
            position: Vec3 { z: depth, ..p },
            color: Color {
                r: 255,
                g: 255,
                b: 255,
                a: Alpha { num: (LENGTH_UNIT - depth) as u64, den: LENGTH_UNIT as u64 },
            },
            scale,
            age: 0,
        };
        let data = ParticleData { velocity: Vec3 { x: vx, y: vy, z: 0 }, collider: None };
        proof {
            assert((flake, data) == flake_spec(p, dx as int, dy as int));
        }
        sys.set_instance(i, flake);
        sys.set_data(i, data);
        proof {
            assert(is_flake(
                sys.instances.instances@[i as int],
                sys.particle_data@[i as int],
                old(sys).instances.instances@[i as int].position,
            ));
        }
        i = i + 1;
    }
}

impl SnowScreenSaver {
    pub open spec fn wf(self) -> bool {
        &&& forall|m: int|
            0 <= m < self.models@.len() ==> (#[trigger] self.models@[m]).wf()
                && self.models@[m].len_spec() == self.old_config.snowflake_count
                && self.models@[m].particle_system_data.domain == snow_domain_spec()
    }

    /// A snow saver for the given configuration, drawing chance from the
    /// seed; its layers are made by `setup`.
    pub fn new(config: Configurator, seed: u64) -> (r: SnowScreenSaver)
        ensures
            r.wf(),
            r.models@.len() == 0,
            r.old_config == config,
    {
        SnowScreenSaver { models: Vec::new(), old_config: config, rng: seeded_rng(seed) }
    }

    fn snow_domain() -> (r: BoundingBox)
        ensures
            r == snow_domain_spec(),
            r.wf(),
    {
        BoundingBox::new_with_size(
            Vec3 { x: 0, y: 0, z: LENGTH_UNIT / 2 },
            6 * LENGTH_UNIT,
            3 * LENGTH_UNIT,
            LENGTH_UNIT,
            BoundingBoxType::Modulo,
        )
    }

    /// One layer of `count` flakes.
    fn make_layer(&mut self, count: usize) -> (sys: ParticleSystem)
        ensures
            final(self).models == old(self).models,
            final(self).old_config == old(self).old_config,
            sys.wf(),
            sys.len_spec() == count,
            sys.particle_system_data.domain == snow_domain_spec(),
            fresh_layer(sys),
    {
        let mut sys = ParticleSystem::create_billboard(
            FLAKE_EXTENT,
            FLAKE_EXTENT,
            ParticleSystemData::new(Self::snow_domain()),
        );
        sys.populate_random(&mut self.rng, count);
        let ghost drawn = sys;
        init_flakes(&mut sys, &mut self.rng, 0);
        assert forall|k: int| 0 <= k < sys.len_spec() implies fresh_flake(
            #[trigger] sys.instances.instances@[k],
            sys.particle_data@[k],
        ) by {
            assert(snow_domain_spec().contains(drawn.instances.instances@[k].position));
            assert(is_flake(
                sys.instances.instances@[k],
                sys.particle_data@[k],
                drawn.instances.instances@[k].position,
            ));
        }
        sys
    }

    /// Makes the layers of flakes, `snowflake_count` in each.
    pub fn setup(&mut self, config: &Configurator)
        requires
            old(self).wf(),
            *config == old(self).old_config,
        ensures
            final(self).wf(),
            final(self).old_config == old(self).old_config,
            final(self).models@.len() == old(self).models@.len() + SNOW_LAYERS,
            forall|m: int|
                0 <= m < old(self).models@.len() ==> #[trigger] final(self).models@[m]
                    == old(self).models@[m],
            forall|m: int|
                old(self).models@.len() <= m < final(self).models@.len() ==> fresh_layer(
                    #[trigger] final(self).models@[m],
                ),
    {
        let mut layer: usize = 0;
        while layer < SNOW_LAYERS
            invariant
                layer <= SNOW_LAYERS,
                self.wf(),
                self.old_config == old(self).old_config,
                *config == self.old_config,
                self.models@.len() == old(self).models@.len() + layer,
                forall|m: int|
                    0 <= m < old(self).models@.len() ==> #[trigger] self.models@[m]
                        == old(self).models@[m],
                forall|m: int|
                    old(self).models@.len() <= m < self.models@.len() ==> fresh_layer(
                        #[trigger] self.models@[m],
                    ),
            decreases SNOW_LAYERS - layer,
        {
            let sys = self.make_layer(config.snowflake_count);
            self.models.push(sys);
            layer = layer + 1;
        }
    }

    /// One frame: a new flake count grows or shrinks every layer, then every
    /// layer drifts for `dt` microseconds.
    pub fn update(&mut self, config: &Configurator, dt: u64)
        requires
            old(self).wf(),
        ensures
            final(self).wf(),
            final(self).old_config == *config,
            final(self).models@.len() == old(self).models@.len(),
            forall|m: int|
                0 <= m < old(self).models@.len() ==> layer_frame(
                    #[trigger] old(self).models@[m],
                    final(self).models@[m],
                    config.snowflake_count as int,
                    config.snowflake_count != old(self).old_config.snowflake_count,
                    dt as int,
                ),
    {
        let count = config.snowflake_count;
        let changed = count != self.old_config.snowflake_count;
        let mut models: Vec<ParticleSystem> = Vec::new();
        std::mem::swap(&mut models, &mut self.models);
        let ghost before = models@;
        let mut rebuilt: Vec<ParticleSystem> = Vec::new();
        while models.len() > 0
            invariant
                rebuilt@.len() + models@.len() == before.len(),
                forall|m: int|
                    0 <= m < models@.len() ==> (#[trigger] models@[m]) == before[m + rebuilt@.len()],
                forall|m: int|
                    0 <= m < before.len() ==> (#[trigger] before[m]).wf() && before[m].len_spec()
                        == old(self).old_config.snowflake_count
                        && before[m].particle_system_data.domain == snow_domain_spec(),
                forall|m: int|
                    0 <= m < rebuilt@.len() ==> (#[trigger] rebuilt@[m]).wf() && rebuilt@[m].len_spec()
                        == count && rebuilt@[m].particle_system_data.domain == snow_domain_spec(),
                changed == (count != old(self).old_config.snowflake_count),
                before == old(self).models@,
                forall|m: int|
                    0 <= m < rebuilt@.len() ==> layer_frame(
                        #[trigger] before[m],
                        rebuilt@[m],
                        count as int,
                        changed,
                        dt as int,
                    ),
            decreases models@.len(),
        {
            let mut sys = models.remove(0);
            let ghost b0 = sys;
            proof {
                assert(sys == before[rebuilt@.len() as int]);
            }
            if changed {
                let n = sys.len();
                if count > n {
                    sys.populate_random(&mut self.rng, count - n);
                    let ghost drawn = sys;
                    init_flakes(&mut sys, &mut self.rng, n);
                    assert forall|k: int| n <= k < count implies fresh_flake(
                        #[trigger] sys.instances.instances@[k],
                        sys.particle_data@[k],
                    ) by {
                        assert(snow_domain_spec().contains(drawn.instances.instances@[k].position));
                        assert(is_flake(
                            sys.instances.instances@[k],
                            sys.particle_data@[k],
                            drawn.instances.instances@[k].position,
                        ));
                    }
                    assert forall|k: int| 0 <= k < n implies #[trigger] sys.instances.instances@[k]
                        == b0.instances.instances@[k] && sys.particle_data@[k] == b0.particle_data@[k] by {
                        assert(drawn.instances.instances@[k] == b0.instances.instances@[k]);
                    }
                } else {
                    let ghost b = sys;
                    sys.instances.instances.truncate(count);
                    sys.particle_data.truncate(count);
                    assert forall|k: int| 0 <= k < sys.particle_data@.len() implies (
                    #[trigger] sys.instances.instances@[k]).wf() && sys.particle_data@[k].wf() by {
                        assert(b.instances.instances@[k].wf());
                    }
                }
            }
            let ghost g = sys;
            proof {
                assert(resized_layer(b0, g, count as int, changed));
            }
            sys.update(dt);
            let ghost before_push = rebuilt@;
            rebuilt.push(sys);
            proof {
                assert(layer_frame(b0, sys, count as int, changed, dt as int));
                assert forall|m: int| 0 <= m < rebuilt@.len() implies layer_frame(
                    #[trigger] before[m],
                    rebuilt@[m],
                    count as int,
                    changed,
                    dt as int,
                ) by {
                    if m < before_push.len() {
                        assert(rebuilt@[m] == before_push[m]);
                    }
                }
            }
        }
        self.models = rebuilt;
        self.old_config = *config;
    }
}

} // verus!
