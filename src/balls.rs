//! The ball variant: a population of discs that bounce off the domain's
//! edges and off each other, with speed correction and the colour modes.
use crate::color::{
    hue_colored,
    hue_color, hue_color_spec, random_color, random_distinct_color, random_hue, same_rgb, Alpha,
    Color, HUE_TURN,
};
use crate::config::{BallColorMode, Configurator};
use crate::geometry::{saturate, trunc_div, BoundingBox, BoundingBoxType, Vec3, COORD_MAX};
use crate::particle::{Extent, ParticleData, ParticleInstance};
use crate::physics::{drawn_velocity, random_velocity, sat, speed};
use crate::random::seeded_rng;
use crate::system::{ParticleSystem, ParticleSystemData};
use crate::frame::{frame_result, grid_dims, grid_dims_spec, resolve_frame};
use crate::system::stepped;
use crate::infection::restarted;
use crate::population::applied;
use crate::grid::cell_coord;
use rand::rngs::StdRng;
use vstd::prelude::*;

verus! {

/// The width and height of a ball at scale one.
pub const BALL_EXTENT: i64 = 160000;

/// One length unit: the domain is two units high.
pub const LENGTH_UNIT: i64 = 1000000;

/// A pointer position, normalised to `[-1, 1]` in length units.
#[derive(Debug, Clone, Copy, PartialEq, Eq, Structural)]
pub struct Point2 {
    pub x: i64,
    pub y: i64,
}

/// The number of pointers tracked at once.
pub const MAX_POINTERS: usize = 6;

/// The ball variant's state between frames.
pub struct BallScreenSaver {
    pub balls: Option<ParticleSystem>,
    pub inputs: Vec<Option<Point2>>,
    pub first_input_handled: bool,
    pub actual_ball_speed: i64,
    pub color: Color,
    pub infection_hue: u32,
    pub old_config: Configurator,
    pub rng: StdRng,
}

/// Every particle keeps its position and age.
pub open spec fn keeps_motion(sys: ParticleSystem, base: ParticleSystem) -> bool {
    &&& sys.len_spec() == base.len_spec()
    &&& sys.particle_system_data == base.particle_system_data
    &&& sys.collider == base.collider
    &&& forall|k: int|
        0 <= k < base.len_spec() ==> (#[trigger] sys.instances.instances@[k]).position
            == base.instances.instances@[k].position && sys.instances.instances@[k].age
            == base.instances.instances@[k].age
}

/// What a frame does after its configuration step, from `mid` to `fin`:
/// with a degenerate grid nothing; with no balls nothing but the grid size;
/// else the collisions of `frame_result` (tally `t`), the epidemic restart
/// where every ball was infectious, one integration step, and the average
/// of the measured speeds as the new actual speed.
pub open spec fn frame_step(
    mid: BallScreenSaver,
    fin: BallScreenSaver,
    ratio: int,
    config: Configurator,
    dt: int,
) -> bool {
    match grid_dims_spec(ratio, config) {
        None => fin == mid,
        Some((rx, ry)) => match mid.balls {
            None => fin.balls is None && fin.color == mid.color && fin.infection_hue
                == mid.infection_hue && fin.actual_ball_speed == mid.actual_ball_speed
                && fin.old_config == mid.old_config && fin.inputs@ == mid.inputs@,
            Some(b) => exists|bf: ParticleSystem, t: (int, int), pre: BallScreenSaver, r: BallScreenSaver|
                #![trigger frame_after(mid, fin, bf, t, pre, r, rx as int, ry as int, config, dt)]
                frame_after(mid, fin, bf, t, pre, r, rx as int, ry as int, config, dt),
        },
    }
}

/// The frame from `mid` to `fin` through the collided population `bf` with
/// tally `t`, the state `pre` with those balls before a possible restart,
/// and the state `r` after it.
pub open spec fn frame_after(
    mid: BallScreenSaver,
    fin: BallScreenSaver,
    bf: ParticleSystem,
    t: (int, int),
    pre: BallScreenSaver,
    r: BallScreenSaver,
    rx: int,
    ry: int,
    config: Configurator,
    dt: int,
) -> bool {
    let n = config.ball_count as int;
    &&& mid.balls is Some
    &&& frame_result(
        mid.balls->0,
        bf,
        t,
        rx,
        ry,
        config,
        dt,
        mid.actual_ball_speed as int,
        mid.color,
    )
    &&& pre.balls == Some(bf)
    &&& pre.color == mid.color
    &&& pre.infection_hue == mid.infection_hue
    &&& pre.old_config == mid.old_config
    &&& if t.1 >= n && n > 0 {
        restarted(pre, r)
    } else {
        r.balls == Some(bf) && r.color == mid.color && r.infection_hue == mid.infection_hue
    }
    &&& r.balls is Some
    &&& fin.balls is Some
    &&& stepped(r.balls->0, fin.balls->0, dt)
    &&& fin.color == r.color
    &&& fin.infection_hue == r.infection_hue
    &&& fin.old_config == mid.old_config
    &&& fin.inputs@ == mid.inputs@
    &&& fin.actual_ball_speed == if n > 0 {
        let a = t.0 / n;
        if a > 2 * COORD_MAX {
            2 * COORD_MAX as int
        } else {
            a
        }
    } else {
        mid.actual_ball_speed as int
    }
}

/// A ball after a change of aspect ratio: its horizontal position scaled
/// by `new / old` (rounded toward zero, saturated), all else kept.
pub open spec fn stretched(p: ParticleInstance, old_ratio: int, new_ratio: int) -> ParticleInstance {
    ParticleInstance {
        position: Vec3 { x: sat(trunc_div(p.position.x * new_ratio, old_ratio)) as i64, ..p.position },
        ..p
    }
}

/// The colour a particle is given at spawn or on a recolour: a random one,
/// the configured one, the infectious one for the first particle and the
/// healthy one for the others, or white.
pub(crate) fn spawn_color(
    rng: &mut StdRng,
    mode: BallColorMode,
    i: usize,
    fixed: Color,
    infectious: Color,
    healthy: Color,
) -> (c: Color)
    requires
        fixed.wf(),
        infectious.wf(),
        healthy.wf(),
    ensures
        c.wf(),
        mode == BallColorMode::Color ==> c == fixed,
        mode == BallColorMode::Infection ==> c == if i == 0 {
            infectious
        } else {
            healthy
        },
        mode == BallColorMode::Temperature ==> c == Color::white_spec(),
        mode == BallColorMode::Random ==> hue_colored(c),
{
    match mode {
        BallColorMode::Random => random_color(rng),
        BallColorMode::Color => fixed,
        BallColorMode::Infection => if i == 0 {
            infectious
        } else {
            healthy
        },
        BallColorMode::Temperature => Color::white(),
    }
}

/// Particle `k` as spawned: of the configured size, moving at most the
/// configured speed along each axis in the plane, and coloured by the mode.
pub open spec fn spawned(
    p: ParticleInstance,
    d: ParticleData,
    k: int,
    config: Configurator,
    fixed: Color,
    infectious: Color,
    healthy: Color,
) -> bool {
    &&& p.scale == config.ball_size
    &&& drawn_velocity(d.velocity, config.ball_speed as int)
    &&& -config.ball_speed <= d.velocity.x <= config.ball_speed
    &&& -config.ball_speed <= d.velocity.y <= config.ball_speed
    &&& d.velocity.z == 0
    &&& config.color_mode == BallColorMode::Color ==> p.color == fixed
    &&& config.color_mode == BallColorMode::Temperature ==> p.color == Color::white_spec()
    &&& config.color_mode == BallColorMode::Infection ==> p.color == if k == 0 {
        infectious
    } else {
        healthy
    }
}

impl BallScreenSaver {
    pub open spec fn wf(self) -> bool {
        &&& self.inputs@.len() == MAX_POINTERS
        &&& 0 <= self.actual_ball_speed <= 2 * COORD_MAX
        &&& self.old_config.wf()
        &&& self.color.wf()
        &&& self.infection_hue < HUE_TURN
        &&& self.balls matches Some(sys) ==> sys.wf() && sys.len_spec() == self.old_config.ball_count
    }

    /// A saver for the given configuration whose chance is drawn from the
    /// given seed; its balls are made by `setup`.
    pub fn new(config: Configurator, seed: u64) -> (r: BallScreenSaver)
        requires
            config.wf(),
        ensures
            r.wf(),
            r.balls is None,
            r.old_config == config,
            r.color == config.color,
            r.actual_ball_speed == config.ball_speed,
            r.infection_hue == 0,
            !r.first_input_handled,
            forall|k: int| 0 <= k < r.inputs@.len() ==> r.inputs@[k] is None,
    {
        let mut inputs: Vec<Option<Point2>> = Vec::new();
        let mut k: usize = 0;
        while k < MAX_POINTERS
            invariant
                k <= MAX_POINTERS,
                inputs@.len() == k,
                forall|m: int| 0 <= m < k ==> inputs@[m] is None,
            decreases MAX_POINTERS - k,
        {
            inputs.push(None);
            k = k + 1;
        }
        BallScreenSaver {
            balls: None,
            inputs,
            first_input_handled: false,
            actual_ball_speed: config.ball_speed,
            color: config.color,
            infection_hue: 0,
            old_config: config,
            rng: seeded_rng(seed),
        }
    }

    /// The domain for a window of the given aspect ratio (a fixed-point
    /// scale): two length units high, twice the ratio wide, centred on the
    /// origin, with no depth, bouncing.
    pub open spec fn domain_spec(ratio: int) -> BoundingBox {
        BoundingBox {
            min_pos: Vec3 { x: (-ratio) as i64, y: (-LENGTH_UNIT) as i64, z: 0 },
            max_pos: Vec3 { x: ratio as i64, y: LENGTH_UNIT, z: 0 },
            bound_type: BoundingBoxType::Bounce,
        }
    }

    pub fn domain_for(ratio: i64) -> (r: BoundingBox)
        requires
            0 <= ratio <= COORD_MAX / 2,
        ensures
            r == Self::domain_spec(ratio as int),
            r.wf(),
    {
        BoundingBox::new_with_size(Vec3::zero(), 2 * ratio, 2 * LENGTH_UNIT, 0, BoundingBoxType::Bounce)
    }

    /// Gives particles `from..` of the system a random velocity of the
    /// configured speed, a colour by the mode, and the configured size.
    pub(crate) fn init_particles(
        sys: &mut ParticleSystem,
        rng: &mut StdRng,
        from: usize,
        config: &Configurator,
        fixed: Color,
        infectious: Color,
        healthy: Color,
    )
        requires
            old(sys).wf(),
            config.wf(),
            fixed.wf(),
            infectious.wf(),
            healthy.wf(),
        ensures
            final(sys).wf(),
            keeps_motion(*final(sys), *old(sys)),
            forall|k: int|
                0 <= k < from && k < old(sys).len_spec() ==> final(sys).instances.instances@[k]
                    == old(sys).instances.instances@[k] && final(sys).particle_data@[k]
                    == old(sys).particle_data@[k],
            forall|k: int|
                from <= k < old(sys).len_spec() ==> spawned(
                    #[trigger] final(sys).instances.instances@[k],
                    final(sys).particle_data@[k],
                    k,
                    *config,
                    fixed,
                    infectious,
                    healthy,
                ),
    {
        let n = sys.len();
        let mut i: usize = from;
        while i < n
            invariant
                from <= i || n <= i,
                n == old(sys).len_spec(),
                sys.wf(),
                keeps_motion(*sys, *old(sys)),
                config.wf(),
                fixed.wf(),
                infectious.wf(),
                healthy.wf(),
                forall|k: int|
                    0 <= k < from && k < n ==> sys.instances.instances@[k]
                        == old(sys).instances.instances@[k] && sys.particle_data@[k]
                        == old(sys).particle_data@[k],
                forall|k: int|
                    from <= k < i && k < n ==> spawned(
                        #[trigger] sys.instances.instances@[k],
                        sys.particle_data@[k],
                        k,
                        *config,
                        fixed,
                        infectious,
                        healthy,
                    ),
            decreases n - i,
        {
            proof {
                assert(sys.instances.instances@[i as int].wf());
            }
            let velocity = random_velocity(rng, config.ball_speed);
            let data = sys.particle_data[i];
            sys.set_data(i, ParticleData { velocity, ..data });
            let color = spawn_color(rng, config.color_mode, i, fixed, infectious, healthy);
            let inst = sys.instances.instances[i];
            sys.set_instance(i, ParticleInstance { color, scale: config.ball_size, ..inst });
            i = i + 1;
        }
    }

    /// Makes the population: `ball_count` balls at random places in the
    /// domain for the aspect ratio, each moving at the configured speed in a
    /// random direction, coloured by the mode and of the configured size.
    pub fn setup(&mut self, ratio: i64, config: &Configurator)
        requires
            old(self).wf(),
            config.wf(),
            *config == old(self).old_config,
            0 <= ratio <= COORD_MAX / 2,
        ensures
            final(self).wf(),
            final(self).old_config == old(self).old_config,
            final(self).balls matches Some(sys) && sys.particle_system_data.domain
                == Self::domain_spec(ratio as int) && sys.len_spec() == config.ball_count
                && sys.collider == (Extent { x: BALL_EXTENT, y: BALL_EXTENT }) && (forall|k: int|
                0 <= k < sys.len_spec() ==> Self::domain_spec(ratio as int).contains(
                    (#[trigger] sys.instances.instances@[k]).position,
                ) && spawned(
                    sys.instances.instances@[k],
                    sys.particle_data@[k],
                    k,
                    *config,
                    final(self).color,
                    final(self).color,
                    sys.instances.instances@[1].color,
                )),
            config.color_mode != BallColorMode::Infection ==> final(self).color == old(self).color,
            config.color_mode == BallColorMode::Infection ==> final(self).color == hue_color_spec(
                final(self).infection_hue as int,
            ) && (config.ball_count > 1 ==> !same_rgb(
                final(self).color,
                final(self).balls->0.instances.instances@[1].color,
            )),
    {
        let domain = Self::domain_for(ratio);
        let mut sys = ParticleSystem::create_billboard(
            BALL_EXTENT,
            BALL_EXTENT,
            ParticleSystemData::new(domain),
        );
        sys.populate_random(&mut self.rng, config.ball_count);
        let healthy_hue = random_hue(&mut self.rng);
        let healthy = hue_color(healthy_hue);
        if config.color_mode == BallColorMode::Infection {
            let (h, c) = random_distinct_color(&mut self.rng, healthy_hue);
            self.infection_hue = h;
            self.color = c;
        }
        let fixed = self.color;
        let ghost populated = sys;
        Self::init_particles(&mut sys, &mut self.rng, 0, config, fixed, self.color, healthy);
        proof {
            if config.color_mode == BallColorMode::Infection && config.ball_count > 1 {
                crate::color::lemma_distinct_hues_differ(self.infection_hue as int, healthy_hue as int);
                assert(sys.instances.instances@[1].color == healthy);
            }
            assert forall|k: int| 0 <= k < sys.len_spec() implies Self::domain_spec(ratio as int).contains(
                (#[trigger] sys.instances.instances@[k]).position,
            ) by {
                assert(populated.instances.instances@[k].position == sys.instances.instances@[k].position);
            }
        }
        self.balls = Some(sys);
    }
}

impl BallScreenSaver {
    /// One frame: the configuration step, then, unless the grid would be
    /// degenerate, collisions over the rebuilt grid, the epidemic restart
    /// once every ball is infectious, the integration step of `dt`
    /// microseconds, and the new measured average speed.
    pub fn update(&mut self, ratio: i64, config: &Configurator, dt: u64)
        requires
            old(self).wf(),
            config.wf(),
            0 <= ratio <= COORD_MAX,
        ensures
            final(self).wf(),
            final(self).old_config == *config,
            final(self).balls matches Some(b1) ==> b1.len_spec() == config.ball_count,
            exists|mid: BallScreenSaver|
                #![trigger applied(*old(self), mid, *config)]
                applied(*old(self), mid, *config) && frame_step(
                    mid,
                    *final(self),
                    ratio as int,
                    *config,
                    dt as int,
                ),
            final(self).balls matches Some(b1) ==> (grid_dims_spec(ratio as int, *config) is Some && (
            b1.particle_system_data.domain.bound_type == BoundingBoxType::Clamp
                || b1.particle_system_data.domain.bound_type == BoundingBoxType::Bounce)
                ==> forall|i: int|
                0 <= i < b1.len_spec() ==> b1.particle_system_data.domain.contains(
                    (#[trigger] b1.instances.instances@[i]).position,
                )),
    {
        self.apply_config(config);
        let ghost mid = *self;
        self.run_frame(ratio, config, dt);
        assert(applied(*old(self), mid, *config) && frame_step(mid, *self, ratio as int, *config, dt as int));
    }

    /// The part of a frame after its configuration step.
    #[verifier::spinoff_prover]
    #[verifier::rlimit(50)]
    fn run_frame(&mut self, ratio: i64, config: &Configurator, dt: u64)
        requires
            old(self).wf(),
            config.wf(),
            old(self).old_config == *config,
            0 <= ratio <= COORD_MAX,
        ensures
            final(self).wf(),
            final(self).old_config == *config,
            frame_step(*old(self), *final(self), ratio as int, *config, dt as int),
            final(self).balls matches Some(b1) ==> (grid_dims_spec(ratio as int, *config) is Some && (
            b1.particle_system_data.domain.bound_type == BoundingBoxType::Clamp
                || b1.particle_system_data.domain.bound_type == BoundingBoxType::Bounce)
                ==> forall|i: int|
                0 <= i < b1.len_spec() ==> b1.particle_system_data.domain.contains(
                    (#[trigger] b1.instances.instances@[i]).position,
                )),
    {
        let ghost mid = *self;
        let infectious = self.color;
        let dims = grid_dims(ratio, config);
        let (regions_x, regions_y) = match dims {
            None => {
                return;
            },
            Some(d) => d,
        };
        let mut balls: Option<ParticleSystem> = None;
        std::mem::swap(&mut balls, &mut self.balls);
        match balls {
            None => {},
            Some(mut sys) => {
                let tally = resolve_frame(
                    &mut sys,
                    &mut self.rng,
                    config,
                    dt,
                    self.actual_ball_speed,
                    infectious,
                    regions_x,
                    regions_y,
                );
                let ghost bf = sys;
                self.balls = Some(sys);
                let ghost before_restart = *self;
                if tally.infected >= config.ball_count && config.ball_count > 0 {
                    self.restart_infection();
                }
                let ghost r = *self;
                let mut balls2: Option<ParticleSystem> = None;
                std::mem::swap(&mut balls2, &mut self.balls);
                match balls2 {
                    None => {},
                    Some(mut sys2) => {
                        let ghost before_step = sys2;
                        sys2.update(dt);
                        proof {
                            if sys2.particle_system_data.domain.bound_type == BoundingBoxType::Clamp
                                || sys2.particle_system_data.domain.bound_type
                                == BoundingBoxType::Bounce {
                                assert forall|i: int| 0 <= i < sys2.len_spec() implies sys2.particle_system_data.domain.contains(
                                    (#[trigger] sys2.instances.instances@[i]).position,
                                ) by {
                                    crate::system::lemma_step_stays_inside(
                                        before_step.particle_system_data.domain,
                                        before_step.instances.instances@[i],
                                        before_step.particle_data@[i],
                                        dt as int,
                                    );
                                }
                            }
                        }
                        self.balls = Some(sys2);
                    },
                }
                if config.ball_count > 0 {
                    let avg: u128 = tally.total_speed / config.ball_count as u128;
                    self.actual_ball_speed = if avg > 2 * COORD_MAX as u128 {
                        2 * COORD_MAX
                    } else {
                        avg as i64
                    };
                }
                proof {
                    let t = (tally.total_speed as int, tally.infected as int);
                    assert(frame_after(
                        mid,
                        *self,
                        bf,
                        t,
                        before_restart,
                        r,
                        regions_x as int,
                        regions_y as int,
                        *config,
                        dt as int,
                    ));
                }
            },
        }
    }

    /// Follows a change of the window's aspect ratio (fixed-point scales):
    /// every ball's horizontal position is stretched by `new / old`, and the
    /// domain is made anew for the new ratio.
    pub fn resize(&mut self, old_ratio: i64, new_ratio: i64)
        requires
            old(self).wf(),
            0 < old_ratio,
            0 <= new_ratio <= COORD_MAX / 2,
        ensures
            final(self).wf(),
            final(self).old_config == old(self).old_config,
            (old(self).balls is None) <==> (final(self).balls is None),
            match (old(self).balls, final(self).balls) {
                (Some(b0), Some(b1)) => {
                    &&& b1.particle_system_data.domain == Self::domain_spec(new_ratio as int)
                    &&& b1.len_spec() == b0.len_spec()
                    &&& b1.particle_data@ == b0.particle_data@
                    &&& b1.collider == b0.collider
                    &&& forall|k: int|
                        0 <= k < b0.len_spec() ==> #[trigger] b1.instances.instances@[k]
                            == stretched(b0.instances.instances@[k], old_ratio as int, new_ratio as int)
                },
                _ => true,
            },
            final(self).color == old(self).color,
            final(self).actual_ball_speed == old(self).actual_ball_speed,
    {
        let ghost before = self.balls;
        let mut balls: Option<ParticleSystem> = None;
        std::mem::swap(&mut balls, &mut self.balls);
        match balls {
            None => {},
            Some(mut sys) => {
                let n = sys.len();
                let mut i: usize = 0;
                while i < n
                    invariant
                        i <= n,
                        n == sys.len_spec(),
                        sys.wf(),
                        0 < old_ratio,
                        0 <= new_ratio <= COORD_MAX / 2,
                        before is Some,
                        sys.particle_data@ == before->0.particle_data@,
                        sys.collider == before->0.collider,
                        sys.len_spec() == before->0.len_spec(),
                        forall|k: int|
                            0 <= k < i ==> #[trigger] sys.instances.instances@[k] == stretched(
                                before->0.instances.instances@[k],
                                old_ratio as int,
                                new_ratio as int,
                            ),
                        forall|k: int|
                            i <= k < n ==> #[trigger] sys.instances.instances@[k]
                                == before->0.instances.instances@[k],
                    decreases n - i,
                {
                    proof {
                        assert(sys.instances.instances@[i as int].wf());
                    }
                    let inst = sys.instances.instances[i];
                    let p = inst.position;
                    proof {
                        assert(-COORD_MAX * COORD_MAX <= p.x * new_ratio <= COORD_MAX * COORD_MAX)
                            by (nonlinear_arith)
                            requires
                                -COORD_MAX <= p.x <= COORD_MAX,
                                0 <= new_ratio <= COORD_MAX,
                        ;
                    }
                    let x = saturate(
                        crate::geometry::div_trunc(p.x as i128 * new_ratio as i128, old_ratio as i128),
                    );
                    sys.set_instance(
                        i,
                        ParticleInstance { position: Vec3 { x, ..p }, ..inst },
                    );
                    i = i + 1;
                }
                sys.particle_system_data = ParticleSystemData::new(Self::domain_for(new_ratio));
                self.balls = Some(sys);
            },
        }
    }

    /// The colour behind the balls: black.
    pub fn get_background_color(&self) -> (c: Color)
        ensures
            c == (Color { r: 0, g: 0, b: 0, a: Alpha { num: 1, den: 1 } }),
    {
        Color::rgb(0, 0, 0)
    }

    /// A pointer event: pointer `id` (folded onto the tracked slots) is at
    /// `position`. The very first event is ignored; a lifted pointer is
    /// forgotten; a pointer that moved pushes every ball in the cells within
    /// its brush by the distance it moved. Never asks for a redraw.
    pub fn handle_input(&mut self, position: Point2, id: u64, enabled: bool) -> (r: bool)
        requires
            old(self).wf(),
        ensures
            final(self).wf(),
            !r,
            final(self).old_config == old(self).old_config,
            final(self).first_input_handled,
            !old(self).first_input_handled ==> final(self).inputs@ == old(self).inputs@
                && final(self).balls == old(self).balls,
            old(self).first_input_handled ==> final(self).inputs@ == old(self).inputs@.update(
                pointer_slot(id),
                if enabled {
                    Some(position)
                } else {
                    None
                },
            ),
            match (old(self).balls, final(self).balls) {
                (Some(b0), Some(b1)) => {
                    &&& b1.instances == b0.instances
                    &&& b1.particle_system_data == b0.particle_system_data
                    &&& b1.collider == b0.collider
                    &&& b1.particle_data@ == if old(self).first_input_handled && enabled
                        && old(self).inputs@[pointer_slot(id)] is Some {
                        let from = old(self).inputs@[pointer_slot(id)]->0;
                        match brush(b0, position) {
                            None => b0.particle_data@,
                            Some(idx) => pushed(
                                b0.particle_data@,
                                idx,
                                position.x - from.x,
                                position.y - from.y,
                            ),
                        }
                    } else {
                        b0.particle_data@
                    }
                },
                (None, None) => true,
                _ => false,
            },
            final(self).color == old(self).color,
            final(self).actual_ball_speed == old(self).actual_ball_speed,
    {
        let slot: u64 = if id > 0 {
            (id - 1) % 5 + 1
        } else {
            id
        };
        if !self.first_input_handled {
            self.first_input_handled = true;
            return false;
        }
        let slot = slot as usize;
        if !enabled {
            self.inputs.set(slot, None);
            return false;
        }
        let previous = self.inputs[slot];
        match previous {
            None => {},
            Some(old_position) => {
                let mut balls: Option<ParticleSystem> = None;
                std::mem::swap(&mut balls, &mut self.balls);
                match balls {
                    None => {},
                    Some(mut sys) => {
                        push_balls(&mut sys, position, old_position);
                        self.balls = Some(sys);
                    },
                }
            },
        }
        self.inputs.set(slot, Some(position));
        false
    }
}

/// The tracked slot of a pointer: ids from one on are folded onto slots one
/// to five, and id zero keeps slot zero.
pub open spec fn pointer_slot(id: u64) -> int {
    if id > 0 {
        (id - 1) % 5 + 1
    } else {
        0
    }
}

/// The velocities after adding `(dx, dy)` (saturated) to those of the
/// particles at the listed indices, once per occurrence; indices past the end
/// are passed over.
pub open spec fn pushed(data: Seq<ParticleData>, idx: Seq<usize>, dx: int, dy: int) -> Seq<ParticleData>
    decreases idx.len(),
{
    if idx.len() == 0 {
        data
    } else {
        let d = pushed(data, idx.drop_last(), dx, dy);
        let i = idx.last() as int;
        if i < d.len() {
            d.update(
                i,
                ParticleData {
                    velocity: Vec3 {
                        x: sat(d[i].velocity.x + dx) as i64,
                        y: sat(d[i].velocity.y + dy) as i64,
                        ..d[i].velocity
                    },
                    ..d[i]
                },
            )
        } else {
            d
        }
    }
}

/// The indices within a pointer's brush on the grid of the last frame: the
/// neighbourhood, of a radius of fifteen hundredths of half the rows (rounded
/// up), of the cell under the pointer; `None` while no grid is laid out.
pub open spec fn brush(sys: ParticleSystem, position: Point2) -> Option<Seq<usize>> {
    let g = sys.instances;
    let rx = g.regions_x as int;
    let ry = g.regions_y as int;
    if rx == 0 || ry == 0 || rx * ry != g.regions@.len() {
        None
    } else {
        let range = if (ry * 15 + 199) / 200 > u32::MAX {
            u32::MAX as int
        } else {
            (ry * 15 + 199) / 200
        };
        Some(
            g.neighborhood(
                cell_coord(position.x as int, -LENGTH_UNIT, LENGTH_UNIT as int, rx),
                cell_coord(position.y as int, -LENGTH_UNIT, LENGTH_UNIT as int, ry),
                range,
            ),
        )
    }
}

/// Adds a pointer's movement to the velocity of every ball in the cells
/// within its brush, on the grid of the last frame.
fn push_balls(sys: &mut ParticleSystem, position: Point2, old_position: Point2)
    requires
        old(sys).wf(),
    ensures
        final(sys).wf(),
        final(sys).len_spec() == old(sys).len_spec(),
        final(sys).particle_system_data == old(sys).particle_system_data,
        final(sys).collider == old(sys).collider,
        final(sys).instances == old(sys).instances,
        final(sys).particle_data@ == match brush(*old(sys), position) {
            None => old(sys).particle_data@,
            Some(idx) => pushed(
                old(sys).particle_data@,
                idx,
                position.x - old_position.x,
                position.y - old_position.y,
            ),
        },
{
    let rx = sys.instances.regions_x;
    let ry = sys.instances.regions_y;
    proof {
        assert(rx * ry <= u128::MAX) by (nonlinear_arith)
            requires
                rx <= usize::MAX,
                ry <= usize::MAX,
                usize::MAX <= u64::MAX,
        ;
    }
    if rx == 0 || ry == 0 || rx as u128 * ry as u128 != sys.instances.regions.len() as u128 {
        return;
    }
    let cx = crate::grid::cell_coord_exec(position.x, -LENGTH_UNIT, LENGTH_UNIT, rx);
    let cy = crate::grid::cell_coord_exec(position.y, -LENGTH_UNIT, LENGTH_UNIT, ry);
    let range: u32 = if (ry as u128 * 15 + 199) / 200 > u32::MAX as u128 {
        u32::MAX
    } else {
        ((ry as u128 * 15 + 199) / 200) as u32
    };
    let indices = sys.instances.get_regions_in_range(cx, cy, range);
    let n = sys.len();
    let mut k: usize = 0;
    while k < indices.len()
        invariant
            sys.wf(),
            n == sys.len_spec(),
            n == old(sys).len_spec(),
            sys.particle_system_data == old(sys).particle_system_data,
            sys.collider == old(sys).collider,
            sys.instances == old(sys).instances,
            k <= indices@.len(),
            brush(*old(sys), position) == Some(indices@),
            sys.particle_data@ == pushed(
                old(sys).particle_data@,
                indices@.take(k as int),
                position.x - old_position.x,
                position.y - old_position.y,
            ),
        decreases indices@.len() - k,
    {
        let i = indices[k];
        if i < n {
            proof {
                assert(sys.instances.instances@[i as int].wf());
            }
            let data = sys.particle_data[i];
            let v = data.velocity;
            let w = Vec3 {
                x: saturate(v.x as i128 + position.x as i128 - old_position.x as i128),
                y: saturate(v.y as i128 + position.y as i128 - old_position.y as i128),
                z: v.z,
            };
            sys.set_data(i, ParticleData { velocity: w, ..data });
        }
        assert(indices@.take(k + 1).drop_last() == indices@.take(k as int));
        k = k + 1;
    }
    assert(indices@.take(indices@.len() as int) == indices@);
}

} // verus!
