//! The configuration step of a frame: following a changed snapshot by
//! rescaling speeds, resizing the population, resizing and recolouring balls.
use crate::color::{hue_color, random_color, random_distinct_color, random_hue, Alpha, Color};
use crate::config::{BallColorMode, Configurator};
use crate::geometry::{saturate, Vec3, COORD_MAX};
use crate::particle::{ParticleData, ParticleInstance, SCALE_MAX};
use crate::physics::{drawn_velocity, sat, speed, speed_spec};
use crate::color::{hue_colored, hue_color_spec, same_rgb, HUE_TURN};
use crate::geometry::trunc_div;
use crate::particle::SCALE_ONE;
use crate::system::ParticleSystem;
use crate::balls::{BallScreenSaver, keeps_motion, spawn_color};
use rand::rngs::StdRng;
use vstd::prelude::*;

verus! {
/// Every particle keeps its position and age, and its velocity.
pub open spec fn keeps_motion_and_velocity(sys: ParticleSystem, base: ParticleSystem) -> bool {
    &&& keeps_motion(sys, base)
    &&& forall|k: int|
        0 <= k < base.len_spec() ==> (#[trigger] sys.particle_data@[k]).velocity
            == base.particle_data@[k].velocity
}

/// The first `m` particles of `b1` are where, and as old as, those of `b0`.
pub open spec fn prefix_kept(b0: ParticleSystem, b1: ParticleSystem, m: int) -> bool {
    forall|k: int|
        0 <= k < m ==> (#[trigger] b1.instances.instances@[k]).position
            == b0.instances.instances@[k].position && b1.instances.instances@[k].age
            == b0.instances.instances@[k].age
}

/// The summed speeds of the first `k` particles, saturating at the largest
/// `u128`.
pub open spec fn speed_total(data: Seq<ParticleData>, k: nat) -> int
    decreases k,
{
    if k == 0 {
        0
    } else {
        let t = speed_total(data, (k - 1) as nat) + speed_spec(data[k - 1].velocity);
        if t > u128::MAX {
            u128::MAX as int
        } else {
            t
        }
    }
}

/// The average speed of a population, capped at twice the coordinate range;
/// zero for no particles.
pub open spec fn average_speed(data: Seq<ParticleData>) -> int {
    if data.len() == 0 {
        0
    } else {
        let a = speed_total(data, data.len()) / data.len() as int;
        if a > 2 * COORD_MAX {
            2 * COORD_MAX as int
        } else {
            a
        }
    }
}

/// `v` scaled by `target / avg`, each component rounded toward zero and
/// saturated.
pub open spec fn rescaled(v: Vec3, target: int, avg: int) -> Vec3 {
    Vec3 {
        x: sat(trunc_div(v.x * target, avg)) as i64,
        y: sat(trunc_div(v.y * target, avg)) as i64,
        z: sat(trunc_div(v.z * target, avg)) as i64,
    }
}

/// Particle `k`'s velocity after a speed change to `target`: scaled by the
/// new speed over the average speed, or kept where that average is zero.
pub open spec fn rescaled_velocity(data: Seq<ParticleData>, k: int, target: int) -> Vec3 {
    let a = average_speed(data);
    if a > 0 {
        rescaled(data[k].velocity, target, a)
    } else {
        data[k].velocity
    }
}

/// Scales every velocity by `target / average speed`, where the average is
/// not zero.
fn rescale_speeds(sys: &mut ParticleSystem, target: i64)
    requires
        old(sys).wf(),
        0 <= target <= COORD_MAX,
    ensures
        final(sys).wf(),
        keeps_motion(*final(sys), *old(sys)),
        final(sys).instances == old(sys).instances,
        forall|k: int|
            0 <= k < old(sys).len_spec() ==> #[trigger] final(sys).particle_data@[k] == (ParticleData {
                velocity: rescaled_velocity(old(sys).particle_data@, k, target as int),
                ..old(sys).particle_data@[k]
            }),
{
    let n = sys.len();
    if n == 0 {
        return;
    }
    let mut total: u128 = 0;
    let mut i: usize = 0;
    while i < n
        invariant
            i <= n,
            n == sys.len_spec(),
            sys.wf(),
            *sys == *old(sys),
            total == speed_total(sys.particle_data@, i as nat),
        decreases n - i,
    {
        proof {
            assert(sys.instances.instances@[i as int].wf());
        }
        total = total.saturating_add(speed(sys.particle_data[i].velocity) as u128);
        i = i + 1;
    }
    let avg_raw: u128 = total / n as u128;
    let avg: i128 = if avg_raw > 2 * COORD_MAX as u128 {
        2 * COORD_MAX as i128
    } else {
        avg_raw as i128
    };
    assert(avg == average_speed(sys.particle_data@));
    if avg == 0 {
        return;
    }
    let ghost base = *sys;
    let mut i: usize = 0;
    while i < n
        invariant
            i <= n,
            n == sys.len_spec(),
            sys.wf(),
            0 < avg <= 2 * COORD_MAX,
            0 <= target <= COORD_MAX,
            keeps_motion(*sys, base),
            sys.instances == base.instances,
            base == *old(sys),
            avg == average_speed(base.particle_data@),
            forall|k: int|
                0 <= k < i ==> #[trigger] sys.particle_data@[k] == (ParticleData {
                    velocity: rescaled_velocity(base.particle_data@, k, target as int),
                    ..base.particle_data@[k]
                }),
            forall|k: int| i <= k < n ==> #[trigger] sys.particle_data@[k] == base.particle_data@[k],
        decreases n - i,
    {
        proof {
            assert(sys.instances.instances@[i as int].wf());
        }
        let data = sys.particle_data[i];
        let v = data.velocity;
        let t: i128 = target as i128;
        proof {
            assert(-COORD_MAX * COORD_MAX <= v.x * t <= COORD_MAX * COORD_MAX && -COORD_MAX
                * COORD_MAX <= v.y * t <= COORD_MAX * COORD_MAX && -COORD_MAX * COORD_MAX <= v.z
                * t <= COORD_MAX * COORD_MAX) by (nonlinear_arith)
                requires
                    v.in_range(),
                    0 <= t <= COORD_MAX,
            ;
        }
        let w = Vec3 {
            x: saturate(crate::geometry::div_trunc(v.x as i128 * t, avg)),
            y: saturate(crate::geometry::div_trunc(v.y as i128 * t, avg)),
            z: saturate(crate::geometry::div_trunc(v.z as i128 * t, avg)),
        };
        sys.set_data(i, ParticleData { velocity: w, ..data });
        i = i + 1;
    }
}

/// Gives every particle the configured size.
fn set_scales(sys: &mut ParticleSystem, size: i64)
    requires
        old(sys).wf(),
        0 <= size <= SCALE_MAX,
    ensures
        final(sys).wf(),
        keeps_motion_and_velocity(*final(sys), *old(sys)),
        forall|k: int|
            0 <= k < final(sys).len_spec() ==> (#[trigger] final(sys).instances.instances@[k]).scale
                == size && final(sys).instances.instances@[k].color
                == old(sys).instances.instances@[k].color,
        final(sys).particle_data@ == old(sys).particle_data@,
{
    let n = sys.len();
    let mut i: usize = 0;
    while i < n
        invariant
            i <= n,
            n == old(sys).len_spec(),
            sys.wf(),
            0 <= size <= SCALE_MAX,
            keeps_motion_and_velocity(*sys, *old(sys)),
            forall|k: int| 0 <= k < i ==> (#[trigger] sys.instances.instances@[k]).scale == size,
            forall|k: int|
                0 <= k < n ==> (#[trigger] sys.instances.instances@[k]).color
                    == old(sys).instances.instances@[k].color,
            sys.particle_data@ == old(sys).particle_data@,
        decreases n - i,
    {
        let inst = sys.instances.instances[i];
        proof {
            assert(sys.instances.instances@[i as int].wf());
        }
        sys.set_instance(i, ParticleInstance { scale: size, ..inst });
        i = i + 1;
    }
}

/// Makes every particle fully opaque again.
fn clear_density(sys: &mut ParticleSystem)
    requires
        old(sys).wf(),
    ensures
        final(sys).wf(),
        keeps_motion_and_velocity(*final(sys), *old(sys)),
        forall|k: int|
            0 <= k < final(sys).len_spec() ==> (#[trigger] final(sys).instances.instances@[k]).color.a
                == Alpha::opaque_spec() && same_rgb(
                final(sys).instances.instances@[k].color,
                old(sys).instances.instances@[k].color,
            ) && final(sys).instances.instances@[k].scale == old(sys).instances.instances@[k].scale,
        final(sys).particle_data@ == old(sys).particle_data@,
{
    let n = sys.len();
    let mut i: usize = 0;
    while i < n
        invariant
            i <= n,
            n == old(sys).len_spec(),
            sys.wf(),
            keeps_motion_and_velocity(*sys, *old(sys)),
            forall|k: int|
                0 <= k < i ==> (#[trigger] sys.instances.instances@[k]).color.a == Alpha::opaque_spec(),
            forall|k: int|
                0 <= k < n ==> same_rgb(
                    (#[trigger] sys.instances.instances@[k]).color,
                    old(sys).instances.instances@[k].color,
                ) && sys.instances.instances@[k].scale == old(sys).instances.instances@[k].scale,
            sys.particle_data@ == old(sys).particle_data@,
        decreases n - i,
    {
        let inst = sys.instances.instances[i];
        proof {
            assert(sys.instances.instances@[i as int].wf());
        }
        sys.set_instance(i, ParticleInstance { color: Color { a: Alpha::opaque(), ..inst.color }, ..inst });
        i = i + 1;
    }
}

/// Colour `c` of particle `k` follows the mode, alpha aside: some hue's
/// colour (Random), the configured colour (Color), the infectious colour for
/// the first particle and the healthy one for the others (Infection), or
/// white (Temperature).
pub open spec fn rgb_by_mode(
    c: Color,
    k: int,
    mode: BallColorMode,
    fixed: Color,
    infectious: Color,
    healthy: Color,
) -> bool {
    match mode {
        BallColorMode::Random => exists|h: int|
            0 <= h < HUE_TURN && same_rgb(c, #[trigger] hue_color_spec(h)),
        BallColorMode::Color => same_rgb(c, fixed),
        BallColorMode::Infection => same_rgb(
            c,
            if k == 0 {
                infectious
            } else {
                healthy
            },
        ),
        BallColorMode::Temperature => same_rgb(c, Color::white_spec()),
    }
}

/// Colours every particle afresh by the mode.
fn recolor(
    sys: &mut ParticleSystem,
    rng: &mut StdRng,
    mode: BallColorMode,
    fixed: Color,
    infectious: Color,
    healthy: Color,
)
    requires
        old(sys).wf(),
        fixed.wf(),
        infectious.wf(),
        healthy.wf(),
    ensures
        final(sys).wf(),
        keeps_motion_and_velocity(*final(sys), *old(sys)),
        final(sys).particle_data@ == old(sys).particle_data@,
        forall|k: int|
            0 <= k < old(sys).len_spec() ==> rgb_by_mode(
                (#[trigger] final(sys).instances.instances@[k]).color,
                k,
                mode,
                fixed,
                infectious,
                healthy,
            ) && final(sys).instances.instances@[k].scale == old(sys).instances.instances@[k].scale,
{
    let n = sys.len();
    let mut i: usize = 0;
    while i < n
        invariant
            i <= n,
            n == old(sys).len_spec(),
            sys.wf(),
            fixed.wf(),
            infectious.wf(),
            healthy.wf(),
            keeps_motion_and_velocity(*sys, *old(sys)),
            sys.particle_data@ == old(sys).particle_data@,
            forall|k: int|
                0 <= k < i ==> rgb_by_mode(
                    (#[trigger] sys.instances.instances@[k]).color,
                    k,
                    mode,
                    fixed,
                    infectious,
                    healthy,
                ),
            forall|k: int|
                0 <= k < n ==> (#[trigger] sys.instances.instances@[k]).scale
                    == old(sys).instances.instances@[k].scale,
        decreases n - i,
    {
        let inst = sys.instances.instances[i];
        proof {
            assert(sys.instances.instances@[i as int].wf());
        }
        let color = spawn_color(rng, mode, i, fixed, infectious, healthy);
        sys.set_instance(i, ParticleInstance { color, ..inst });
        i = i + 1;
    }
}

/// Grows the population to `count` with fresh particles, spawned as at
/// setup, or shrinks it to its first `count` particles.
fn resize_population(
    sys: &mut ParticleSystem,
    rng: &mut StdRng,
    count: usize,
    config: &Configurator,
    fixed: Color,
    infectious: Color,
    healthy: Color,
)
    requires
        old(sys).wf(),
        config.wf(),
        fixed.wf(),
        infectious.wf(),
        healthy.wf(),
    ensures
        final(sys).wf(),
        final(sys).len_spec() == count,
        final(sys).particle_system_data == old(sys).particle_system_data,
        final(sys).collider == old(sys).collider,
        prefix_kept(
            *old(sys),
            *final(sys),
            if count < old(sys).len_spec() {
                count as int
            } else {
                old(sys).len_spec() as int
            },
        ),
        forall|k: int|
            0 <= k < count && k < old(sys).len_spec() ==> #[trigger] final(sys).instances.instances@[k]
                == old(sys).instances.instances@[k] && final(sys).particle_data@[k]
                == old(sys).particle_data@[k],
        forall|k: int|
            old(sys).len_spec() <= k < count ==> old(sys).particle_system_data.domain.contains(
                (#[trigger] final(sys).instances.instances@[k]).position,
            ) && final(sys).instances.instances@[k].age == 0 && crate::balls::spawned(
                final(sys).instances.instances@[k],
                final(sys).particle_data@[k],
                k,
                *config,
                fixed,
                infectious,
                healthy,
            ),
{
    let n = sys.len();
    if count > n {
        sys.populate_random(rng, count - n);
        let ghost grown = *sys;
        BallScreenSaver::init_particles(sys, rng, n, config, fixed, infectious, healthy);
        assert(prefix_kept(grown, *sys, n as int));
    } else {
        let ghost before = *sys;
        sys.instances.instances.truncate(count);
        sys.particle_data.truncate(count);
        assert forall|k: int| 0 <= k < sys.particle_data@.len() implies (
        #[trigger] sys.instances.instances@[k]).wf() && sys.particle_data@[k].wf() by {
            assert(before.instances.instances@[k].wf());
        }
    }
}

/// The configuration step of a frame took the saver from `s0` to `s1`: the
/// new snapshot is remembered; an unchanged snapshot changes nothing; and
/// the population has the configured size, with the particles it kept where
/// they were and as old as they were.
pub open spec fn applied(s0: BallScreenSaver, s1: BallScreenSaver, config: Configurator) -> bool {
    &&& s1.wf()
    &&& s1.old_config == config
    &&& config == s0.old_config ==> s1.balls == s0.balls && s1.color == s0.color
        && s1.infection_hue == s0.infection_hue
    &&& (s0.balls is None <==> s1.balls is None)
    &&& match (s0.balls, s1.balls) {
        (Some(b0), Some(b1)) => {
            &&& b1.len_spec() == config.ball_count
            &&& b1.particle_system_data == b0.particle_system_data
            &&& prefix_kept(
                b0,
                b1,
                if config.ball_count < b0.len_spec() {
                    config.ball_count as int
                } else {
                    b0.len_spec() as int
                },
            )
            &&& config_effects(s0, s1, b0, b1, config)
        },
        _ => true,
    }
}

/// What each changed setting does to the population `b0` of `s0`, giving
/// `b1` of `s1`: kept particles' velocities are rescaled to a new speed; new
/// particles lie in the domain, have the configured size and a drawn velocity
/// of the configured speed; a new size resizes every particle; a new mode or
/// colour recolours every particle by the mode (in the infection mode, one
/// infectious particle of a fresh hue and a shared healthy colour, distinct
/// from it, for the rest); switching the density overlay off makes every
/// particle opaque.
pub open spec fn config_effects(
    s0: BallScreenSaver,
    s1: BallScreenSaver,
    b0: ParticleSystem,
    b1: ParticleSystem,
    config: Configurator,
) -> bool {
    let old_cfg = s0.old_config;
    let n = config.ball_count as int;
    let kept = if n < b0.len_spec() {
        n
    } else {
        b0.len_spec() as int
    };
    &&& forall|k: int|
        0 <= k < kept ==> (#[trigger] b1.particle_data@[k]).velocity == if config.ball_speed
            != old_cfg.ball_speed {
            rescaled_velocity(b0.particle_data@, k, config.ball_speed as int)
        } else {
            b0.particle_data@[k].velocity
        }
    &&& forall|k: int|
        b0.len_spec() <= k < n ==> b0.particle_system_data.domain.contains(
            (#[trigger] b1.instances.instances@[k]).position,
        ) && b1.instances.instances@[k].scale == config.ball_size && drawn_velocity(
            b1.particle_data@[k].velocity,
            config.ball_speed as int,
        ) && b1.instances.instances@[k].age == 0
    &&& config.ball_size != old_cfg.ball_size ==> forall|k: int|
        0 <= k < n ==> (#[trigger] b1.instances.instances@[k]).scale == config.ball_size
    &&& (config.color_mode != old_cfg.color_mode || config.color != old_cfg.color) ==> {
        &&& forall|k: int|
            0 <= k < n ==> rgb_by_mode(
                (#[trigger] b1.instances.instances@[k]).color,
                k,
                config.color_mode,
                config.color,
                s1.color,
                b1.instances.instances@[1].color,
            )
        &&& config.color_mode == BallColorMode::Infection ==> s1.infection_hue < HUE_TURN
            && s1.color == hue_color_spec(s1.infection_hue as int) && (n > 1 ==> !same_rgb(
            s1.color,
            b1.instances.instances@[1].color,
        ))
        &&& config.color_mode != BallColorMode::Infection ==> s1.color == config.color
    }
    &&& (config.show_density != old_cfg.show_density && !config.show_density) ==> forall|k: int|
        0 <= k < n ==> (#[trigger] b1.instances.instances@[k]).color.a == Alpha::opaque_spec()
}

/// Applying the same snapshot twice in a row is the same as applying it
/// once: the second step changes nothing, the population keeps the
/// configured size, and no kept particle is moved or made younger.
pub proof fn lemma_resize_idempotent(
    s0: BallScreenSaver,
    s1: BallScreenSaver,
    s2: BallScreenSaver,
    config: Configurator,
)
    requires
        applied(s0, s1, config),
        applied(s1, s2, config),
    ensures
        s2.balls == s1.balls,
        s2.balls matches Some(b2) ==> b2.len_spec() == config.ball_count,
        match (s0.balls, s2.balls) {
            (Some(b0), Some(b2)) => prefix_kept(
                b0,
                b2,
                if config.ball_count < b0.len_spec() {
                    config.ball_count as int
                } else {
                    b0.len_spec() as int
                },
            ),
            _ => true,
        },
{
}

impl BallScreenSaver {
    /// The configuration step of a frame: where the snapshot differs from
    /// the last one, velocities are rescaled to a new speed, the population
    /// is grown or shrunk to a new count, sizes follow a new size, colours
    /// are redone for a new mode or colour, and opacity is restored when the
    /// density overlay is switched off.
    pub fn apply_config(&mut self, config: &Configurator)
        requires
            old(self).wf(),
            config.wf(),
        ensures
            applied(*old(self), *final(self), *config),
    {
        if *config == self.old_config {
            return;
        }
        let old_cfg = self.old_config;
        let mut balls: Option<ParticleSystem> = None;
        std::mem::swap(&mut balls, &mut self.balls);
        match balls {
            None => {},
            Some(mut sys) => {
                let ghost b0 = sys;
                let healthy = random_color(&mut self.rng);
                if config.ball_speed != old_cfg.ball_speed {
                    rescale_speeds(&mut sys, config.ball_speed);
                }
                let ghost ba = sys;
                if config.ball_count != old_cfg.ball_count {
                    let fixed = self.color;
                    resize_population(
                        &mut sys,
                        &mut self.rng,
                        config.ball_count,
                        config,
                        fixed,
                        self.color,
                        healthy,
                    );
                }
                let ghost bb = sys;
                if config.ball_size != old_cfg.ball_size {
                    set_scales(&mut sys, config.ball_size);
                }
                let ghost bc = sys;
                let ghost mut healthy_used = healthy;
                if config.color_mode != old_cfg.color_mode || config.color != old_cfg.color {
                    self.color = config.color;
                    let mut infectious = self.color;
                    let mut healthy_now = healthy;
                    if config.color_mode == BallColorMode::Infection {
                        let h = random_hue(&mut self.rng);
                        self.infection_hue = h;
                        self.color = hue_color(h);
                        infectious = self.color;
                        let (_, c) = random_distinct_color(&mut self.rng, h);
                        healthy_now = c;
                    }
                    let fixed = config.color;
                    recolor(&mut sys, &mut self.rng, config.color_mode, fixed, infectious, healthy_now);
                    proof {
                        healthy_used = healthy_now;
                        assert(config.color_mode == BallColorMode::Infection ==> !same_rgb(
                            self.color,
                            healthy_now,
                        ));
                        assert(config.color_mode != BallColorMode::Infection ==> infectious
                            == self.color);
                    }
                }
                let ghost bd = sys;
                if config.show_density != old_cfg.show_density && !config.show_density {
                    clear_density(&mut sys);
                }
                proof {
                    let n = config.ball_count as int;
                    let len0 = b0.len_spec() as int;
                    let kept = if n < len0 {
                        n
                    } else {
                        len0
                    };
                    assert forall|k: int| 0 <= k < kept implies (#[trigger] sys.particle_data@[k]).velocity
                        == if config.ball_speed != old_cfg.ball_speed {
                        rescaled_velocity(b0.particle_data@, k, config.ball_speed as int)
                    } else {
                        b0.particle_data@[k].velocity
                    } by {
                        assert(sys.particle_data@[k] == bd.particle_data@[k]);
                        assert(bd.particle_data@[k] == bb.particle_data@[k]);
                        assert(ba.len_spec() == len0);
                        if config.ball_count == old_cfg.ball_count {
                            assert(bb == ba);
                        }
                        assert(bb.instances.instances@[k] == ba.instances.instances@[k]);
                        assert(bb.particle_data@[k] == ba.particle_data@[k]);
                        if config.ball_speed == old_cfg.ball_speed {
                            assert(ba == b0);
                        }
                    }
                    assert forall|k: int| len0 <= k < n implies b0.particle_system_data.domain.contains(
                        (#[trigger] sys.instances.instances@[k]).position,
                    ) && sys.instances.instances@[k].scale == config.ball_size && drawn_velocity(
                        sys.particle_data@[k].velocity,
                        config.ball_speed as int,
                    ) && sys.instances.instances@[k].age == 0 by {
                        assert(bb.instances.instances@[k].position == sys.instances.instances@[k].position);
                        assert(bb.instances.instances@[k].age == sys.instances.instances@[k].age);
                        assert(bb.instances.instances@[k].scale == config.ball_size);
                        assert(bc.instances.instances@[k].scale == config.ball_size);
                        assert(bd.instances.instances@[k].scale == config.ball_size);
                        assert(sys.particle_data@[k] == bb.particle_data@[k]);
                    }
                    if config.ball_size != old_cfg.ball_size {
                        assert forall|k: int| 0 <= k < n implies (#[trigger] sys.instances.instances@[k]).scale
                            == config.ball_size by {
                            assert(bc.instances.instances@[k].scale == config.ball_size);
                            assert(bd.instances.instances@[k].scale == config.ball_size);
                        }
                    }
                    if config.color_mode != old_cfg.color_mode || config.color != old_cfg.color {
                        if n > 1 {
                            assert(same_rgb(bd.instances.instances@[1].color, sys.instances.instances@[1].color));
                        }
                        assert forall|k: int| 0 <= k < n implies rgb_by_mode(
                            (#[trigger] sys.instances.instances@[k]).color,
                            k,
                            config.color_mode,
                            config.color,
                            self.color,
                            sys.instances.instances@[1].color,
                        ) by {
                            assert(same_rgb(bd.instances.instances@[k].color, sys.instances.instances@[k].color));
                            assert(rgb_by_mode(
                                bd.instances.instances@[k].color,
                                k,
                                config.color_mode,
                                config.color,
                                self.color,
                                healthy_used,
                            ));
                            if config.color_mode == BallColorMode::Random {
                                let h = choose|h: int|
                                    0 <= h < HUE_TURN && same_rgb(
                                        bd.instances.instances@[k].color,
                                        #[trigger] hue_color_spec(h),
                                    );
                                assert(same_rgb(sys.instances.instances@[k].color, hue_color_spec(h)));
                            }
                            if config.color_mode == BallColorMode::Infection && k > 0 {
                                assert(same_rgb(bd.instances.instances@[1].color, healthy_used));
                            }
                        }
                        if config.color_mode == BallColorMode::Infection && n > 1 {
                            assert(rgb_by_mode(
                                bd.instances.instances@[1].color,
                                1,
                                config.color_mode,
                                config.color,
                                self.color,
                                healthy_used,
                            ));
                            assert(same_rgb(bd.instances.instances@[1].color, healthy_used));
                            assert(!same_rgb(self.color, sys.instances.instances@[1].color));
                        }
                    }
                }
                self.balls = Some(sys);
                assert(config.color_mode == BallColorMode::Infection && (config.color_mode
                    != old_cfg.color_mode || config.color != old_cfg.color) ==> self.infection_hue
                    < HUE_TURN && self.color == hue_color_spec(self.infection_hue as int));
                assert(config.color_mode != BallColorMode::Infection && (config.color_mode
                    != old_cfg.color_mode || config.color != old_cfg.color) ==> self.color
                    == config.color);
                assert((config.show_density != old_cfg.show_density && !config.show_density)
                    ==> forall|k: int|
                    0 <= k < config.ball_count ==> (#[trigger] sys.instances.instances@[k]).color.a
                        == Alpha::opaque_spec());
                assert(config_effects(*old(self), *self, b0, sys, *config));
            },
        }
        self.old_config = *config;
    }
}

} // verus!
