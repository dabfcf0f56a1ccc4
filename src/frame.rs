//! One frame of the ball variant's collisions: the grid's size, the
//! traversal of its cells, and each particle's turn with its neighbours.
use crate::color::{
    compare_colors_ignoring_alpha, density_alpha, density_alpha_spec, hue_color, hue_color_spec,
    random_color, same_rgb, temperature_hue, Color, HUE_HOTTEST,
};
use crate::config::{BallColorMode, Configurator};
use crate::geometry::{saturate, Vec3, COORD_MAX};
use crate::grid::{cell_members, cells_bounded, lemma_grid_complete};
use crate::particle::{scaled, Extent, ParticleData, ParticleInstance, SCALE_MAX, SCALE_ONE};
use crate::physics::{
    correct_velocity, dist2, outcome_spec, overlaps, random_velocity, resolve_collision, sat, speed,
};
use crate::system::ParticleSystem;
use crate::grid::InstanceContainer;
use crate::physics::{correct_spec, drawn_velocity, speed_spec};
use crate::color::{temperature_hue_spec, Alpha};
use crate::balls::{BALL_EXTENT, LENGTH_UNIT};
use rand::rngs::StdRng;
use vstd::prelude::*;

verus! {
/// `min(scale * size / SCALE_ONE, COORD_MAX)`.
pub open spec fn scaled_capped(scale: int, size: int) -> int {
    let s = scaled(scale, size);
    if s > COORD_MAX {
        COORD_MAX as int
    } else {
        s
    }
}

/// A size scaled by a fixed-point scale, capped at the coordinate range.
pub fn scale_size(scale: i64, size: i64) -> (r: i64)
    requires
        0 <= scale,
        0 <= size <= COORD_MAX,
    ensures
        r == scaled_capped(scale as int, size as int),
        0 <= r <= COORD_MAX,
{
    proof {
        assert(0 <= scale * size <= i64::MAX * COORD_MAX) by (nonlinear_arith)
            requires
                0 <= scale <= i64::MAX,
                0 <= size <= COORD_MAX,
        ;
        vstd::arithmetic::div_mod::lemma_div_pos_is_pos(scale * size, SCALE_ONE as int);
    }
    let s: i128 = (scale as i128 * size as i128) / SCALE_ONE as i128;
    if s > COORD_MAX as i128 {
        COORD_MAX
    } else {
        s as i64
    }
}

/// A particle's collider, or an empty one where it has none.
pub open spec fn collider_or_empty(d: ParticleData) -> Extent {
    match d.collider {
        Some(c) => c,
        None => Extent { x: 0, y: 0 },
    }
}

/// What one frame of collisions counted: the summed speeds measured before
/// correction, and the particles that were infectious when their turn came.
pub struct FrameTally {
    pub total_speed: u128,
    pub infected: usize,
}

/// A position moved by `push` (`sign` one) or by its negation (`sign`
/// minus one), saturated to the coordinate range.
pub open spec fn shifted(p: Vec3, push: Vec3, sign: int) -> Vec3 {
    Vec3 {
        x: sat(p.x + sign * push.x) as i64,
        y: sat(p.y + sign * push.y) as i64,
        z: sat(p.z + sign * push.z) as i64,
    }
}

/// Whether a collision spreads the infection: one of the two carries the
/// infectious colour and the two colours differ.
pub open spec fn infect_spec(a: Color, b: Color, infectious: Color) -> bool {
    (same_rgb(b, infectious) || same_rgb(a, infectious)) && !same_rgb(a, b)
}

/// One collision step between particle `i`, as it was when its turn began
/// (`stale`), and particle `j`, as `collide_pair` performs it: all other
/// particles and the grid kept; where the two overlap at distinct centres,
/// both pushed apart and their velocities exchanged by `outcome_spec`, and
/// their colours following the mode; else nothing changed.
pub open spec fn pair_rel(
    s0: ParticleSystem,
    s1: ParticleSystem,
    i: usize,
    j: usize,
    stale: ParticleInstance,
    config: Configurator,
    infectious: Color,
) -> bool {
    &&& s1.wf()
    &&& s1.len_spec() == s0.len_spec()
    &&& s1.particle_system_data == s0.particle_system_data
    &&& s1.collider == s0.collider
    &&& s1.instances.regions@ == s0.instances.regions@
    &&& s1.instances.regions_x == s0.instances.regions_x
    &&& s1.instances.regions_y == s0.instances.regions_y
    &&& s1.instances.bounding_box == s0.instances.bounding_box
    &&& forall|k: int|
        0 <= k < s0.len_spec() && k != i && k != j ==> s1.instances.instances@[k]
            == s0.instances.instances@[k] && s1.particle_data@[k]
            == s0.particle_data@[k]
    &&& ({
        let cur = s0.instances.instances@[i as int];
        let other = s0.instances.instances@[j as int];
        let di = s0.particle_data@[i as int];
        let dj = s0.particle_data@[j as int];
        let c = collider_or_empty(di);
        let extent_x = scaled_capped(stale.scale as int, c.x as int);
        let extent_y = scaled_capped(stale.scale as int, c.y as int);
        let target = scaled_capped(config.ball_size as int, c.x as int);
        let ni = s1.instances.instances@[i as int];
        let nj = s1.instances.instances@[j as int];
        if overlaps(stale.position, other.position, extent_x, extent_y) && dist2(
            stale.position,
            other.position,
        ) > 0 {
            let o = outcome_spec(stale.position, di.velocity, other.position, dj.velocity, target);
            &&& s1.particle_data@[i as int] == (ParticleData { velocity: o.velocity_i, ..di })
            &&& s1.particle_data@[j as int] == (ParticleData { velocity: o.velocity_j, ..dj })
            &&& ni.position == shifted(cur.position, o.push, 1)
            &&& nj.position == shifted(other.position, o.push, -1)
            &&& ni.scale == cur.scale && ni.age == cur.age
            &&& nj.scale == other.scale && nj.age == other.age
            &&& config.color_mode == BallColorMode::Infection ==> if infect_spec(
                stale.color,
                other.color,
                infectious,
            ) {
                ni.color == infectious && nj.color == infectious
            } else {
                ni.color == cur.color && nj.color == other.color
            }
            &&& config.color_mode == BallColorMode::Random ==> ni.color == nj.color
            &&& (config.color_mode == BallColorMode::Color || config.color_mode
                == BallColorMode::Temperature) ==> ni.color == cur.color && nj.color
                == other.color
        } else {
            &&& ni == cur
            &&& nj == other
            &&& s1.particle_data@[i as int] == di
            &&& s1.particle_data@[j as int] == dj
        }
            })
}

/// Resolves a possible collision between particle `i`, as it was when its
/// turn began (`stale`), and particle `j` as it is now.
fn collide_pair(
    sys: &mut ParticleSystem,
    rng: &mut StdRng,
    i: usize,
    j: usize,
    stale: ParticleInstance,
    config: &Configurator,
    infectious: Color,
)
    requires
        old(sys).wf(),
        i < old(sys).len_spec(),
        j < old(sys).len_spec(),
        i != j,
        stale.wf(),
        config.wf(),
        infectious.wf(),
    ensures
        pair_rel(*old(sys), *final(sys), i, j, stale, *config, infectious),

{
    proof {
        assert(sys.instances.instances@[i as int].wf());
        assert(sys.instances.instances@[j as int].wf());
    }
    let data_i = sys.particle_data[i];
    let data_j = sys.particle_data[j];
    let other = sys.instances.instances[j];
    let c = match data_i.collider {
        Some(c) => c,
        None => Extent { x: 0, y: 0 },
    };
    let extent_x = scale_size(stale.scale, c.x);
    let extent_y = scale_size(stale.scale, c.y);
    let target = scale_size(config.ball_size, c.x);
    match resolve_collision(
        stale.position,
        data_i.velocity,
        other.position,
        data_j.velocity,
        extent_x,
        extent_y,
        target,
    ) {
        None => {},
        Some(o) => {
            let cur = sys.instances.instances[i];
            let pi = Vec3 {
                x: saturate(cur.position.x as i128 + o.push.x as i128),
                y: saturate(cur.position.y as i128 + o.push.y as i128),
                z: saturate(cur.position.z as i128 + o.push.z as i128),
            };
            let pj = Vec3 {
                x: saturate(other.position.x as i128 - o.push.x as i128),
                y: saturate(other.position.y as i128 - o.push.y as i128),
                z: saturate(other.position.z as i128 - o.push.z as i128),
            };
            let mut color_i = cur.color;
            let mut color_j = other.color;
            match config.color_mode {
                BallColorMode::Random => {
                    let col = random_color(rng);
                    color_i = col;
                    color_j = col;
                },
                BallColorMode::Infection => {
                    if (compare_colors_ignoring_alpha(other.color, infectious)
                        || compare_colors_ignoring_alpha(stale.color, infectious))
                        && !compare_colors_ignoring_alpha(stale.color, other.color) {
                        color_i = infectious;
                        color_j = infectious;
                    }
                },
                _ => {},
            }
            proof {
                assert(sys.instances.instances@[i as int].wf());
            }
            sys.set_instance(i, ParticleInstance { position: pi, color: color_i, ..cur });
            sys.set_instance(j, ParticleInstance { position: pj, color: color_j, ..other });
            sys.set_data(i, ParticleData { velocity: o.velocity_i, ..data_i });
            sys.set_data(j, ParticleData { velocity: o.velocity_j, ..data_j });
        },
    }
}

/// In the infection mode a collision step never makes an infectious
/// particle healthy: the two that collided keep or gain the infectious
/// colour, and every other particle keeps its colour.
pub proof fn lemma_infection_never_recedes(
    s0: ParticleSystem,
    s1: ParticleSystem,
    i: usize,
    j: usize,
    stale: ParticleInstance,
    config: Configurator,
    infectious: Color,
)
    requires
        pair_rel(s0, s1, i, j, stale, config, infectious),
        config.color_mode == BallColorMode::Infection,
        i < s0.len_spec(),
        j < s0.len_spec(),
        i != j,
    ensures
        forall|k: int|
            0 <= k < s0.len_spec() && same_rgb(
                #[trigger] s0.instances.instances@[k].color,
                infectious,
            ) ==> same_rgb(s1.instances.instances@[k].color, infectious),
{
}

/// The speed correction that opens particle `i`'s turn: where the
/// configuration asks for it, the velocity is scaled per `correct_spec`, or,
/// where that gives none (zero or runaway), replaced by a drawn velocity of
/// the target speed; nothing else changes.
pub open spec fn corrected_rel(
    s0: ParticleSystem,
    s1: ParticleSystem,
    i: int,
    config: Configurator,
    actual: int,
    dt: int,
) -> bool {
    if config.correct_ball_velocity {
        let d = s0.particle_data@[i];
        let w = s1.particle_data@[i].velocity;
        &&& s1.instances == s0.instances
        &&& s1.particle_system_data == s0.particle_system_data
        &&& s1.collider == s0.collider
        &&& s1.particle_data@ == s0.particle_data@.update(i, ParticleData { velocity: w, ..d })
        &&& match correct_spec(d.velocity, config.ball_speed as int, actual, dt) {
            Some(v) => w == v,
            None => drawn_velocity(w, config.ball_speed as int),
        }
    } else {
        s1 == s0
    }
}

/// `trace` runs through the collisions of particle `i` with the listed
/// neighbours in order: a collision step with each lower-indexed one, no
/// step for the others.
pub open spec fn neighbor_chain(
    trace: Seq<ParticleSystem>,
    neigh: Seq<usize>,
    i: usize,
    stale: ParticleInstance,
    config: Configurator,
    infectious: Color,
) -> bool {
    &&& trace.len() == neigh.len() + 1
    &&& forall|k: int|
        0 <= k < neigh.len() ==> if i > neigh[k] {
            pair_rel(#[trigger] trace[k], trace[k + 1], i, neigh[k], stale, config, infectious)
        } else {
            trace[k + 1] == trace[k]
        }
}

/// The colour that closes particle `i`'s turn, all else kept: in the
/// temperature mode the hue of the measured speed, else the colour it has;
/// under the density overlay the opacity of its `k` neighbours.
pub open spec fn recolored(
    s0: ParticleSystem,
    s1: ParticleSystem,
    i: int,
    config: Configurator,
    measured: int,
    k: int,
) -> bool {
    let p = s0.instances.instances@[i];
    let c = s1.instances.instances@[i].color;
    &&& s1.particle_data@ == s0.particle_data@
    &&& s1.particle_system_data == s0.particle_system_data
    &&& s1.collider == s0.collider
    &&& s1.instances.instances@ == s0.instances.instances@.update(i, ParticleInstance { color: c, ..p })
    &&& s1.instances.regions@ == s0.instances.regions@
    &&& s1.instances.regions_x == s0.instances.regions_x
    &&& s1.instances.regions_y == s0.instances.regions_y
    &&& s1.instances.bounding_box == s0.instances.bounding_box
    &&& if config.color_mode == BallColorMode::Temperature {
        same_rgb(c, hue_color_spec(temperature_hue_spec(measured, config.ball_speed as int)))
    } else {
        same_rgb(c, p.color)
    }
    &&& c.a == if config.show_density {
        density_alpha_spec(k, config.target_display_density as int)
    } else if config.color_mode == BallColorMode::Temperature {
        Alpha::opaque_spec()
    } else {
        p.color.a
    }
}

/// Particle `i`'s turn in cell `(x, y)`: its speed corrected, then its
/// collisions with the neighbourhood in order, then its colour; the speed
/// measured for the colour is the one before correction where the
/// configuration corrects, else the one after the collisions.
pub open spec fn turn_rel(
    s0: ParticleSystem,
    s1: ParticleSystem,
    x: int,
    y: int,
    i: usize,
    config: Configurator,
    dt: int,
    actual: int,
    infectious: Color,
) -> bool {
    let neigh = s0.instances.neighborhood(x, y, 1);
    let stale = s0.instances.instances@[i as int];
    exists|trace: Seq<ParticleSystem>|
        #![trigger neighbor_chain(trace, neigh, i, stale, config, infectious)]
        {
            &&& corrected_rel(s0, trace[0], i as int, config, actual, dt)
            &&& neighbor_chain(trace, neigh, i, stale, config, infectious)
            &&& recolored(
                trace.last(),
                s1,
                i as int,
                config,
                if config.correct_ball_velocity {
                    speed_spec(s0.particle_data@[i as int].velocity)
                } else {
                    speed_spec(trace.last().particle_data@[i as int].velocity)
                },
                neigh.len() as int,
            )
        }
}

/// The tally after particle `i`'s turn: its speed before correction added
/// (saturating) where the configuration corrects and the speed is not zero,
/// and one more infectious particle where it carried the infectious colour
/// when its turn began.
pub open spec fn tally_step(
    t0: (int, int),
    t1: (int, int),
    s0: ParticleSystem,
    i: int,
    config: Configurator,
    infectious: Color,
) -> bool {
    let sp = speed_spec(s0.particle_data@[i].velocity);
    &&& t1.0 == if config.correct_ball_velocity && sp > 0 {
        if t0.0 + sp > u128::MAX {
            u128::MAX as int
        } else {
            t0.0 + sp
        }
    } else {
        t0.0
    }
    &&& t1.1 == if config.color_mode == BallColorMode::Infection && same_rgb(
        s0.instances.instances@[i].color,
        infectious,
    ) && t0.1 < usize::MAX {
        t0.1 + 1
    } else {
        t0.1
    }
}

/// The frame invariant of the traversal: the store is well formed, keeps its
/// length, domain and grid, and every index in a cell is a particle's.
pub open spec fn traversal_inv(sys: ParticleSystem, before: ParticleSystem) -> bool {
    &&& sys.wf()
    &&& sys.len_spec() == before.len_spec()
    &&& sys.particle_system_data == before.particle_system_data
    &&& sys.collider == before.collider
    &&& sys.instances.regions@ == before.instances.regions@
    &&& sys.instances.regions_x == before.instances.regions_x
    &&& sys.instances.regions_y == before.instances.regions_y
    &&& sys.instances.bounding_box == before.instances.bounding_box
    &&& sys.instances.regions@.len() == sys.instances.regions_x * sys.instances.regions_y
    &&& cells_bounded(sys.instances.regions@, sys.len_spec() as int)
}

/// The turn of particle `i`, found in cell `(x, y)`: its speed is corrected
/// (where the configuration asks), it meets every lower-indexed particle of
/// the neighbourhood, and its colour and opacity follow the mode.
fn process_particle(
    sys: &mut ParticleSystem,
    rng: &mut StdRng,
    x: usize,
    y: usize,
    i: usize,
    config: &Configurator,
    dt: u64,
    actual: i64,
    infectious: Color,
    tally: &mut FrameTally,
)
    requires
        traversal_inv(*old(sys), *old(sys)),
        x < old(sys).instances.regions_x,
        y < old(sys).instances.regions_y,
        i < old(sys).len_spec(),
        config.wf(),
        infectious.wf(),
        0 <= actual <= 2 * COORD_MAX,
    ensures
        traversal_inv(*final(sys), *old(sys)),
        turn_rel(*old(sys), *final(sys), x as int, y as int, i, *config, dt as int, actual as int, infectious),
        tally_step(
            (old(tally).total_speed as int, old(tally).infected as int),
            (final(tally).total_speed as int, final(tally).infected as int),
            *old(sys),
            i as int,
            *config,
            infectious,
        ),
{
    proof {
        assert(sys.instances.instances@[i as int].wf());
    }
    let ghost s0 = *sys;
    let stale = sys.instances.instances[i];
    let mut speed_before: i64 = 0;
    if config.correct_ball_velocity {
        let v = sys.particle_data[i].velocity;
        speed_before = speed(v);
        let data = sys.particle_data[i];
        let w = match correct_velocity(v, config.ball_speed, actual, dt) {
            Some(w) => w,
            None => random_velocity(rng, config.ball_speed),
        };
        sys.set_data(i, ParticleData { velocity: w, ..data });
        if speed_before > 0 {
            tally.total_speed = tally.total_speed.saturating_add(speed_before as u128);
        }
    }
    let ghost sc = *sys;
    let neighbors = sys.instances.get_regions_in_range(x, y, 1);
    proof {
        sys.instances.lemma_block_run_bounded(
            x - 1,
            x + 2,
            y - 1,
            y + 2,
            sys.len_spec() as int,
        );
    }
    let ghost start = *sys;
    let ghost mut trace: Seq<ParticleSystem> = seq![*sys];
    let mut k: usize = 0;
    while k < neighbors.len()
        invariant
            traversal_inv(*sys, start),
            traversal_inv(start, *old(sys)),
            i < sys.len_spec(),
            stale.wf(),
            config.wf(),
            infectious.wf(),
            forall|m: int| 0 <= m < neighbors@.len() ==> #[trigger] neighbors@[m] < sys.len_spec(),
            k <= neighbors@.len(),
            trace.len() == k + 1,
            trace[0] == sc,
            trace.last() == *sys,
            forall|m: int|
                0 <= m < k ==> if i > neighbors@[m] {
                    pair_rel(#[trigger] trace[m], trace[m + 1], i, neighbors@[m], stale, *config, infectious)
                } else {
                    trace[m + 1] == trace[m]
                },
        decreases neighbors@.len() - k,
    {
        let j = neighbors[k];
        let ghost before = *sys;
        if i > j {
            collide_pair(sys, rng, i, j, stale, config, infectious);
        }
        proof {
            trace = trace.push(*sys);
        }
        k = k + 1;
    }
    assert(neighbor_chain(trace, neighbors@, i, stale, *config, infectious));
    proof {
        assert(sys.instances.instances@[i as int].wf());
    }
    let cur = sys.instances.instances[i];
    let mut color = cur.color;
    match config.color_mode {
        BallColorMode::Temperature => {
            let s = if config.correct_ball_velocity {
                speed_before
            } else {
                speed(sys.particle_data[i].velocity)
            };
            color = hue_color(temperature_hue(s, config.ball_speed));
        },
        BallColorMode::Infection => {
            if compare_colors_ignoring_alpha(stale.color, infectious) {
                tally.infected = tally.infected.saturating_add(1);
            }
        },
        _ => {},
    }
    if config.show_density {
        color = Color { a: density_alpha(neighbors.len(), config.target_display_density), ..color };
    }
    sys.set_instance(i, ParticleInstance { color, ..cur });
    proof {
        assert(neighbors@ == s0.instances.neighborhood(x as int, y as int, 1));
        assert(corrected_rel(s0, trace[0], i as int, *config, actual as int, dt as int));
        assert(recolored(
            trace.last(),
            *sys,
            i as int,
            *config,
            if config.correct_ball_velocity {
                speed_spec(s0.particle_data@[i as int].velocity)
            } else {
                speed_spec(trace.last().particle_data@[i as int].velocity)
            },
            neighbors@.len() as int,
        ));
    }
}

/// The side of a grid cell: the region size times a ball's extent at the
/// configured size.
pub open spec fn cell_size_spec(config: Configurator) -> int {
    scaled_capped(config.region_size as int, scaled_capped(config.ball_size as int, BALL_EXTENT as int))
}

pub open spec fn ceil_div(a: int, b: int) -> int {
    (a + b - 1) / b
}

/// The cell counts along the two axes for a domain of the given half width
/// (and a half height of one length unit): each half extent divided by the
/// cell side, rounded up. `None` where a count is zero, the cell side is
/// zero, or the cells are too many to number.
pub open spec fn grid_dims_spec(half_width: int, config: Configurator) -> Option<(usize, usize)> {
    let cell = cell_size_spec(config);
    if cell <= 0 {
        None
    } else {
        let rx = ceil_div(half_width, cell);
        let ry = ceil_div(LENGTH_UNIT as int, cell);
        if rx <= 0 || ry <= 0 || rx * ry > usize::MAX {
            None
        } else {
            Some((rx as usize, ry as usize))
        }
    }
}

/// The grid's cell counts for this frame, or `None` for a degenerate
/// configuration, whose frame is skipped.
pub fn grid_dims(half_width: i64, config: &Configurator) -> (r: Option<(usize, usize)>)
    requires
        0 <= half_width <= COORD_MAX,
        config.wf(),
    ensures
        r == grid_dims_spec(half_width as int, *config),
        r matches Some((rx, ry)) ==> 0 < rx && 0 < ry && rx * ry <= usize::MAX,
{
    let cell = scale_size(config.region_size, scale_size(config.ball_size, BALL_EXTENT));
    if cell <= 0 {
        return None;
    }
    proof {
        vstd::arithmetic::div_mod::lemma_div_pos_is_pos(half_width + cell - 1, cell as int);
        vstd::arithmetic::div_mod::lemma_div_pos_is_pos(LENGTH_UNIT + cell - 1, cell as int);
        vstd::arithmetic::div_mod::lemma_div_is_ordered_by_denominator(half_width + cell - 1, 1, cell as int);
        vstd::arithmetic::div_mod::lemma_div_is_ordered_by_denominator(LENGTH_UNIT + cell - 1, 1, cell as int);
    }
    let rx: i64 = (half_width + cell - 1) / cell;
    let ry: i64 = (LENGTH_UNIT + cell - 1) / cell;
    if rx <= 0 || ry <= 0 {
        return None;
    }
    proof {
        assert(rx * ry <= 0x400_0000_0000 * 0x400_0000_0000) by (nonlinear_arith)
            requires
                0 < rx <= 0x400_0000_0000,
                0 < ry <= 0x400_0000_0000,
        ;
    }
    if rx as u128 * ry as u128 > usize::MAX as u128 {
        return None;
    }
    proof {
        assert(rx <= rx * ry && ry <= rx * ry) by (nonlinear_arith)
            requires
                0 < rx,
                0 < ry,
        ;
    }
    Some((rx as usize, ry as usize))
}

/// The turns of cell `(x, y)`: one per index it holds, in order.
pub open spec fn cell_turns(regions: Seq<Vec<usize>>, rx: int, x: int, y: int) -> Seq<(usize, usize, usize)> {
    regions[y * rx + x]@.map_values(|i: usize| (x as usize, y as usize, i))
}

/// The turns of column `x`, rows `0..yhi`.
pub open spec fn row_turns(regions: Seq<Vec<usize>>, rx: int, x: int, yhi: int) -> Seq<(usize, usize, usize)>
    decreases yhi,
{
    if yhi <= 0 {
        seq![]
    } else {
        row_turns(regions, rx, x, yhi - 1) + cell_turns(regions, rx, x, yhi - 1)
    }
}

/// The turns of columns `0..xhi`, each over all `ry` rows.
pub open spec fn column_turns(regions: Seq<Vec<usize>>, rx: int, ry: int, xhi: int) -> Seq<
    (usize, usize, usize),
>
    decreases xhi,
{
    if xhi <= 0 {
        seq![]
    } else {
        column_turns(regions, rx, ry, xhi - 1) + row_turns(regions, rx, xhi - 1, ry)
    }
}

/// The order of a frame's turns: column by column, row by row, and within
/// a cell in the order it holds its indices; each turn names the cell and
/// the particle.
pub open spec fn frame_order(g: InstanceContainer) -> Seq<(usize, usize, usize)> {
    column_turns(g.regions@, g.regions_x as int, g.regions_y as int, g.regions_x as int)
}

/// `trace` and `tallies` run from `start` and a zero tally through the
/// turns `done`, ending in `cur` and `t`.
pub open spec fn frame_progress(
    start: ParticleSystem,
    cur: ParticleSystem,
    t: (int, int),
    done: Seq<(usize, usize, usize)>,
    trace: Seq<ParticleSystem>,
    tallies: Seq<(int, int)>,
    config: Configurator,
    dt: int,
    actual: int,
    infectious: Color,
) -> bool {
    &&& trace.len() == done.len() + 1
    &&& tallies.len() == done.len() + 1
    &&& trace[0] == start
    &&& tallies[0] == (0int, 0int)
    &&& trace.last() == cur
    &&& tallies.last() == t
    &&& forall|k: int|
        0 <= k < done.len() ==> turn_rel(
            #[trigger] trace[k],
            trace[k + 1],
            done[k].0 as int,
            done[k].1 as int,
            done[k].2,
            config,
            dt,
            actual,
            infectious,
        ) && tally_step(tallies[k], tallies[k + 1], trace[k], done[k].2 as int, config, infectious)
}

/// One frame's traversal took the rebuilt system `start` to `fin` with tally
/// `t`: every turn of `frame_order` in sequence.
pub open spec fn frame_rel(
    start: ParticleSystem,
    fin: ParticleSystem,
    t: (int, int),
    config: Configurator,
    dt: int,
    actual: int,
    infectious: Color,
) -> bool {
    exists|trace: Seq<ParticleSystem>, tallies: Seq<(int, int)>|
        #![trigger frame_progress(start, fin, t, frame_order(start.instances), trace, tallies, config, dt, actual, infectious)]
        frame_progress(
            start,
            fin,
            t,
            frame_order(start.instances),
            trace,
            tallies,
            config,
            dt,
            actual,
            infectious,
        )
}

/// `start` is `s0` with the grid laid out in `rx × ry` cells over the domain
/// and rebuilt.
pub open spec fn rebuilt(s0: ParticleSystem, start: ParticleSystem, rx: int, ry: int) -> bool {
    &&& start.instances.instances@ == s0.instances.instances@
    &&& start.particle_data@ == s0.particle_data@
    &&& start.particle_system_data == s0.particle_system_data
    &&& start.collider == s0.collider
    &&& start.instances.regions_x == rx
    &&& start.instances.regions_y == ry
    &&& start.instances.bounding_box == s0.particle_system_data.domain
    &&& start.instances.regions@.len() == rx * ry
    &&& forall|c: int|
        0 <= c < rx * ry ==> (#[trigger] start.instances.regions@[c])@ == cell_members(
            s0.instances.instances@,
            s0.particle_system_data.domain,
            rx,
            ry,
            c,
            s0.len_spec(),
        )
}

/// One frame of collisions over the whole population: the grid is laid out
/// with the given counts over the domain and rebuilt, then every cell's
/// particles take their turns, column by column, row by row, in the order
/// the cell holds them.
#[verifier::spinoff_prover]
#[verifier::rlimit(50)]
pub fn resolve_frame(
    sys: &mut ParticleSystem,
    rng: &mut StdRng,
    config: &Configurator,
    dt: u64,
    actual: i64,
    infectious: Color,
    regions_x: usize,
    regions_y: usize,
) -> (tally: FrameTally)
    requires
        old(sys).wf(),
        config.wf(),
        infectious.wf(),
        0 <= actual <= 2 * COORD_MAX,
        0 < regions_x,
        0 < regions_y,
        regions_x * regions_y <= usize::MAX,
    ensures
        final(sys).wf(),
        final(sys).len_spec() == old(sys).len_spec(),
        final(sys).particle_system_data == old(sys).particle_system_data,
        final(sys).collider == old(sys).collider,
        final(sys).instances.regions_x == regions_x,
        final(sys).instances.regions_y == regions_y,
        final(sys).instances.bounding_box == old(sys).particle_system_data.domain,
        frame_result(
            *old(sys),
            *final(sys),
            (tally.total_speed as int, tally.infected as int),
            regions_x as int,
            regions_y as int,
            *config,
            dt as int,
            actual as int,
            infectious,
        ),
{
    let ghost s0 = *sys;
    sys.instances.regions_x = regions_x;
    sys.instances.regions_y = regions_y;
    sys.instances.bounding_box = sys.particle_system_data.domain;
    sys.instances.rebuild_regions();
    proof {
        assert forall|k: int| 0 <= k < sys.particle_data@.len() implies (
        #[trigger] sys.instances.instances@[k]).wf() && sys.particle_data@[k].wf() by {
            assert(s0.instances.instances@[k].wf());
        }
        assert(sys.instances.instances@.len() == sys.particle_data@.len());
        assert(sys.instances.instances@.len() <= usize::MAX) by {
            let n = sys.particle_data.len();
        }
        lemma_grid_complete(sys.instances);
    }
    let ghost start = *sys;
    let ghost regions = start.instances.regions@;
    let ghost rx = regions_x as int;
    let ghost ry = regions_y as int;
    let mut tally = FrameTally { total_speed: 0, infected: 0 };
    let ghost mut done: Seq<(usize, usize, usize)> = seq![];
    let ghost mut trace: Seq<ParticleSystem> = seq![start];
    let ghost mut tallies: Seq<(int, int)> = seq![(0int, 0int)];
    let mut x: usize = 0;
    while x < regions_x
        invariant
            traversal_inv(*sys, start),
            start.instances.regions_x == regions_x,
            start.instances.regions_y == regions_y,
            start.wf(),
            start.len_spec() == old(sys).len_spec(),
            start.particle_system_data == old(sys).particle_system_data,
            start.collider == old(sys).collider,
            start.instances.bounding_box == old(sys).particle_system_data.domain,
            regions == start.instances.regions@,
            rx == regions_x,
            ry == regions_y,
            config.wf(),
            infectious.wf(),
            0 <= actual <= 2 * COORD_MAX,
            x <= regions_x,
            done == column_turns(regions, rx, ry, x as int),
            frame_progress(
                start,
                *sys,
                (tally.total_speed as int, tally.infected as int),
                done,
                trace,
                tallies,
                *config,
                dt as int,
                actual as int,
                infectious,
            ),
        decreases regions_x - x,
    {
        let mut y: usize = 0;
        while y < regions_y
            invariant
                traversal_inv(*sys, start),
                start.instances.regions_x == regions_x,
                start.instances.regions_y == regions_y,
                regions == start.instances.regions@,
                rx == regions_x,
                ry == regions_y,
                x < regions_x,
                y <= regions_y,
                config.wf(),
                infectious.wf(),
                0 <= actual <= 2 * COORD_MAX,
                done == column_turns(regions, rx, ry, x as int) + row_turns(regions, rx, x as int, y as int),
                frame_progress(
                    start,
                    *sys,
                    (tally.total_speed as int, tally.infected as int),
                    done,
                    trace,
                    tallies,
                    *config,
                    dt as int,
                    actual as int,
                    infectious,
                ),
            decreases regions_y - y,
        {
            let cell = sys.instances.copy_region(x, y);
            proof {
                crate::grid::lemma_row_major_bound(x as int, y as int, regions_x as int, regions_y as int);
            }
            let ghost turns = cell_turns(regions, rx, x as int, y as int);
            let ghost prefix = done;
            let mut a: usize = 0;
            while a < cell.len()
                invariant
                    traversal_inv(*sys, start),
                    start.instances.regions_x == regions_x,
                    start.instances.regions_y == regions_y,
                    regions == start.instances.regions@,
                    rx == regions_x,
                    ry == regions_y,
                    x < regions_x,
                    y < regions_y,
                    config.wf(),
                    infectious.wf(),
                    0 <= actual <= 2 * COORD_MAX,
                    forall|m: int| 0 <= m < cell@.len() ==> #[trigger] cell@[m] < sys.len_spec(),
                    cell@ == regions[y * rx + x]@,
                    turns == cell_turns(regions, rx, x as int, y as int),
                    turns.len() == cell@.len(),
                    a <= cell@.len(),
                    prefix == column_turns(regions, rx, ry, x as int) + row_turns(regions, rx, x as int, y as int),
                    done == prefix + turns.take(a as int),
                    frame_progress(
                        start,
                        *sys,
                        (tally.total_speed as int, tally.infected as int),
                        done,
                        trace,
                        tallies,
                        *config,
                        dt as int,
                        actual as int,
                        infectious,
                    ),
                decreases cell@.len() - a,
            {
                let i = cell[a];
                let ghost before = *sys;
                process_particle(sys, rng, x, y, i, config, dt, actual, infectious, &mut tally);
                proof {
                    assert(turns[a as int] == (x, y, i));
                    assert(turns.take(a + 1) =~= turns.take(a as int).push(turns[a as int]));
                    done = done.push((x, y, i));
                    trace = trace.push(*sys);
                    tallies = tallies.push((tally.total_speed as int, tally.infected as int));
                    assert(done == prefix + turns.take(a + 1));
                }
                a = a + 1;
            }
            proof {
                assert(turns.take(a as int) =~= turns);
                assert(row_turns(regions, rx, x as int, y + 1) == row_turns(regions, rx, x as int, y as int) + turns);
                assert(done =~= column_turns(regions, rx, ry, x as int) + row_turns(regions, rx, x as int, y + 1));
            }
            y = y + 1;
        }
        proof {
            assert(column_turns(regions, rx, ry, x + 1) == column_turns(regions, rx, ry, x as int) + row_turns(regions, rx, x as int, ry));
            assert(row_turns(regions, rx, x + 1, 0) =~= Seq::<(usize, usize, usize)>::empty());
            assert(done =~= column_turns(regions, rx, ry, x + 1) + row_turns(regions, rx, x + 1, 0));
        }
        x = x + 1;
    }
    proof {
        assert(done == frame_order(start.instances));
        assert(rebuilt(s0, start, regions_x as int, regions_y as int));
        assert(frame_rel(start, *sys, (tally.total_speed as int, tally.infected as int), *config, dt as int, actual as int, infectious));
        reveal(frame_result);
    }
    tally
}

/// One frame's collisions took `s0` to `fin` with tally `t`: the grid laid
/// out in `rx × ry` cells and rebuilt, then every particle's turn in the
/// frame's order.
#[verifier::opaque]
pub open spec fn frame_result(
    s0: ParticleSystem,
    fin: ParticleSystem,
    t: (int, int),
    rx: int,
    ry: int,
    config: Configurator,
    dt: int,
    actual: int,
    infectious: Color,
) -> bool {
    exists|start: ParticleSystem|
        #![trigger rebuilt(s0, start, rx, ry)]
        rebuilt(s0, start, rx, ry) && frame_rel(start, fin, t, config, dt, actual, infectious)
}

} // verus!
