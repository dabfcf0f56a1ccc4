use ball_sim::balls::{BallScreenSaver, Point2, BALL_EXTENT, LENGTH_UNIT};
use ball_sim::frame::grid_dims;
use ball_sim::color::{
    color_from_hex, compare_colors_ignoring_alpha, density_alpha, ColorError, distinct_hue, hue_color, random_color,
    random_distinct_color, temperature_hue, Alpha, Color, HUE_HOTTEST,
};
use ball_sim::config::{
    BallColorMode, ConfigPresets, Configurator, DDDModel, ScreenSaverType, ShaderType,
};
use ball_sim::geometry::{clamp_i64, isqrt, BoundingBox, BoundingBoxType, Vec3};
use ball_sim::grid::InstanceContainer;
use ball_sim::particle::{Extent, Instance, ParticleData, ParticleInstance, SCALE_ONE};
use ball_sim::physics::{
    correct_velocity, resolve_collision, speed, velocity_toward, SPEED_UNIT,
};
use ball_sim::random::{random_between, random_index, seeded_rng};
use ball_sim::snow::SnowScreenSaver;
use ball_sim::screensaver::Simulation;
use ball_sim::system::{step_particle, ParticleSystem, ParticleSystemData};

fn particle_at(x: i64, y: i64) -> ParticleInstance {
    ParticleInstance { position: Vec3 { x, y, z: 0 }, color: Color::white(), scale: SCALE_ONE, age: 0 }
}

fn config() -> Configurator {
    Configurator {
        screensaver: ScreenSaverType::Balls,
        fullscreen: false,
        snowflake_count: 0,
        ball_count: 10,
        ball_speed: SPEED_UNIT / 5,
        ball_size: SCALE_ONE / 5,
        color_mode: BallColorMode::Color,
        color: Color::rgb(10, 20, 30),
        show_density: false,
        target_display_density: 6,
        region_size: SCALE_ONE,
        correct_ball_velocity: true,
        ddd_model: DDDModel::Apple,
    }
}

fn domain(half: i64) -> BoundingBox {
    BoundingBox::new(
        Vec3 { x: -half, y: -half, z: 0 },
        Vec3 { x: half, y: half, z: 0 },
        BoundingBoxType::Bounce,
    )
}

#[test]
fn rebuild_puts_every_index_in_exactly_one_cell() {
    let parts = vec![
        particle_at(-900, -900),
        particle_at(900, -900),
        particle_at(-900, 900),
        particle_at(900, 900),
        particle_at(0, 0),
        particle_at(5000, -5000),
    ];
    let mut grid = InstanceContainer::new(parts, 2, 2);
    grid.bounding_box = BoundingBox::new(
        Vec3 { x: -1000, y: -1000, z: 0 },
        Vec3 { x: 1000, y: 1000, z: 0 },
        BoundingBoxType::Clamp,
    );
    grid.rebuild_regions();
    assert_eq!(grid.regions().len(), 4);
    assert_eq!(grid.get_region(0, 0), &vec![0usize]);
    assert_eq!(grid.get_region(1, 0), &vec![1usize, 5]);
    assert_eq!(grid.get_region(0, 1), &vec![2usize]);
    assert_eq!(grid.get_region(1, 1), &vec![3usize, 4]);
    let mut seen = vec![0usize; 6];
    for cell in grid.regions() {
        for &i in cell {
            seen[i] += 1;
        }
    }
    assert_eq!(seen, vec![1; 6]);
}

#[test]
fn neighbourhood_is_clipped_and_ordered_by_column_then_row() {
    let parts = vec![particle_at(-900, -900), particle_at(900, -900), particle_at(-900, 900), particle_at(900, 900)];
    let mut grid = InstanceContainer::new(parts, 2, 2);
    grid.bounding_box = BoundingBox::new(
        Vec3 { x: -1000, y: -1000, z: 0 },
        Vec3 { x: 1000, y: 1000, z: 0 },
        BoundingBoxType::Clamp,
    );
    grid.rebuild_regions();
    assert_eq!(grid.get_regions_in_range(0, 0, 1), vec![0, 2, 1, 3]);
    assert_eq!(grid.get_regions_in_range(1, 1, 0), vec![3]);
    assert_eq!(grid.get_regions_in_range(0, 0, 5), vec![0, 2, 1, 3]);
}

#[test]
fn boxes_from_corners_and_from_size() {
    let b = BoundingBox::new(Vec3 { x: 5, y: -3, z: 2 }, Vec3 { x: -1, y: 7, z: 2 }, BoundingBoxType::Clamp);
    assert_eq!(b.min_pos, Vec3 { x: -1, y: -3, z: 2 });
    assert_eq!(b.max_pos, Vec3 { x: 5, y: 7, z: 2 });
    assert_eq!(b.width(), 6);
    assert_eq!(b.height(), 10);
    assert_eq!(b.depth(), 0);
    let s = BoundingBox::new_with_size(Vec3 { x: 0, y: 0, z: 0 }, 2000, -10, 0, BoundingBoxType::Modulo);
    assert_eq!(s.min_pos, Vec3 { x: -1000, y: -5, z: 0 });
    assert_eq!(s.max_pos, Vec3 { x: 1000, y: 5, z: 0 });
    assert_eq!(s.bound_type(), BoundingBoxType::Modulo);
}

#[test]
fn clamp_and_wrap_positions() {
    let b = BoundingBox::new(Vec3 { x: 0, y: 0, z: 0 }, Vec3 { x: 10, y: 10, z: 10 }, BoundingBoxType::Clamp);
    assert_eq!(b.clamp_pos(Vec3 { x: -5, y: 4, z: 12 }), Vec3 { x: 0, y: 4, z: 10 });
    assert_eq!(b.modulo_pos(Vec3 { x: -3, y: 4, z: 13 }), Vec3 { x: 7, y: 4, z: 3 });
    assert_eq!(clamp_i64(7, 0, 5), 5);
}

#[test]
fn random_positions_lie_in_the_box_and_vary() {
    let mut rng = seeded_rng(7);
    let b = BoundingBox::new(Vec3 { x: -50, y: 0, z: 3 }, Vec3 { x: 50, y: 100, z: 3 }, BoundingBoxType::Clamp);
    let mut xs = std::collections::HashSet::new();
    for _ in 0..200 {
        let p = b.random_pos(&mut rng);
        assert!(p.x >= -50 && p.x <= 50 && p.y >= 0 && p.y <= 100 && p.z == 3);
        xs.insert(p.x);
    }
    assert!(xs.len() > 10);
}

#[test]
fn same_seed_gives_same_draws() {
    let mut a = seeded_rng(42);
    let mut b = seeded_rng(42);
    let xs: Vec<i64> = (0..20).map(|_| random_between(&mut a, 0, 1000)).collect();
    let ys: Vec<i64> = (0..20).map(|_| random_between(&mut b, 0, 1000)).collect();
    assert_eq!(xs, ys);
    assert!(xs.iter().any(|&x| x != 0));
    let mut c = seeded_rng(1);
    for _ in 0..50 {
        assert!(random_index(&mut c, 3) < 3);
    }
}

#[test]
fn bounce_and_clamp_keep_particles_inside_after_a_step() {
    for kind in [BoundingBoxType::Bounce, BoundingBoxType::Clamp] {
        let mut d = domain(LENGTH_UNIT);
        d.bound_type = kind;
        let inst = particle_at(LENGTH_UNIT - 10, -LENGTH_UNIT + 10);
        let data = ParticleData {
            velocity: Vec3 { x: 50 * SPEED_UNIT, y: -50 * SPEED_UNIT, z: 0 },
            collider: Some(Extent { x: BALL_EXTENT, y: BALL_EXTENT }),
        };
        let (next, nd) = step_particle(&d, inst, data, 1_000_000);
        assert_eq!(next.age, 1_000_000);
        if kind == BoundingBoxType::Bounce {
            // the edge already crossed the walls, so the velocity turns inward
            assert_eq!(nd.velocity.x, -50 * SPEED_UNIT);
            assert_eq!(nd.velocity.y, 50 * SPEED_UNIT);
            assert_eq!(next.position.x, -LENGTH_UNIT);
            assert_eq!(next.position.y, LENGTH_UNIT);
        } else {
            assert_eq!(nd, data);
            assert_eq!(next.position.x, LENGTH_UNIT);
            assert_eq!(next.position.y, -LENGTH_UNIT);
        }
    }
}

#[test]
fn modulo_and_ignore_steps() {
    let mut d = domain(1000);
    d.bound_type = BoundingBoxType::Modulo;
    let data = ParticleData { velocity: Vec3 { x: 500, y: 0, z: 0 }, collider: None };
    let (next, _) = step_particle(&d, particle_at(900, 0), data, 1_000_000);
    assert_eq!(next.position.x, -600);
    d.bound_type = BoundingBoxType::Ignore;
    let (next, _) = step_particle(&d, particle_at(900, 0), data, 1_000_000);
    assert_eq!(next.position.x, 1400);
}

#[test]
fn collision_pushes_apart_and_exchanges_velocity() {
    let ci = Vec3 { x: 0, y: 0, z: 0 };
    let cj = Vec3 { x: -60, y: 0, z: 0 };
    let vi = Vec3 { x: -10, y: 0, z: 0 };
    let vj = Vec3 { x: 10, y: 0, z: 0 };
    let o = resolve_collision(ci, vi, cj, vj, 100, 100, 100).unwrap();
    assert_eq!(o.push, Vec3 { x: 20, y: 0, z: 0 });
    assert_eq!(o.velocity_i, Vec3 { x: 10, y: 0, z: 0 });
    assert_eq!(o.velocity_j, Vec3 { x: -10, y: 0, z: 0 });
    let new_gap = (ci.x + o.push.x) - (cj.x - o.push.x);
    assert!(new_gap * new_gap >= 60 * 60);
    assert_eq!(new_gap, 100);
    assert!(resolve_collision(ci, vi, Vec3 { x: 200, y: 0, z: 0 }, vj, 100, 100, 100).is_none());
    assert!(resolve_collision(ci, vi, ci, vj, 100, 100, 100).is_none());
}

#[test]
fn oblique_collision_keeps_the_momentum_sum() {
    let ci = Vec3 { x: 30, y: 40, z: 0 };
    let cj = Vec3 { x: 0, y: 0, z: 0 };
    let vi = Vec3 { x: -500, y: 100, z: 0 };
    let vj = Vec3 { x: 200, y: 300, z: 0 };
    let o = resolve_collision(ci, vi, cj, vj, 80, 80, 80).unwrap();
    assert_eq!(o.velocity_i.x + o.velocity_j.x, vi.x + vj.x);
    assert_eq!(o.velocity_i.y + o.velocity_j.y, vi.y + vj.y);
    let ex = (ci.x + o.push.x) - (cj.x - o.push.x);
    let ey = (ci.y + o.push.y) - (cj.y - o.push.y);
    assert!(ex * ex + ey * ey >= 50 * 50);
}

#[test]
fn density_alpha_is_clamped_and_squared() {
    let a = density_alpha(3, 6);
    assert_eq!(a.num as f64 / a.den as f64, 0.25);
    let b = density_alpha(10, 5);
    assert_eq!(b.num as f64 / b.den as f64, 1.0);
    assert_eq!(density_alpha(0, 4), Alpha { num: 0, den: 16 });
    assert_eq!(density_alpha(7, 0), Alpha { num: 1, den: 1 });
}

#[test]
fn hues_map_to_saturated_colours() {
    assert_eq!(hue_color(0), Color::rgb(255, 0, 0));
    assert_eq!(hue_color(255), Color::rgb(255, 255, 0));
    assert_eq!(hue_color(510), Color::rgb(0, 255, 0));
    assert_eq!(hue_color(765), Color::rgb(0, 255, 255));
    assert_eq!(hue_color(1020), Color::rgb(0, 0, 255));
    assert_eq!(hue_color(1275), Color::rgb(255, 0, 255));
    assert_eq!(hue_color(1529), Color::rgb(255, 0, 1));
    assert_eq!(hue_color(100), Color::rgb(255, 100, 0));
}

#[test]
fn temperature_follows_excess_speed() {
    assert_eq!(temperature_hue(50, 100), 0);
    assert_eq!(temperature_hue(100, 100), 15);
    assert_eq!(temperature_hue(2600, 100), 780);
    assert_eq!(temperature_hue(4600, 100), 1377);
    assert_eq!(temperature_hue(10, 0), HUE_HOTTEST);
}

#[test]
fn distinct_colours_are_far_in_hue() {
    assert_eq!(distinct_hue(1000, 400), 600);
    assert_eq!(distinct_hue(100, 400), 1230);
    let mut rng = seeded_rng(3);
    for old in [0u32, 300, 765, 1529] {
        let (h, c) = random_distinct_color(&mut rng, old);
        assert!(h < 1530);
        let mut d = old as i64 - h as i64;
        if d > 765 {
            d -= 1530;
        } else if d < -765 {
            d += 1530;
        }
        assert!(d > 306);
        assert!(!compare_colors_ignoring_alpha(c, hue_color(old)));
    }
    let c = random_color(&mut rng);
    assert_eq!(c.a, Alpha { num: 1, den: 1 });
}

#[test]
fn colours_compare_without_alpha() {
    let a = Color::rgb(1, 2, 3);
    let b = Color { a: Alpha { num: 0, den: 5 }, ..a };
    assert!(compare_colors_ignoring_alpha(a, b));
    assert!(!compare_colors_ignoring_alpha(a, Color::rgb(1, 2, 4)));
}

#[test]
fn integer_roots_and_speeds() {
    assert_eq!(isqrt(0), 0);
    assert_eq!(isqrt(24), 4);
    assert_eq!(isqrt(25), 5);
    assert_eq!(isqrt(u128::MAX), u64::MAX as u128);
    assert_eq!(speed(Vec3 { x: 3, y: 4, z: 12 }), 13);
    assert_eq!(velocity_toward(3, 4, 1000), Vec3 { x: 600, y: 800, z: 0 });
    assert_eq!(velocity_toward(0, 0, 1000), Vec3 { x: 1000, y: 0, z: 0 });
}

#[test]
fn correction_scales_toward_the_target_and_guards_runaways() {
    let v = Vec3 { x: 1000, y: 0, z: 0 };
    // half a second at twice the target: 1 + (1/2 - 1) * 0.5 / 10 = 0.975
    assert_eq!(correct_velocity(v, 500, 1000, 500_000), Some(Vec3 { x: 975, y: 0, z: 0 }));
    // far below the target the factor stops at two
    assert_eq!(correct_velocity(v, 1000, 1, 100_000_000), Some(Vec3 { x: 2000, y: 0, z: 0 }));
    assert_eq!(correct_velocity(Vec3 { x: 0, y: 0, z: 0 }, 500, 1000, 1000), None);
    let fast = Vec3 { x: 5 * SPEED_UNIT, y: 0, z: 0 };
    assert_eq!(correct_velocity(fast, 1, 1, 0), None);
}

#[test]
fn grid_counts_follow_ball_and_region_size() {
    let c = config();
    // cell side: 0.16 * 0.2 = 0.032 units
    assert_eq!(grid_dims(LENGTH_UNIT, &c), Some((32, 32)));
    assert_eq!(grid_dims(2 * LENGTH_UNIT, &c), Some((63, 32)));
    assert_eq!(grid_dims(0, &c), None);
    let zero = Configurator { ball_size: 0, ..c };
    assert_eq!(grid_dims(LENGTH_UNIT, &zero), None);
}

#[test]
fn population_resize_is_idempotent() {
    let c = config();
    let mut saver = BallScreenSaver::new(c, 11);
    saver.setup(LENGTH_UNIT, &c);
    saver.update(LENGTH_UNIT, &c, 16_000);
    let grown = Configurator { ball_count: 25, ..c };
    saver.apply_config(&grown);
    let first: Vec<(Vec3, u64)> = saver.balls.as_ref().unwrap().instances.instances.iter().map(|p| (p.position, p.age)).collect();
    assert_eq!(first.len(), 25);
    assert!(first[..10].iter().all(|&(_, age)| age == 16_000));
    saver.apply_config(&grown);
    let second: Vec<(Vec3, u64)> = saver.balls.as_ref().unwrap().instances.instances.iter().map(|p| (p.position, p.age)).collect();
    assert_eq!(first, second);
    let shrunk = Configurator { ball_count: 4, ..c };
    saver.apply_config(&shrunk);
    let sys = saver.balls.as_ref().unwrap();
    assert_eq!(sys.len(), 4);
    assert_eq!(sys.particle_data.len(), 4);
}

#[test]
fn infection_saturates_and_restarts_with_a_new_colour() {
    let c = Configurator {
        ball_count: 10,
        ball_size: SCALE_ONE * 2,
        ball_speed: SPEED_UNIT,
        color_mode: BallColorMode::Infection,
        correct_ball_velocity: false,
        ..config()
    };
    let mut saver = BallScreenSaver::new(c, 5);
    saver.setup(LENGTH_UNIT / 2, &c);
    assert_eq!(saver.infected_count(), 1);
    let mut restarted = false;
    for _ in 0..20000 {
        let before = saver.color;
        let hue_before = saver.infection_hue;
        saver.update(LENGTH_UNIT / 2, &c, 16_000);
        if !compare_colors_ignoring_alpha(saver.color, before) {
            let mut d = hue_before as i64 - saver.infection_hue as i64;
            if d > 765 {
                d -= 1530;
            } else if d < -765 {
                d += 1530;
            }
            assert!(d > 306);
            assert_eq!(saver.infected_count(), 1);
            restarted = true;
            break;
        }
        assert!(saver.infected_count() >= 1);
    }
    assert!(restarted);
}

#[test]
fn average_speed_converges_without_collisions() {
    let target = SPEED_UNIT / 5;
    let c = Configurator {
        ball_count: 20,
        ball_size: SCALE_ONE / 100,
        ball_speed: target,
        correct_ball_velocity: true,
        ..config()
    };
    let mut saver = BallScreenSaver::new(c, 9);
    saver.setup(LENGTH_UNIT, &c);
    {
        let sys = saver.balls.as_mut().unwrap();
        for d in sys.particle_data.iter_mut() {
            d.velocity.x *= 3;
            d.velocity.y *= 3;
        }
    }
    for _ in 0..400 {
        saver.update(LENGTH_UNIT, &c, 1_000_000);
    }
    let sys = saver.balls.as_ref().unwrap();
    let limit = ((target as i128) * (target as i128) * 1000).max(10 * (SPEED_UNIT as i128) * (SPEED_UNIT as i128));
    let mut total: i64 = 0;
    for d in sys.particle_data.iter() {
        let s2 = (d.velocity.x as i128).pow(2) + (d.velocity.y as i128).pow(2);
        assert!(s2 <= limit);
        total += speed(d.velocity);
    }
    let avg = total / 20;
    assert!((avg - target).abs() * 20 < target, "average {} target {}", avg, target);
}

#[test]
fn density_overlay_sets_alpha_and_clears_it() {
    let c = Configurator { show_density: true, target_display_density: 1, ..config() };
    let mut saver = BallScreenSaver::new(c, 2);
    saver.setup(LENGTH_UNIT, &c);
    saver.update(LENGTH_UNIT, &c, 16_000);
    for p in saver.balls.as_ref().unwrap().instances.instances.iter() {
        assert_eq!(p.color.a, Alpha { num: 1, den: 1 });
    }
    let c2 = Configurator { target_display_density: 1000, ..c };
    saver.update(LENGTH_UNIT, &c2, 16_000);
    for p in saver.balls.as_ref().unwrap().instances.instances.iter() {
        assert_eq!(p.color.a.den, 1_000_000);
        assert!(p.color.a.num >= 1);
    }
    let c3 = Configurator { show_density: false, ..c2 };
    saver.apply_config(&c3);
    for p in saver.balls.as_ref().unwrap().instances.instances.iter() {
        assert_eq!(p.color.a, Alpha { num: 1, den: 1 });
    }
}

#[test]
fn setup_colours_by_mode_and_sizes_balls() {
    let c = config();
    let mut saver = BallScreenSaver::new(c, 1);
    saver.setup(LENGTH_UNIT, &c);
    let sys = saver.balls.as_ref().unwrap();
    assert_eq!(sys.len(), 10);
    for (p, d) in sys.instances.instances.iter().zip(sys.particle_data.iter()) {
        assert_eq!(p.color, Color::rgb(10, 20, 30));
        assert_eq!(p.scale, SCALE_ONE / 5);
        assert!(p.position.x.abs() <= LENGTH_UNIT && p.position.y.abs() <= LENGTH_UNIT);
        assert!(d.velocity.x.abs() <= c.ball_speed && d.velocity.y.abs() <= c.ball_speed);
        assert!(speed(d.velocity) * 100 >= c.ball_speed * 95);
    }
    let t = Configurator { color_mode: BallColorMode::Temperature, ..c };
    let mut hot = BallScreenSaver::new(t, 1);
    hot.setup(LENGTH_UNIT, &t);
    assert!(hot.balls.as_ref().unwrap().instances.instances.iter().all(|p| p.color == Color::white()));
}

#[test]
fn frames_keep_balls_in_the_domain() {
    let c = Configurator { ball_count: 200, color_mode: BallColorMode::Random, ..config() };
    let mut saver = BallScreenSaver::new(c, 4);
    saver.setup(LENGTH_UNIT * 3 / 2, &c);
    for _ in 0..50 {
        saver.update(LENGTH_UNIT * 3 / 2, &c, 50_000);
    }
    let sys = saver.balls.as_ref().unwrap();
    let d = sys.particle_system_data.domain;
    for p in sys.instances.instances.iter() {
        assert!(p.position.x >= d.min_pos.x && p.position.x <= d.max_pos.x);
        assert!(p.position.y >= d.min_pos.y && p.position.y <= d.max_pos.y);
    }
    assert!(saver.actual_ball_speed > 0);
}

#[test]
fn degenerate_grid_skips_the_frame() {
    let c = config();
    let mut saver = BallScreenSaver::new(c, 8);
    saver.setup(LENGTH_UNIT, &c);
    let before: Vec<Vec3> = saver.balls.as_ref().unwrap().instances.instances.iter().map(|p| p.position).collect();
    saver.update(0, &c, 16_000);
    let after: Vec<Vec3> = saver.balls.as_ref().unwrap().instances.instances.iter().map(|p| p.position).collect();
    assert_eq!(before, after);
}

#[test]
fn resize_stretches_horizontally() {
    let c = Configurator { ball_count: 3, ..config() };
    let mut saver = BallScreenSaver::new(c, 6);
    saver.setup(LENGTH_UNIT, &c);
    let xs: Vec<i64> = saver.balls.as_ref().unwrap().instances.instances.iter().map(|p| p.position.x).collect();
    saver.resize(LENGTH_UNIT, 2 * LENGTH_UNIT);
    let sys = saver.balls.as_ref().unwrap();
    for (p, x) in sys.instances.instances.iter().zip(xs) {
        assert_eq!(p.position.x, 2 * x);
    }
    assert_eq!(sys.particle_system_data.domain.max_pos.x, 2 * LENGTH_UNIT);
    assert_eq!(saver.get_background_color(), Color::rgb(0, 0, 0));
}

#[test]
fn pointer_movement_pushes_nearby_balls() {
    let c = Configurator { ball_count: 50, ..config() };
    let mut saver = BallScreenSaver::new(c, 12);
    saver.setup(LENGTH_UNIT, &c);
    saver.update(LENGTH_UNIT, &c, 1_000);
    let before: Vec<Vec3> = saver.balls.as_ref().unwrap().particle_data.iter().map(|d| d.velocity).collect();
    assert!(!saver.handle_input(Point2 { x: 0, y: 0 }, 1, true));
    assert!(!saver.handle_input(Point2 { x: 0, y: 0 }, 1, true));
    assert!(!saver.handle_input(Point2 { x: 100_000, y: 0 }, 6, true));
    let after: Vec<Vec3> = saver.balls.as_ref().unwrap().particle_data.iter().map(|d| d.velocity).collect();
    let pushed = before.iter().zip(after.iter()).filter(|(b, a)| a.x == b.x + 100_000).count();
    assert!(pushed > 0);
    assert!(!saver.handle_input(Point2 { x: 0, y: 0 }, 1, false));
    assert_eq!(saver.inputs[1], None);
}

#[test]
fn particle_systems_grow_with_white_resting_particles() {
    let mut rng = seeded_rng(0);
    let mut sys = ParticleSystem::create_billboard(30, 30, ParticleSystemData::new(domain(1000)));
    sys.populate_random(&mut rng, 5);
    assert_eq!(sys.len(), 5);
    for (p, d) in sys.instances.instances.iter().zip(sys.particle_data.iter()) {
        assert_eq!(p.color, Color::white());
        assert_eq!(d.velocity, Vec3 { x: 0, y: 0, z: 0 });
        assert_eq!(d.collider, Some(Extent { x: 30, y: 30 }));
    }
    sys.update(250);
    assert!(sys.instances.instances.iter().all(|p| p.age == 250));
}

#[test]
fn particles_age_saturating() {
    let mut p = particle_at(0, 0);
    p.age = u64::MAX - 1;
    p.update(10);
    assert_eq!(p.age, u64::MAX);
}

#[test]
fn names_and_resources() {
    assert_eq!(ScreenSaverType::Balls.to_string(), "balls");
    assert_eq!(ScreenSaverType::Snow.to_string(), "snow");
    assert_eq!(BallColorMode::Infection.to_string(), "infection");
    assert_eq!(BallColorMode::Color.to_string(), "color");
    assert_eq!(DDDModel::Shark.to_string(), "shark");
    assert_eq!(DDDModel::Apple.get(), ("models/apple.obj".to_string(), "textures/apple.png".to_string()));
    assert_eq!(ShaderType::MeshShader.get_source(), "shaders/model_shader.wgsl");
}

#[test]
fn presets_override_the_defaults() {
    let d = config();
    let lava = Configurator::from_preset(ConfigPresets::BallsLava, d);
    assert_eq!(lava.ball_count, 10000);
    assert_eq!(lava.color_mode, BallColorMode::Temperature);
    assert!(lava.show_density);
    assert_eq!(lava.target_display_density, d.target_display_density);
    let dvd = Configurator::from_preset(ConfigPresets::BallsDVD, d);
    assert_eq!(dvd.ball_count, 1);
    assert_eq!(dvd.ball_size, SCALE_ONE / 2);
}

#[test]
fn hex_colours_parse_or_say_why_not() {
    assert_eq!(color_from_hex("#ff8000"), Ok(Color::rgb(255, 128, 0)));
    assert_eq!(color_from_hex("#0A0b0Cff"), Ok(Color::rgb(10, 11, 12)));
    assert_eq!(color_from_hex("ff8000"), Err(ColorError::MissingHash));
    assert_eq!(color_from_hex(""), Err(ColorError::MissingHash));
    assert_eq!(color_from_hex("#ff80"), Err(ColorError::TooShort));
    assert_eq!(color_from_hex("#ff80g0"), Err(ColorError::InvalidDigit));
}

#[test]
fn snow_layers_drift_and_follow_the_flake_count() {
    let c = Configurator { screensaver: ScreenSaverType::Snow, snowflake_count: 40, ..config() };
    let mut snow = SnowScreenSaver::new(c, 3);
    snow.setup(&c);
    assert_eq!(snow.models.len(), 2);
    for layer in snow.models.iter() {
        assert_eq!(layer.len(), 40);
        for (p, d) in layer.instances.instances.iter().zip(layer.particle_data.iter()) {
            assert!(p.position.z >= 0 && p.position.z <= LENGTH_UNIT);
            assert_eq!(p.scale, SCALE_ONE - p.position.z * 4 / 5);
            assert_eq!(p.color.a, Alpha { num: (LENGTH_UNIT - p.position.z) as u64, den: LENGTH_UNIT as u64 });
            assert!(d.velocity.x <= 0 && d.velocity.y >= 0);
        }
    }
    let more = Configurator { snowflake_count: 55, ..c };
    snow.update(&more, 16_000);
    assert!(snow.models.iter().all(|m| m.len() == 55));
    let fewer = Configurator { snowflake_count: 7, ..c };
    snow.update(&fewer, 16_000);
    assert!(snow.models.iter().all(|m| m.len() == 7 && m.particle_data.len() == 7));
    let d = snow.models[0].particle_system_data.domain;
    assert_eq!(d.bound_type, BoundingBoxType::Modulo);
    assert_eq!((d.min_pos.x, d.max_pos.x, d.min_pos.z, d.max_pos.z), (-3 * LENGTH_UNIT, 3 * LENGTH_UNIT, 0, LENGTH_UNIT));
}

#[test]
fn store_accessors_change_in_place() {
    let mut grid = InstanceContainer::new(vec![particle_at(0, 0)], 2, 1);
    grid.instances_mut().push(particle_at(5, 5));
    assert_eq!(grid.len(), 2);
    assert!(!grid.is_empty());
    grid.get_region_mut(1, 0).push(1);
    assert_eq!(grid.get_region(1, 0), &vec![1usize]);
    grid.regions_mut().push(vec![0]);
    assert_eq!(grid.regions().len(), 3);
    grid.remove(0);
    assert_eq!(grid.instances()[0].position, Vec3 { x: 5, y: 5, z: 0 });
    grid.clear();
    assert!(grid.is_empty());
}

#[test]
fn simulations_dispatch_by_kind() {
    let snow_cfg = Configurator { screensaver: ScreenSaverType::Snow, snowflake_count: 5, ..config() };
    let mut sim = Simulation::new(snow_cfg, 1);
    sim.setup(LENGTH_UNIT);
    sim.update(LENGTH_UNIT, &snow_cfg, 16_000);
    match &sim {
        Simulation::Snow(s) => assert!(s.models.iter().all(|m| m.len() == 5)),
        Simulation::Balls(_) => panic!("expected snow"),
    }
    let balls_cfg = config();
    let mut sim = Simulation::new(balls_cfg, 1);
    sim.setup(LENGTH_UNIT);
    sim.update(LENGTH_UNIT, &balls_cfg, 16_000);
    match &sim {
        Simulation::Balls(b) => assert_eq!(b.balls.as_ref().unwrap().len(), 10),
        Simulation::Snow(_) => panic!("expected balls"),
    }
}

#[test]
fn absurd_region_size_still_runs() {
    let c = Configurator { region_size: i64::MAX / 4, ..config() };
    let mut saver = BallScreenSaver::new(c, 3);
    saver.setup(LENGTH_UNIT, &c);
    saver.update(LENGTH_UNIT, &c, 16_000);
    assert_eq!(grid_dims(LENGTH_UNIT, &c), Some((1, 1)));
    assert_eq!(saver.balls.as_ref().unwrap().len(), 10);
}
