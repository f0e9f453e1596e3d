use topdown_game::enemy::steer_towards;
use topdown_game::geometry::{collide, floor_sqrt_u128, Collision, Vec2, NORMAL_SCALE, UNIT};
use topdown_game::movement::{
    resolve_movement, tick_displacement, Collidable, LevelFloor, Movable, Obstacle,
};

fn mover(x: i64, y: i64, velocity: u64) -> Movable {
    Movable { velocity, direction: Vec2::new(x, y) }
}

/// A point or size given in world units.
fn at(x: i64, y: i64) -> Vec2 {
    Vec2::new(x * UNIT, y * UNIT)
}

fn body() -> Collidable {
    Collidable { size: at(26, 20) }
}

fn big_level() -> LevelFloor {
    LevelFloor { position: Vec2::zero(), size: at(5000, 2000) }
}

#[test]
fn normalize_zero_is_zero() {
    let z = Vec2::zero().normalize_or_zero();
    assert_eq!(z, Vec2::new(0, 0));
}

#[test]
fn normalize_axis_vectors() {
    assert_eq!(Vec2::new(1, 0).normalize_or_zero(), Vec2::new(NORMAL_SCALE, 0));
    assert_eq!(Vec2::new(0, -7).normalize_or_zero(), Vec2::new(0, -NORMAL_SCALE));
    assert_eq!(Vec2::new(100, 0).normalize_or_zero(), Vec2::new(NORMAL_SCALE, 0));
}

#[test]
fn normalize_rounds_toward_zero() {
    assert_eq!(Vec2::new(3, 4).normalize_or_zero(), Vec2::new(39321, 52428));
    assert_eq!(Vec2::new(-3, 4).normalize_or_zero(), Vec2::new(-39321, 52428));
    assert_eq!(Vec2::new(1, 1).normalize_or_zero(), Vec2::new(46341, 46341));
    assert_eq!(Vec2::new(-3, 5).normalize_or_zero(), Vec2::new(-33718, 56196));
}

#[test]
fn normalize_ignores_length() {
    assert_eq!(Vec2::new(5, 5).normalize_or_zero(), Vec2::new(1, 1).normalize_or_zero());
}

#[test]
fn normalize_largest_heading() {
    let n = Vec2::new(2_000_000_000, -2_000_000_000).normalize_or_zero();
    assert_eq!(n, Vec2::new(46340, -46340));
}

#[test]
fn normalize_extreme_heading() {
    let n = Vec2::new(13_107_200_000_000, 13_107_200_000_000).normalize_or_zero();
    assert_eq!(n, Vec2::new(46340, 46340));
}

#[test]
fn floor_sqrt_values() {
    assert_eq!(floor_sqrt_u128(0), 0);
    assert_eq!(floor_sqrt_u128(1), 1);
    assert_eq!(floor_sqrt_u128(15), 3);
    assert_eq!(floor_sqrt_u128(16), 4);
    assert_eq!(floor_sqrt_u128(8_589_934_592), 92681);
    assert_eq!(floor_sqrt_u128(u64::MAX as u128), 4_294_967_295);
}

#[test]
fn collide_sides() {
    let size = Vec2::new(10, 10);
    let b = Vec2::zero();
    assert_eq!(collide(Vec2::new(-8, 0), size, b, size), Some(Collision::Left));
    assert_eq!(collide(Vec2::new(8, 0), size, b, size), Some(Collision::Right));
    assert_eq!(collide(Vec2::new(0, 8), size, b, size), Some(Collision::Top));
    assert_eq!(collide(Vec2::new(0, -8), size, b, size), Some(Collision::Bottom));
    assert_eq!(collide(Vec2::new(0, 0), size, b, size), Some(Collision::Inside));
    assert_eq!(collide(Vec2::new(1, 1), Vec2::new(2, 2), b, Vec2::new(20, 20)), Some(Collision::Inside));
}

#[test]
fn collide_separated_or_touching() {
    let size = Vec2::new(10, 10);
    assert_eq!(collide(Vec2::new(10, 0), size, Vec2::zero(), size), None);
    assert_eq!(collide(Vec2::new(0, 30), size, Vec2::zero(), size), None);
}

#[test]
fn collide_shallower_axis_wins() {
    let size = Vec2::new(10, 10);
    // 2 units deep in y, 6 in x: a top contact.
    assert_eq!(collide(Vec2::new(4, 8), size, Vec2::zero(), size), Some(Collision::Top));
    // 2 units deep in x, 6 in y: a right contact.
    assert_eq!(collide(Vec2::new(8, 4), size, Vec2::zero(), size), Some(Collision::Right));
    // equal depths go to x.
    assert_eq!(collide(Vec2::new(8, 8), size, Vec2::zero(), size), Some(Collision::Right));
}

#[test]
fn displacement_is_heading_times_speed_times_time() {
    assert_eq!(tick_displacement(&mover(1, 0, 200), 1000), at(200, 0));
    // (3, 4) normalizes to (39321, 52428) / 65536.
    assert_eq!(tick_displacement(&mover(3, 4, 200), 1000), Vec2::new(39321 * 200 * 1000, 52428 * 200 * 1000));
    assert_eq!(tick_displacement(&mover(-3, 4, 200), 50), Vec2::new(-39321 * 200 * 50, 52428 * 200 * 50));
    assert_eq!(tick_displacement(&mover(0, 0, 200), 1000), Vec2::new(0, 0));
    assert_eq!(tick_displacement(&mover(1, 0, 0), 1000), Vec2::new(0, 0));
}

#[test]
fn short_ticks_still_move() {
    // 150 units per second for 1 ms: 0.15 units.
    assert_eq!(tick_displacement(&mover(100, 0, 150), 1), Vec2::new(65536 * 150, 0));
    assert_eq!(tick_displacement(&mover(100, 0, 150), 1).x * 100, 15 * UNIT);
}

#[test]
fn free_movement_moves_by_full_displacement() {
    let obstacles: Vec<Obstacle> = Vec::new();
    let p = resolve_movement(at(10, -20), &mover(1, 0, 200), &body(), &obstacles, &big_level(), 1000);
    assert_eq!(p, at(210, -20));
    let p = resolve_movement(Vec2::zero(), &mover(3, 4, 200), &body(), &obstacles, &big_level(), 1000);
    assert_eq!(p, Vec2::new(39321 * 200 * 1000, 52428 * 200 * 1000));
}

#[test]
fn idle_entity_does_not_move() {
    let obstacles: Vec<Obstacle> = Vec::new();
    let p = resolve_movement(at(3, 3), &mover(0, 0, 200), &body(), &obstacles, &big_level(), 1000);
    assert_eq!(p, at(3, 3));
}

fn wall_above() -> Obstacle {
    Obstacle { position: at(0, 25), collider: Collidable { size: at(100, 20) } }
}

#[test]
fn obstacle_above_blocks_upward_motion() {
    let obstacles = vec![wall_above()];
    let p = resolve_movement(Vec2::zero(), &mover(0, 1, 200), &body(), &obstacles, &big_level(), 50);
    assert_eq!(p, Vec2::new(0, 0));
}

#[test]
fn obstacle_above_keeps_sideways_slide() {
    let obstacles = vec![wall_above()];
    let p = resolve_movement(Vec2::zero(), &mover(1, 1, 200), &body(), &obstacles, &big_level(), 50);
    // 0.70711 * 200 * 0.05 = 7.0711 units.
    assert_eq!(p, Vec2::new(46341 * 200 * 50, 0));
    assert_eq!(p.x, 463_410_000);
}

#[test]
fn obstacle_overlapping_candidate_stops_both_axes() {
    let tree = Obstacle { position: at(0, 10), collider: body() };
    let obstacles = vec![tree];
    let p = resolve_movement(Vec2::zero(), &mover(0, 1, 200), &body(), &obstacles, &big_level(), 50);
    assert_eq!(p, Vec2::new(0, 0));
}

#[test]
fn moving_away_from_obstacle_is_not_blocked() {
    let obstacles = vec![wall_above()];
    // Contact from below, but moving down: nothing to cancel.
    let p = resolve_movement(at(0, 20), &mover(0, -1, 200), &body(), &obstacles, &big_level(), 50);
    assert_eq!(p, at(0, 10));
}

#[test]
fn leaving_level_rejects_whole_move() {
    let level = LevelFloor { position: Vec2::zero(), size: at(100, 100) };
    let obstacles: Vec<Obstacle> = Vec::new();
    let p = resolve_movement(at(40, 0), &mover(1, 1, 200), &body(), &obstacles, &level, 50);
    assert_eq!(p, at(40, 0));
    // Far outside: no overlap at all, also rejected.
    let p = resolve_movement(at(40, 0), &mover(1, 0, 200), &body(), &obstacles, &level, 1000);
    assert_eq!(p, at(40, 0));
}

#[test]
fn crossing_level_edge_by_a_fraction_is_rejected() {
    // The box's right edge would reach x = 2500.0711, past the floor's edge at 2500.
    let obstacles: Vec<Obstacle> = Vec::new();
    let p = resolve_movement(at(2480, 0), &mover(1, 1, 200), &body(), &obstacles, &big_level(), 50);
    assert_eq!(p, at(2480, 0));
}

#[test]
fn staying_inside_level_moves() {
    let level = LevelFloor { position: Vec2::zero(), size: at(100, 100) };
    let obstacles: Vec<Obstacle> = Vec::new();
    let p = resolve_movement(at(20, 0), &mover(1, 0, 200), &body(), &obstacles, &level, 50);
    assert_eq!(p, at(30, 0));
}

#[test]
fn enemy_steers_toward_player() {
    let d = steer_towards(Vec2::new(0, 0), at(100, 0));
    assert_eq!(d, at(100, 0));
    let obstacles: Vec<Obstacle> = Vec::new();
    let p = resolve_movement(Vec2::zero(), &mover(d.x, d.y, 150), &body(), &obstacles, &big_level(), 50);
    // 150 * 0.05 = 7.5 units.
    assert_eq!(p, Vec2::new(15 * UNIT / 2, 0));
}

#[test]
fn direction_components() {
    let m = mover(3, -4, 200);
    assert_eq!(m.get_x_direction(), 39321);
    assert_eq!(m.get_y_direction(), -52428);
    assert_eq!(body().size(), at(26, 20));
}

#[test]
fn vector_arithmetic() {
    assert_eq!(Vec2::new(1, 2).add(Vec2::new(3, -5)), Vec2::new(4, -3));
    assert_eq!(Vec2::new(1, 2).sub(Vec2::new(3, -5)), Vec2::new(-2, 7));
}
