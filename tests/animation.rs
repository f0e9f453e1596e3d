use topdown_game::geometry::Vec2;
use topdown_game::geometry::UNIT;
use topdown_game::health::{health_bar_width, BarWidth, Health};
use topdown_game::sprite::{layer_depth, Animation, AnimationTimer, FacingDirection};

#[test]
fn timer_fires_once_per_completed_interval() {
    let mut t = AnimationTimer::from_millis(100);
    assert!(!t.tick(60));
    assert_eq!(t.elapsed_ms, 60);
    assert!(t.tick(40));
    assert_eq!(t.elapsed_ms, 0);
    // Two and a half intervals at once still fire once.
    assert!(t.tick(250));
    assert_eq!(t.elapsed_ms, 50);
}

#[test]
fn idle_entity_stays_on_first_frame() {
    let mut a = Animation::new(7, 100);
    for _ in 0..50 {
        a.animate(Vec2::zero(), 100);
        assert_eq!(a.sprite.index, 0);
    }
}

#[test]
fn idle_entity_returns_to_first_frame_on_expiry() {
    let mut a = Animation::new(7, 100);
    a.animate(Vec2::new(5, 0), 100);
    a.animate(Vec2::new(5, 0), 100);
    assert_eq!(a.sprite.index, 2);
    a.animate(Vec2::zero(), 30);
    assert_eq!(a.sprite.index, 2);
    a.animate(Vec2::zero(), 70);
    assert_eq!(a.sprite.index, 0);
}

#[test]
fn moving_entity_advances_one_frame_per_interval() {
    let mut a = Animation::new(7, 100);
    a.animate(Vec2::new(0, 5), 50);
    assert_eq!(a.sprite.index, 0);
    a.animate(Vec2::new(0, 5), 50);
    assert_eq!(a.sprite.index, 1);
    a.animate(Vec2::new(0, 5), 350);
    assert_eq!(a.sprite.index, 2);
}

#[test]
fn frame_index_wraps_at_frame_count() {
    let mut a = Animation::new(7, 100);
    for _ in 0..7 {
        a.animate(Vec2::new(1, 1), 100);
    }
    assert_eq!(a.sprite.index, 0);
    a.animate(Vec2::new(1, 1), 100);
    assert_eq!(a.sprite.index, 1);
}

#[test]
fn facing_follows_horizontal_heading() {
    let mut a = Animation::new(7, 100);
    a.animate(Vec2::new(-5, 0), 100);
    assert_eq!(a.facing, FacingDirection::West);
    assert!(a.sprite.flip_x);
    a.animate(Vec2::new(5, 0), 100);
    assert_eq!(a.facing, FacingDirection::East);
    assert!(!a.sprite.flip_x);
}

#[test]
fn facing_changes_only_on_expiry() {
    let mut a = Animation::new(7, 100);
    a.animate(Vec2::new(-5, 0), 50);
    assert_eq!(a.facing, FacingDirection::East);
    a.animate(Vec2::new(-5, 0), 50);
    assert_eq!(a.facing, FacingDirection::West);
}

#[test]
fn zero_horizontal_heading_keeps_facing() {
    let mut a = Animation::new(7, 100);
    a.animate(Vec2::new(-5, 0), 100);
    assert_eq!(a.facing, FacingDirection::West);
    for _ in 0..5 {
        a.animate(Vec2::new(0, 5), 100);
        assert_eq!(a.facing, FacingDirection::West);
        assert!(a.sprite.flip_x);
    }
    a.animate(Vec2::zero(), 100);
    assert_eq!(a.facing, FacingDirection::West);
}

#[test]
fn depth_from_height() {
    assert_eq!(layer_depth(0), 1000 * UNIT);
    assert_eq!(layer_depth(1000 * UNIT), 0);
    assert_eq!(layer_depth(-1000 * UNIT), 2000 * UNIT);
    assert_eq!(layer_depth(250 * UNIT), 750 * UNIT);
}

#[test]
fn health_bar_half() {
    let w = health_bar_width(&Health { max: 100, current: 50 });
    assert!(w.equals_units(10));
    assert!(!w.equals_units(11));
}

#[test]
fn health_bar_empty() {
    assert!(health_bar_width(&Health { max: 100, current: 0 }).equals_units(0));
}

#[test]
fn health_bar_full() {
    assert!(health_bar_width(&Health { max: 100, current: 100 }).equals_units(20));
    assert!(health_bar_width(&Health { max: 7, current: 7 }).equals_units(20));
}

#[test]
fn health_bar_is_exact() {
    // 20 * 1 / 3 = 6.67: held as the fraction 20 / 3, not rounded.
    let w = health_bar_width(&Health { max: 3, current: 1 });
    assert_eq!(w, BarWidth { num: 20, den: 3 });
    assert!(!w.equals_units(6));
    assert_eq!(health_bar_width(&Health { max: 100, current: 99 }), BarWidth { num: 1980, den: 100 });
}

#[test]
fn damage_stops_at_zero() {
    let mut h = Health::new(100);
    h.take_damage(30);
    assert_eq!(h.current, 70);
    assert!(!h.is_depleted());
    h.take_damage(500);
    assert_eq!(h.current, 0);
    assert!(h.is_depleted());
    assert_eq!(h.max, 100);
}
