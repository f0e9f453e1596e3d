use vstd::prelude::*;

use crate::geometry::{
    abs, collide, collision_of, trunc_div, Collision, Vec2, COORD_LIMIT, DIRECTION_LIMIT,
    NORMAL_SCALE,
};

verus! {

/// Largest speed, in world units per second.
pub const MAX_VELOCITY: u64 = 10_000;

/// Largest time step of one tick, in milliseconds.
pub const MAX_DELTA_MS: u64 = 10_000;

/// Largest full width or height of a collider, in sub-units (10 000 world units).
pub const SIZE_LIMIT: i64 = 655_360_000_000;

/// The level floor lies within `[-LEVEL_LIMIT, LEVEL_LIMIT]` on both axes, in
/// sub-units (50 000 world units).
pub const LEVEL_LIMIT: i64 = 3_276_800_000_000;

/// Movement intent: a speed and an unnormalized heading. Only the direction
/// of the heading matters; its length does not change the speed.
#[derive(Clone, Copy, Debug, PartialEq, Eq, Structural)]
pub struct Movable {
    pub velocity: u64,
    pub direction: Vec2,
}

/// Axis-aligned collision extent: full width and height, centred on the
/// entity's position.
#[derive(Clone, Copy, Debug, PartialEq, Eq, Structural)]
pub struct Collidable {
    pub size: Vec2,
}

/// The walkable floor of the level: a rectangle given by its centre and its
/// full size.
#[derive(Clone, Copy, Debug, PartialEq, Eq, Structural)]
pub struct LevelFloor {
    pub position: Vec2,
    pub size: Vec2,
}

/// A static collidable entity, as the resolver sees it.
#[derive(Clone, Copy, Debug, PartialEq, Eq, Structural)]
pub struct Obstacle {
    pub position: Vec2,
    pub collider: Collidable,
}

impl Movable {
    pub open spec fn wf(self) -> bool {
        self.velocity <= MAX_VELOCITY && self.direction.within(DIRECTION_LIMIT as int)
    }

    /// x component of the normalized heading (scaled by `NORMAL_SCALE`).
    pub fn get_x_direction(&self) -> (r: i64)
        requires
            self.wf(),
        ensures
            r == self.direction.normalized().x,
    {
        self.direction.normalize_or_zero().x
    }

    /// y component of the normalized heading (scaled by `NORMAL_SCALE`).
    pub fn get_y_direction(&self) -> (r: i64)
        requires
            self.wf(),
        ensures
            r == self.direction.normalized().y,
    {
        self.direction.normalize_or_zero().y
    }
}

impl Collidable {
    /// Extents are positive: a degenerate collider is not allowed.
    pub open spec fn wf(self) -> bool {
        0 < self.size.x <= SIZE_LIMIT && 0 < self.size.y <= SIZE_LIMIT
    }

    pub fn size(&self) -> (r: Vec2)
        ensures
            r == self.size,
    {
        self.size
    }
}

impl LevelFloor {
    /// Positive size, and the whole rectangle within `LEVEL_LIMIT`.
    pub open spec fn wf(self) -> bool {
        &&& self.size.x > 0
        &&& self.size.y > 0
        &&& abs(2 * self.position.x) + self.size.x <= 2 * LEVEL_LIMIT
        &&& abs(2 * self.position.y) + self.size.y <= 2 * LEVEL_LIMIT
    }
}

impl Obstacle {
    pub open spec fn wf(self) -> bool {
        self.position.within(COORD_LIMIT as int) && self.collider.wf()
    }
}

/// One component of a tick's displacement, in sub-units: `n / NORMAL_SCALE`
/// of a unit heading at `velocity` world units per second for `delta_ms`
/// milliseconds. A world unit is `NORMAL_SCALE * 1000` sub-units, so the
/// product is exact.
pub open spec fn step_component(n: int, velocity: int, delta_ms: int) -> int {
    n * velocity * delta_ms
}

/// The displacement of a tick: `normalize_or_zero(direction) * velocity * dt`.
pub open spec fn displacement(m: Movable, delta_ms: u64) -> Vec2 {
    let n = m.direction.normalized();
    Vec2 {
        x: step_component(n.x as int, m.velocity as int, delta_ms as int) as i64,
        y: step_component(n.y as int, m.velocity as int, delta_ms as int) as i64,
    }
}

pub open spec fn plus(a: Vec2, b: Vec2) -> Vec2 {
    Vec2 { x: (a.x + b.x) as i64, y: (a.y + b.y) as i64 }
}

/// Cancels the part of `mv` that drives it into a contact on side `c`:
/// motion along the other axis is kept; `Inside` stops both.
pub open spec fn clip(mv: Vec2, c: Option<Collision>) -> Vec2 {
    match c {
        None => mv,
        Some(Collision::Top) => if mv.y < 0 { Vec2 { x: mv.x, y: 0 } } else { mv },
        Some(Collision::Bottom) => if mv.y > 0 { Vec2 { x: mv.x, y: 0 } } else { mv },
        Some(Collision::Left) => if mv.x > 0 { Vec2 { x: 0, y: mv.y } } else { mv },
        Some(Collision::Right) => if mv.x < 0 { Vec2 { x: 0, y: mv.y } } else { mv },
        Some(Collision::Inside) => Vec2 { x: 0, y: 0 },
    }
}

/// `mv` after the corrections of every obstacle in turn, each judged on the
/// box of size `size` at `candidate`.
pub open spec fn clipped_move(candidate: Vec2, size: Vec2, obstacles: Seq<Obstacle>, mv: Vec2) -> Vec2
    decreases obstacles.len(),
{
    if obstacles.len() == 0 {
        mv
    } else {
        let o = obstacles.last();
        clip(
            clipped_move(candidate, size, obstacles.drop_last(), mv),
            collision_of(candidate, size, o.position, o.collider.size),
        )
    }
}

/// Where the entity stands after a tick: the candidate position
/// `position + displacement` is judged against every obstacle, and the
/// corrected move is committed only if the candidate box is `Inside` the
/// level floor; otherwise the entity does not move at all.
pub open spec fn resolved_position(
    position: Vec2,
    m: Movable,
    collider: Collidable,
    obstacles: Seq<Obstacle>,
    level: LevelFloor,
    delta_ms: u64,
) -> Vec2 {
    let d = displacement(m, delta_ms);
    let candidate = plus(position, d);
    let mv = clipped_move(candidate, collider.size, obstacles, d);
    if collision_of(candidate, collider.size, level.position, level.size) == Some(Collision::Inside) {
        plus(position, mv)
    } else {
        position
    }
}

/// The displacement of one tick for `m`.
pub fn tick_displacement(m: &Movable, delta_ms: u64) -> (r: Vec2)
    requires
        m.wf(),
        delta_ms <= MAX_DELTA_MS,
    ensures
        r == displacement(*m, delta_ms),
        r.within(COORD_LIMIT as int),
{
    let n = m.direction.normalize_or_zero();
    let x = step(n.x, m.velocity, delta_ms);
    let y = step(n.y, m.velocity, delta_ms);
    Vec2 { x, y }
}

fn step(n: i64, velocity: u64, delta_ms: u64) -> (r: i64)
    requires
        abs(n as int) <= NORMAL_SCALE,
        velocity <= MAX_VELOCITY,
        delta_ms <= MAX_DELTA_MS,
    ensures
        r == step_component(n as int, velocity as int, delta_ms as int),
        abs(r as int) <= COORD_LIMIT,
{
    let a: u64 = if n < 0 { (-n) as u64 } else { n as u64 };
    proof {
        assert(a * velocity <= 65536 * 10_000) by (nonlinear_arith)
            requires a <= 65536, velocity <= 10_000;
        assert(a * velocity * delta_ms <= 65536 * 10_000 * 10_000) by (nonlinear_arith)
            requires a * velocity <= 65536 * 10_000, delta_ms <= 10_000;
    }
    let p: u64 = a * velocity * delta_ms;
    proof {
        if n < 0 {
            assert(n * velocity * delta_ms == -(a * velocity * delta_ms)) by (nonlinear_arith)
                requires a == -n;
        } else {
            assert(n * velocity * delta_ms == a * velocity * delta_ms);
        }
    }
    if n < 0 {
        -(p as i64)
    } else {
        p as i64
    }
}

/// `clip` of the executable resolver.
fn clip_exec(mv: Vec2, c: Option<Collision>) -> (r: Vec2)
    ensures
        r == clip(mv, c),
{
    match c {
        None => mv,
        Some(Collision::Top) => if mv.y < 0 { Vec2 { x: mv.x, y: 0 } } else { mv },
        Some(Collision::Bottom) => if mv.y > 0 { Vec2 { x: mv.x, y: 0 } } else { mv },
        Some(Collision::Left) => if mv.x > 0 { Vec2 { x: 0, y: mv.y } } else { mv },
        Some(Collision::Right) => if mv.x < 0 { Vec2 { x: 0, y: mv.y } } else { mv },
        Some(Collision::Inside) => Vec2 { x: 0, y: 0 },
    }
}

/// Each component of a corrected move is the uncorrected component or zero.
pub proof fn lemma_clipped_components(candidate: Vec2, size: Vec2, obstacles: Seq<Obstacle>, mv: Vec2)
    ensures
        clipped_move(candidate, size, obstacles, mv).x == mv.x
            || clipped_move(candidate, size, obstacles, mv).x == 0,
        clipped_move(candidate, size, obstacles, mv).y == mv.y
            || clipped_move(candidate, size, obstacles, mv).y == 0,
    decreases obstacles.len(),
{
    if obstacles.len() > 0 {
        lemma_clipped_components(candidate, size, obstacles.drop_last(), mv);
    }
}

/// Moves one entity for one tick against the obstacles and the level floor.
pub fn resolve_movement(
    position: Vec2,
    movable: &Movable,
    collider: &Collidable,
    obstacles: &Vec<Obstacle>,
    level: &LevelFloor,
    delta_ms: u64,
) -> (r: Vec2)
    requires
        position.within(COORD_LIMIT as int),
        movable.wf(),
        collider.wf(),
        forall|i: int| 0 <= i < obstacles@.len() ==> (#[trigger] obstacles@[i]).wf(),
        level.wf(),
        delta_ms <= MAX_DELTA_MS,
    ensures
        r == resolved_position(position, *movable, *collider, obstacles@, *level, delta_ms),
        r.within(COORD_LIMIT as int),
{
    let d = tick_displacement(movable, delta_ms);
    let candidate = Vec2 { x: position.x + d.x, y: position.y + d.y };
    let ghost cand_spec = plus(position, d);
    assert(candidate == cand_spec);
    let mut mv = d;
    let mut i: usize = 0;
    while i < obstacles.len()
        invariant
            0 <= i <= obstacles@.len(),
            forall|k: int| 0 <= k < obstacles@.len() ==> (#[trigger] obstacles@[k]).wf(),
            candidate.within(DIRECTION_LIMIT as int),
            collider.wf(),
            mv == clipped_move(candidate, collider.size, obstacles@.subrange(0, i as int), d),
        decreases obstacles.len() - i,
    {
        let o = obstacles[i];
        let c = collide(candidate, collider.size, o.position, o.collider.size);
        mv = clip_exec(mv, c);
        proof {
            let pre = obstacles@.subrange(0, i as int + 1);
            assert(pre.drop_last() =~= obstacles@.subrange(0, i as int));
            assert(pre.last() == o);
        }
        i = i + 1;
    }
    assert(obstacles@.subrange(0, obstacles@.len() as int) =~= obstacles@);
    proof {
        lemma_clipped_components(candidate, collider.size, obstacles@, d);
    }
    let inside = collide(candidate, collider.size, level.position, level.size);
    match inside {
        Some(Collision::Inside) => Vec2 { x: position.x + mv.x, y: position.y + mv.y },
        _ => position,
    }
}

/// With no obstacles and a candidate position inside the level floor, the
/// entity moves by exactly `normalize_or_zero(direction) * velocity * dt` on
/// both axes.
pub proof fn lemma_free_movement(
    position: Vec2,
    m: Movable,
    collider: Collidable,
    level: LevelFloor,
    delta_ms: u64,
)
    requires
        collision_of(plus(position, displacement(m, delta_ms)), collider.size, level.position, level.size)
            == Some(Collision::Inside),
    ensures
        resolved_position(position, m, collider, Seq::empty(), level, delta_ms)
            == plus(position, displacement(m, delta_ms)),
{
}

/// A candidate position that is not inside the level floor rejects the whole
/// move: the entity stays where it was, whatever the obstacles.
pub proof fn lemma_leaving_level_rejected(
    position: Vec2,
    m: Movable,
    collider: Collidable,
    obstacles: Seq<Obstacle>,
    level: LevelFloor,
    delta_ms: u64,
)
    requires
        collision_of(plus(position, displacement(m, delta_ms)), collider.size, level.position, level.size)
            != Some(Collision::Inside),
    ensures
        resolved_position(position, m, collider, obstacles, level, delta_ms) == position,
{
}

/// An obstacle met from below stops the upward part of the move and keeps the
/// horizontal part: the entity slides along it.
pub proof fn lemma_blocked_from_below_slides(
    position: Vec2,
    m: Movable,
    collider: Collidable,
    obstacle: Obstacle,
    level: LevelFloor,
    delta_ms: u64,
)
    requires
        displacement(m, delta_ms).y >= 0,
        collision_of(plus(position, displacement(m, delta_ms)), collider.size, obstacle.position, obstacle.collider.size)
            == Some(Collision::Bottom),
        collision_of(plus(position, displacement(m, delta_ms)), collider.size, level.position, level.size)
            == Some(Collision::Inside),
    ensures
        resolved_position(position, m, collider, seq![obstacle], level, delta_ms)
            == plus(position, Vec2 { x: displacement(m, delta_ms).x, y: 0 }),
{
    let s = seq![obstacle];
    assert(s.drop_last() =~= Seq::<Obstacle>::empty());
    assert(s.last() == obstacle);
    let d = displacement(m, delta_ms);
    let candidate = plus(position, d);
    assert(clipped_move(candidate, collider.size, s.drop_last(), d) == d);
}

/// `trunc_div` of a bounded numerator keeps its sign and its bound.
proof fn lemma_trunc_div_bounds(a: int, b: int, bound: int)
    requires
        b > 0,
        abs(a) <= bound * b,
    ensures
        a >= 0 ==> 0 <= trunc_div(a, b) <= bound,
        a <= 0 ==> -bound <= trunc_div(a, b) <= 0,
{
    if a >= 0 {
        assert(0 <= a / b <= bound) by (nonlinear_arith)
            requires a >= 0, b > 0, a <= bound * b;
    } else {
        assert(0 <= (-a) / b <= bound) by (nonlinear_arith)
            requires -a > 0, b > 0, -a <= bound * b;
    }
}

/// Each component of a normalized heading lies within `NORMAL_SCALE` and has
/// the sign of the heading's component, or is zero.
pub proof fn lemma_normalized_bounds(d: Vec2)
    requires
        d.within(DIRECTION_LIMIT as int),
    ensures
        d.normalized().within(NORMAL_SCALE as int),
        d.x >= 0 ==> d.normalized().x >= 0,
        d.x <= 0 ==> d.normalized().x <= 0,
        d.y >= 0 ==> d.normalized().y >= 0,
        d.y <= 0 ==> d.normalized().y <= 0,
{
    if !d.is_zero() {
        let ax = abs(d.x as int);
        let ay = abs(d.y as int);
        let sx = ax * NORMAL_SCALE;
        let sy = ay * NORMAL_SCALE;
        let n = NORMAL_SCALE * NORMAL_SCALE * d.len_sq();
        assert(d.x * d.x + d.y * d.y >= 0) by (nonlinear_arith);
        assert(sx * sx + sy * sy == NORMAL_SCALE * NORMAL_SCALE * (d.x * d.x + d.y * d.y)) by (nonlinear_arith)
            requires sx == abs(d.x as int) * NORMAL_SCALE, sy == abs(d.y as int) * NORMAL_SCALE;
        assert(n >= 0) by (nonlinear_arith)
            requires n == NORMAL_SCALE * NORMAL_SCALE * d.len_sq(), d.len_sq() >= 0;
        let len = d.scaled_len();
        crate::geometry_lemmas::lemma_floor_sqrt_bounds(n as nat);
        crate::geometry_lemmas::lemma_abs_le_floor_sqrt(sx, sy, n, len);
        crate::geometry_lemmas::lemma_abs_le_floor_sqrt(sy, sx, n, len);
        assert(sx > 0 || sy > 0) by (nonlinear_arith)
            requires sx == abs(d.x as int) * NORMAL_SCALE, sy == abs(d.y as int) * NORMAL_SCALE, !(d.x == 0 && d.y == 0);
        assert(len > 0);
        assert(abs(d.x * NORMAL_SCALE * NORMAL_SCALE) <= NORMAL_SCALE * len) by (nonlinear_arith)
            requires sx == abs(d.x as int) * NORMAL_SCALE, sx <= len;
        assert(abs(d.y * NORMAL_SCALE * NORMAL_SCALE) <= NORMAL_SCALE * len) by (nonlinear_arith)
            requires sy == abs(d.y as int) * NORMAL_SCALE, sy <= len;
        assert(d.x >= 0 ==> d.x * NORMAL_SCALE * NORMAL_SCALE >= 0) by (nonlinear_arith);
        assert(d.x <= 0 ==> d.x * NORMAL_SCALE * NORMAL_SCALE <= 0) by (nonlinear_arith);
        assert(d.y >= 0 ==> d.y * NORMAL_SCALE * NORMAL_SCALE >= 0) by (nonlinear_arith);
        assert(d.y <= 0 ==> d.y * NORMAL_SCALE * NORMAL_SCALE <= 0) by (nonlinear_arith);
        lemma_trunc_div_bounds(d.x * NORMAL_SCALE * NORMAL_SCALE, len, NORMAL_SCALE as int);
        lemma_trunc_div_bounds(d.y * NORMAL_SCALE * NORMAL_SCALE, len, NORMAL_SCALE as int);
    }
}

/// The displacement of a tick never points against the heading: each of its
/// components has the sign of the heading's component, or is zero. An enemy
/// heading for a player to its right never moves left.
pub proof fn lemma_displacement_follows_heading(m: Movable, delta_ms: u64)
    requires
        m.wf(),
        delta_ms <= MAX_DELTA_MS,
    ensures
        m.direction.x >= 0 ==> displacement(m, delta_ms).x >= 0,
        m.direction.x <= 0 ==> displacement(m, delta_ms).x <= 0,
        m.direction.y >= 0 ==> displacement(m, delta_ms).y >= 0,
        m.direction.y <= 0 ==> displacement(m, delta_ms).y <= 0,
{
    let n = m.direction.normalized();
    lemma_normalized_bounds(m.direction);
    let v = m.velocity as int;
    let t = delta_ms as int;
    lemma_step_bounds(n.x as int, v, t);
    lemma_step_bounds(n.y as int, v, t);
}

/// A step component keeps the sign of `n` and stays within `COORD_LIMIT`.
proof fn lemma_step_bounds(n: int, v: int, t: int)
    requires
        abs(n) <= NORMAL_SCALE,
        0 <= v <= MAX_VELOCITY,
        0 <= t <= MAX_DELTA_MS,
    ensures
        n >= 0 ==> 0 <= step_component(n, v, t) <= COORD_LIMIT,
        n <= 0 ==> -COORD_LIMIT <= step_component(n, v, t) <= 0,
{
    assert(abs(n * v * t) <= COORD_LIMIT) by (nonlinear_arith)
        requires abs(n) <= 65536, 0 <= v <= 10_000, 0 <= t <= 10_000;
    assert(n >= 0 ==> n * v * t >= 0) by (nonlinear_arith)
        requires v >= 0, t >= 0;
    assert(n <= 0 ==> n * v * t <= 0) by (nonlinear_arith)
        requires v >= 0, t >= 0;
}

} // verus!
