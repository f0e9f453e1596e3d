use vstd::prelude::*;

use crate::enemy::{heading_toward, steer_towards};
use crate::geometry::{Vec2, DIRECTION_LIMIT};
use crate::health::{bar_width, health_bar_width, Health};
use crate::movement::{resolve_movement, resolved_position, LevelFloor, Obstacle, MAX_DELTA_MS};
use crate::geometry::{collision_of, Collision};
use crate::movement::{displacement, plus};
use crate::sprite::{depth_for, layer_depth, FacingDirection};
use crate::world::{arena_wf, Entity, World};

verus! {

/// A system that needs a single entity of some kind found none, or several,
/// and skipped this tick.
#[derive(Clone, Copy, Debug, PartialEq, Eq, Structural)]
pub enum SystemError {
    /// There is not exactly one level floor.
    LevelNotUnique,
    /// There is not exactly one player-controlled entity.
    PlayerNotUnique,
}

/// Static obstacles: entities with a collider, no movement intent, that are
/// not the level floor, in order.
pub open spec fn obstacles_of(s: Seq<Entity>) -> Seq<Obstacle>
    decreases s.len(),
{
    if s.len() == 0 {
        Seq::empty()
    } else {
        let rest = obstacles_of(s.drop_last());
        let e = s.last();
        if e.collider is Some && e.movable is None && e.level_floor is None {
            rest.push(Obstacle { position: e.position, collider: e.collider->0 })
        } else {
            rest
        }
    }
}

/// Level floors: entities with a floor size and no collider, in order.
pub open spec fn levels_of(s: Seq<Entity>) -> Seq<LevelFloor>
    decreases s.len(),
{
    if s.len() == 0 {
        Seq::empty()
    } else {
        let rest = levels_of(s.drop_last());
        let e = s.last();
        if e.level_floor is Some && e.collider is None {
            rest.push(LevelFloor { position: e.position, size: e.level_floor->0 })
        } else {
            rest
        }
    }
}

/// The player as steering sees it: player-controlled, movable, collidable,
/// and not an enemy.
pub open spec fn is_player(e: Entity) -> bool {
    e.tags.player_controlled && e.movable is Some && e.collider is Some && !e.tags.enemy
}

/// Positions of the players, in order.
pub open spec fn player_positions(s: Seq<Entity>) -> Seq<Vec2>
    decreases s.len(),
{
    if s.len() == 0 {
        Seq::empty()
    } else {
        let rest = player_positions(s.drop_last());
        if is_player(s.last()) { rest.push(s.last().position) } else { rest }
    }
}

/// Health of the player-controlled entities that have one, in order.
pub open spec fn player_healths(s: Seq<Entity>) -> Seq<Health>
    decreases s.len(),
{
    if s.len() == 0 {
        Seq::empty()
    } else {
        let rest = player_healths(s.drop_last());
        let e = s.last();
        if e.tags.player_controlled && e.health is Some { rest.push(e.health->0) } else { rest }
    }
}

/// An entity after the movement step: a movable, collidable entity takes its
/// resolved position; any other is unchanged.
pub open spec fn moved(e: Entity, obstacles: Seq<Obstacle>, level: LevelFloor, delta_ms: u64) -> Entity {
    match (e.movable, e.collider) {
        (Some(m), Some(c)) => Entity {
            position: resolved_position(e.position, m, c, obstacles, level, delta_ms),
            ..e
        },
        _ => e,
    }
}

/// An entity after steering: a regular (not irregular) movable, collidable
/// enemy heads for the player; any other is unchanged.
pub open spec fn steered(e: Entity, player: Vec2) -> Entity {
    if e.tags.enemy && !e.tags.irregular_enemy && e.movable is Some && e.collider is Some {
        Entity {
            movable: Some(crate::movement::Movable { direction: heading_toward(e.position, player), ..e.movable->0 }),
            ..e
        }
    } else {
        e
    }
}

/// An entity after the animation step: an animated, movable entity advances
/// its animation with its heading; any other is unchanged.
pub open spec fn animated_entity(e: Entity, delta_ms: u64) -> Entity {
    match (e.animation, e.movable) {
        (Some(a), Some(m)) => Entity { animation: Some(a.stepped(m.direction, delta_ms)), ..e },
        _ => e,
    }
}

/// An entity after layering: a layered, movable entity takes the depth of
/// its height; any other is unchanged.
pub open spec fn layered_entity(e: Entity) -> Entity {
    if e.tags.layered && e.movable is Some {
        Entity { depth: depth_for(e.position.y as int) as i64, ..e }
    } else {
        e
    }
}

/// An entity after the health indicator update: a health bar takes the width
/// of the player's health `h`; any other is unchanged.
pub open spec fn indicated(e: Entity, h: Health) -> Entity {
    if e.tags.player_health_indicator {
        Entity { bar_width: bar_width(h), ..e }
    } else {
        e
    }
}

/// Keys held or released during a tick, as the input collaborator reports
/// them.
#[derive(Clone, Copy, Debug, PartialEq, Eq, Structural)]
pub struct KeyInput {
    /// Move left (A).
    pub left: bool,
    /// Move down (S).
    pub down: bool,
    /// Move up (W).
    pub up: bool,
    /// Move right (D).
    pub right: bool,
    /// Take one point of damage (U).
    pub hurt: bool,
    /// A movement key was released this tick.
    pub movement_released: bool,
}

/// Heading nudge of the left key; the others follow.
pub const NUDGE_LEFT: i64 = -3;
pub const NUDGE_DOWN: i64 = -5;
pub const NUDGE_UP: i64 = 5;
pub const NUDGE_RIGHT: i64 = 5;

/// `a + delta`, held within `[-DIRECTION_LIMIT, DIRECTION_LIMIT]`.
pub open spec fn nudged(a: int, delta: int) -> int {
    if a + delta > DIRECTION_LIMIT {
        DIRECTION_LIMIT as int
    } else if a + delta < -DIRECTION_LIMIT {
        -DIRECTION_LIMIT
    } else {
        a + delta
    }
}

/// The heading after the keys of a tick: each held key nudges it, and the
/// release of a movement key resets it to zero.
pub open spec fn heading_after_keys(d: Vec2, k: KeyInput) -> Vec2 {
    if k.movement_released {
        Vec2 { x: 0, y: 0 }
    } else {
        let x1 = if k.left { nudged(d.x as int, NUDGE_LEFT as int) } else { d.x as int };
        let y1 = if k.down { nudged(d.y as int, NUDGE_DOWN as int) } else { d.y as int };
        let y2 = if k.up { nudged(y1, NUDGE_UP as int) } else { y1 };
        let x2 = if k.right { nudged(x1, NUDGE_RIGHT as int) } else { x1 };
        Vec2 { x: x2 as i64, y: y2 as i64 }
    }
}

/// A player-controlled entity with movement intent and health after the
/// keys of a tick; any other is unchanged.
pub open spec fn controlled(e: Entity, k: KeyInput) -> Entity {
    if e.tags.player_controlled && e.movable is Some && e.health is Some {
        let h = e.health->0;
        Entity {
            movable: Some(crate::movement::Movable { direction: heading_after_keys(e.movable->0.direction, k), ..e.movable->0 }),
            health: Some(if k.hurt { Health { current: if h.current >= 1 { (h.current - 1) as u64 } else { 0 }, ..h } } else { h }),
            ..e
        }
    } else {
        e
    }
}

/// The components that the systems gather from well-formed entities hold
/// their own invariants: obstacles, level floors, player positions and
/// player health.
proof fn lemma_gathered_wf(s: Seq<Entity>)
    requires
        forall|i: int| 0 <= i < s.len() ==> (#[trigger] s[i]).wf(),
    ensures
        forall|i: int| 0 <= i < obstacles_of(s).len() ==> (#[trigger] obstacles_of(s)[i]).wf(),
        forall|i: int| 0 <= i < levels_of(s).len() ==> (#[trigger] levels_of(s)[i]).wf(),
        forall|i: int| 0 <= i < player_positions(s).len() ==> (#[trigger] player_positions(s)[i]).within(
            crate::geometry::COORD_LIMIT as int,
        ),
        forall|i: int| 0 <= i < player_healths(s).len() ==> (#[trigger] player_healths(s)[i]).wf(),
    decreases s.len(),
{
    if s.len() > 0 {
        assert(s.last() == s[s.len() - 1]);
        let d = s.drop_last();
        assert forall|i: int| 0 <= i < d.len() implies (#[trigger] d[i]).wf() by {
            assert(d[i] == s[i]);
        }
        lemma_gathered_wf(d);
        assert forall|i: int| 0 <= i < obstacles_of(s).len() implies (#[trigger] obstacles_of(s)[i]).wf() by {
            if i < obstacles_of(d).len() {
                assert(obstacles_of(s)[i] == obstacles_of(d)[i]);
            }
        }
        assert forall|i: int| 0 <= i < levels_of(s).len() implies (#[trigger] levels_of(s)[i]).wf() by {
            if i < levels_of(d).len() {
                assert(levels_of(s)[i] == levels_of(d)[i]);
            }
        }
        assert forall|i: int| 0 <= i < player_positions(s).len() implies (#[trigger] player_positions(s)[i]).within(
            crate::geometry::COORD_LIMIT as int,
        ) by {
            if i < player_positions(d).len() {
                assert(player_positions(s)[i] == player_positions(d)[i]);
            }
        }
        assert forall|i: int| 0 <= i < player_healths(s).len() implies (#[trigger] player_healths(s)[i]).wf() by {
            if i < player_healths(d).len() {
                assert(player_healths(s)[i] == player_healths(d)[i]);
            }
        }
    }
}

/// Replacing entities by ones with the same id, parent and owners that hold
/// their own invariant keeps the arena invariant.
proof fn lemma_same_shape_wf(s: Seq<Entity>, t: Seq<Entity>, next_id: u64)
    requires
        arena_wf(s, next_id),
        t.len() == s.len(),
        forall|i: int| 0 <= i < t.len() ==> (#[trigger] t[i]).wf() && t[i].id == s[i].id
            && t[i].parent == s[i].parent && t[i].owners == s[i].owners,
    ensures
        arena_wf(t, next_id),
{
    assert forall|i: int, j: int|
        0 <= i < t.len() && 0 <= j < t.len() && (#[trigger] t[i]).parent == Some((#[trigger] t[j]).id)
            implies t[j].owners.subset_of(t[i].owners) by {
        assert(s[i].parent == Some(s[j].id));
    }
    assert forall|i: int, j: int| 0 <= i < j < t.len() implies (#[trigger] t[i]).id < (#[trigger] t[j]).id by {
        assert(s[i].id < s[j].id);
    }
    assert forall|i: int| 0 <= i < t.len() && (#[trigger] t[i]).parent is Some implies t[i].parent->0 < t[i].id by {
        assert(s[i].parent is Some);
    }
    assert forall|i: int| 0 <= i < t.len() implies (#[trigger] t[i]).id < next_id by {
        assert(s[i].id < next_id);
    }
}

/// The static obstacles of the world.
fn collect_obstacles(entities: &Vec<Entity>) -> (r: Vec<Obstacle>)
    ensures
        r@ == obstacles_of(entities@),
{
    let mut r: Vec<Obstacle> = Vec::new();
    let mut i: usize = 0;
    while i < entities.len()
        invariant
            0 <= i <= entities@.len(),
            r@ == obstacles_of(entities@.subrange(0, i as int)),
        decreases entities@.len() - i,
    {
        proof {
            assert(entities@.subrange(0, i as int + 1).drop_last() =~= entities@.subrange(0, i as int));
        }
        let e = entities[i];
        match e.collider {
            Some(c) => {
                if e.movable.is_none() && e.level_floor.is_none() {
                    r.push(Obstacle { position: e.position, collider: c });
                }
            },
            None => {},
        }
        i = i + 1;
    }
    assert(entities@.subrange(0, i as int) =~= entities@);
    r
}

/// The single entities the systems look up, each when there is exactly one:
/// the level floor, the player's position and the player's health.
fn singletons(entities: &Vec<Entity>) -> (r: (Option<LevelFloor>, Option<Vec2>, Option<Health>))
    ensures
        levels_of(entities@).len() == 1 ==> r.0 == Some(levels_of(entities@)[0]),
        levels_of(entities@).len() != 1 ==> r.0 is None,
        player_positions(entities@).len() == 1 ==> r.1 == Some(player_positions(entities@)[0]),
        player_positions(entities@).len() != 1 ==> r.1 is None,
        player_healths(entities@).len() == 1 ==> r.2 == Some(player_healths(entities@)[0]),
        player_healths(entities@).len() != 1 ==> r.2 is None,
{
    let mut level: Option<LevelFloor> = None;
    let mut player: Option<Vec2> = None;
    let mut health: Option<Health> = None;
    let mut levels: usize = 0;
    let mut players: usize = 0;
    let mut healths: usize = 0;
    let mut i: usize = 0;
    while i < entities.len()
        invariant
            0 <= i <= entities@.len(),
            levels <= i && players <= i && healths <= i,
            levels == levels_of(entities@.subrange(0, i as int)).len(),
            levels >= 1 ==> level == Some(levels_of(entities@.subrange(0, i as int))[0]),
            players == player_positions(entities@.subrange(0, i as int)).len(),
            players >= 1 ==> player == Some(player_positions(entities@.subrange(0, i as int))[0]),
            healths == player_healths(entities@.subrange(0, i as int)).len(),
            healths >= 1 ==> health == Some(player_healths(entities@.subrange(0, i as int))[0]),
        decreases entities@.len() - i,
    {
        proof {
            assert(entities@.subrange(0, i as int + 1).drop_last() =~= entities@.subrange(0, i as int));
        }
        let e = entities[i];
        if e.collider.is_none() {
            match e.level_floor {
                Some(size) => {
                    if levels == 0 {
                        level = Some(LevelFloor { position: e.position, size });
                    }
                    levels = levels + 1;
                },
                None => {},
            }
        }
        if e.tags.player_controlled && e.movable.is_some() && e.collider.is_some() && !e.tags.enemy {
            if players == 0 {
                player = Some(e.position);
            }
            players = players + 1;
        }
        if e.tags.player_controlled {
            match e.health {
                Some(h) => {
                    if healths == 0 {
                        health = Some(h);
                    }
                    healths = healths + 1;
                },
                None => {},
            }
        }
        i = i + 1;
    }
    assert(entities@.subrange(0, i as int) =~= entities@);
    (
        if levels == 1 { level } else { None },
        if players == 1 { player } else { None },
        if healths == 1 { health } else { None },
    )
}

/// `nudged` of the executable input step.
fn nudge(a: i64, delta: i64) -> (r: i64)
    requires
        -DIRECTION_LIMIT <= a <= DIRECTION_LIMIT,
        -10 <= delta <= 10,
    ensures
        r == nudged(a as int, delta as int),
        -DIRECTION_LIMIT <= r <= DIRECTION_LIMIT,
{
    let b = a + delta;
    if b > DIRECTION_LIMIT {
        DIRECTION_LIMIT
    } else if b < -DIRECTION_LIMIT {
        -DIRECTION_LIMIT
    } else {
        b
    }
}

/// The heading after the keys of a tick.
pub fn apply_keys(d: Vec2, keys: &KeyInput) -> (r: Vec2)
    requires
        d.within(DIRECTION_LIMIT as int),
    ensures
        r == heading_after_keys(d, *keys),
        r.within(DIRECTION_LIMIT as int),
{
    if keys.movement_released {
        return Vec2 { x: 0, y: 0 };
    }
    let mut x = d.x;
    let mut y = d.y;
    if keys.left {
        x = nudge(x, NUDGE_LEFT);
    }
    if keys.down {
        y = nudge(y, NUDGE_DOWN);
    }
    if keys.up {
        y = nudge(y, NUDGE_UP);
    }
    if keys.right {
        x = nudge(x, NUDGE_RIGHT);
    }
    Vec2 { x, y }
}

impl World {
    /// Moves every movable, collidable entity for one tick against the static
    /// obstacles and the level floor. Without exactly one level floor the
    /// tick is skipped and nothing moves.
    pub fn entity_movement_system(&mut self, delta_ms: u64) -> (r: Result<(), SystemError>)
        requires
            old(self).wf(),
            delta_ms <= MAX_DELTA_MS,
        ensures
            final(self).wf(),
            final(self).next_id == old(self).next_id,
            levels_of(old(self).entities@).len() != 1 ==> r == Err::<(), SystemError>(SystemError::LevelNotUnique)
                && final(self).entities@ == old(self).entities@,
            levels_of(old(self).entities@).len() == 1 ==> r == Ok::<(), SystemError>(()) && final(self).entities@.len()
                == old(self).entities@.len() && forall|i: int| 0 <= i < old(self).entities@.len() ==>
                    #[trigger] final(self).entities@[i] == moved(
                        old(self).entities@[i],
                        obstacles_of(old(self).entities@),
                        levels_of(old(self).entities@)[0],
                        delta_ms,
                    ),
    {
        let ghost s = self.entities@;
        let ghost next_id = self.next_id;
        let level = match singletons(&self.entities).0 {
            None => {
                return Err(SystemError::LevelNotUnique);
            },
            Some(l) => l,
        };
        let obstacles = collect_obstacles(&self.entities);
        proof {
            lemma_gathered_wf(s);
        }
        let mut i: usize = 0;
        while i < self.entities.len()
            invariant
                0 <= i <= s.len(),
                self.entities@.len() == s.len(),
                arena_wf(s, self.next_id),
                self.next_id == next_id,
                level.wf(),
                delta_ms <= MAX_DELTA_MS,
                forall|k: int| 0 <= k < obstacles@.len() ==> (#[trigger] obstacles@[k]).wf(),
                forall|k: int| 0 <= k < i ==> (#[trigger] self.entities@[k]) == moved(s[k], obstacles@, level, delta_ms)
                    && self.entities@[k].wf(),
                forall|k: int| i <= k < s.len() ==> (#[trigger] self.entities@[k]) == s[k],
            decreases s.len() - i,
        {
            let e = self.entities[i];
            assert(e.wf());
            match e.movable {
                Some(m) => match e.collider {
                    Some(c) => {
                        let p = resolve_movement(e.position, &m, &c, &obstacles, &level, delta_ms);
                        self.entities[i] = Entity { position: p, ..e };
                    },
                    None => {},
                },
                None => {},
            }
            i = i + 1;
        }
        proof {
            lemma_same_shape_wf(s, self.entities@, self.next_id);
        }
        Ok(())
    }

    /// Points every regular enemy at the player: its heading becomes the
    /// vector from the enemy to the player, not normalized. Irregular enemies
    /// are left alone. Without exactly one player the tick is skipped.
    pub fn regular_enemy_movement(&mut self) -> (r: Result<(), SystemError>)
        requires
            old(self).wf(),
        ensures
            final(self).wf(),
            final(self).next_id == old(self).next_id,
            player_positions(old(self).entities@).len() != 1 ==> r == Err::<(), SystemError>(
                SystemError::PlayerNotUnique,
            ) && final(self).entities@ == old(self).entities@,
            player_positions(old(self).entities@).len() == 1 ==> r == Ok::<(), SystemError>(()) && final(self).entities@.len()
                == old(self).entities@.len() && forall|i: int| 0 <= i < old(self).entities@.len() ==>
                    #[trigger] final(self).entities@[i] == steered(
                        old(self).entities@[i],
                        player_positions(old(self).entities@)[0],
                    ),
    {
        let ghost s = self.entities@;
        let ghost next_id = self.next_id;
        let player = match singletons(&self.entities).1 {
            None => {
                return Err(SystemError::PlayerNotUnique);
            },
            Some(p) => p,
        };
        proof {
            lemma_gathered_wf(s);
        }
        let mut i: usize = 0;
        while i < self.entities.len()
            invariant
                0 <= i <= s.len(),
                self.entities@.len() == s.len(),
                arena_wf(s, self.next_id),
                self.next_id == next_id,
                player.within(crate::geometry::COORD_LIMIT as int),
                forall|k: int| 0 <= k < i ==> (#[trigger] self.entities@[k]) == steered(s[k], player)
                    && self.entities@[k].wf(),
                forall|k: int| i <= k < s.len() ==> (#[trigger] self.entities@[k]) == s[k],
            decreases s.len() - i,
        {
            let e = self.entities[i];
            assert(e.wf());
            if e.tags.enemy && !e.tags.irregular_enemy && e.collider.is_some() {
                match e.movable {
                    Some(m) => {
                        let d = steer_towards(e.position, player);
                        self.entities[i] = Entity {
                            movable: Some(crate::movement::Movable { direction: d, ..m }),
                            ..e
                        };
                    },
                    None => {},
                }
            }
            i = i + 1;
        }
        proof {
            lemma_same_shape_wf(s, self.entities@, self.next_id);
        }
        Ok(())
    }

    /// Advances the animation of every animated, movable entity by one tick.
    pub fn animate_sprite(&mut self, delta_ms: u64)
        requires
            old(self).wf(),
            delta_ms <= MAX_DELTA_MS,
        ensures
            final(self).wf(),
            final(self).next_id == old(self).next_id,
            final(self).entities@.len() == old(self).entities@.len(),
            forall|i: int| 0 <= i < old(self).entities@.len() ==>
                #[trigger] final(self).entities@[i] == animated_entity(old(self).entities@[i], delta_ms),
    {
        let ghost s = self.entities@;
        let ghost next_id = self.next_id;
        let mut i: usize = 0;
        while i < self.entities.len()
            invariant
                0 <= i <= s.len(),
                self.entities@.len() == s.len(),
                arena_wf(s, self.next_id),
                self.next_id == next_id,
                delta_ms <= MAX_DELTA_MS,
                forall|k: int| 0 <= k < i ==> (#[trigger] self.entities@[k]) == animated_entity(s[k], delta_ms)
                    && self.entities@[k].wf(),
                forall|k: int| i <= k < s.len() ==> (#[trigger] self.entities@[k]) == s[k],
            decreases s.len() - i,
        {
            let e = self.entities[i];
            assert(e.wf());
            match e.animation {
                Some(a) => match e.movable {
                    Some(m) => {
                        let mut a2 = a;
                        a2.animate(m.direction, delta_ms);
                        self.entities[i] = Entity { animation: Some(a2), ..e };
                    },
                    None => {},
                },
                None => {},
            }
            i = i + 1;
        }
        proof {
            lemma_same_shape_wf(s, self.entities@, self.next_id);
        }
    }

    /// Recomputes the draw depth of every layered, movable entity from its
    /// height.
    pub fn layering_system(&mut self)
        requires
            old(self).wf(),
        ensures
            final(self).wf(),
            final(self).next_id == old(self).next_id,
            final(self).entities@.len() == old(self).entities@.len(),
            forall|i: int| 0 <= i < old(self).entities@.len() ==>
                #[trigger] final(self).entities@[i] == layered_entity(old(self).entities@[i]),
    {
        let ghost s = self.entities@;
        let ghost next_id = self.next_id;
        let mut i: usize = 0;
        while i < self.entities.len()
            invariant
                0 <= i <= s.len(),
                self.entities@.len() == s.len(),
                arena_wf(s, self.next_id),
                self.next_id == next_id,
                forall|k: int| 0 <= k < i ==> (#[trigger] self.entities@[k]) == layered_entity(s[k])
                    && self.entities@[k].wf(),
                forall|k: int| i <= k < s.len() ==> (#[trigger] self.entities@[k]) == s[k],
            decreases s.len() - i,
        {
            let e = self.entities[i];
            assert(e.wf());
            if e.tags.layered && e.movable.is_some() {
                let depth = layer_depth(e.position.y);
                self.entities[i] = Entity { depth, ..e };
            }
            i = i + 1;
        }
        proof {
            lemma_same_shape_wf(s, self.entities@, self.next_id);
        }
    }

    /// Sets the width of every health bar from the player's health. Without
    /// exactly one player-controlled entity with health the tick is skipped.
    pub fn player_health_indicator_update(&mut self) -> (r: Result<(), SystemError>)
        requires
            old(self).wf(),
        ensures
            final(self).wf(),
            final(self).next_id == old(self).next_id,
            player_healths(old(self).entities@).len() != 1 ==> r == Err::<(), SystemError>(
                SystemError::PlayerNotUnique,
            ) && final(self).entities@ == old(self).entities@,
            player_healths(old(self).entities@).len() == 1 ==> r == Ok::<(), SystemError>(()) && final(self).entities@.len()
                == old(self).entities@.len() && forall|i: int| 0 <= i < old(self).entities@.len() ==>
                    #[trigger] final(self).entities@[i] == indicated(
                        old(self).entities@[i],
                        player_healths(old(self).entities@)[0],
                    ),
    {
        let ghost s = self.entities@;
        let ghost next_id = self.next_id;
        let health = match singletons(&self.entities).2 {
            None => {
                return Err(SystemError::PlayerNotUnique);
            },
            Some(h) => h,
        };
        proof {
            lemma_gathered_wf(s);
        }
        let width = health_bar_width(&health);
        let mut i: usize = 0;
        while i < self.entities.len()
            invariant
                0 <= i <= s.len(),
                self.entities@.len() == s.len(),
                arena_wf(s, self.next_id),
                self.next_id == next_id,
                width == bar_width(health),
                forall|k: int| 0 <= k < i ==> (#[trigger] self.entities@[k]) == indicated(s[k], health)
                    && self.entities@[k].wf(),
                forall|k: int| i <= k < s.len() ==> (#[trigger] self.entities@[k]) == s[k],
            decreases s.len() - i,
        {
            let e = self.entities[i];
            assert(e.wf());
            if e.tags.player_health_indicator {
                self.entities[i] = Entity { bar_width: width, ..e };
            }
            i = i + 1;
        }
        proof {
            lemma_same_shape_wf(s, self.entities@, self.next_id);
        }
        Ok(())
    }

    /// Applies the keys of a tick to every player-controlled entity with
    /// movement intent and health: held keys nudge the heading, releasing a
    /// movement key stops it, and the hurt key takes one point of health.
    pub fn keyboard_input_system(&mut self, keys: &KeyInput)
        requires
            old(self).wf(),
        ensures
            final(self).wf(),
            final(self).next_id == old(self).next_id,
            final(self).entities@.len() == old(self).entities@.len(),
            forall|i: int| 0 <= i < old(self).entities@.len() ==>
                #[trigger] final(self).entities@[i] == controlled(old(self).entities@[i], *keys),
    {
        let ghost s = self.entities@;
        let ghost next_id = self.next_id;
        let mut i: usize = 0;
        while i < self.entities.len()
            invariant
                0 <= i <= s.len(),
                self.entities@.len() == s.len(),
                arena_wf(s, self.next_id),
                self.next_id == next_id,
                forall|k: int| 0 <= k < i ==> (#[trigger] self.entities@[k]) == controlled(s[k], *keys)
                    && self.entities@[k].wf(),
                forall|k: int| i <= k < s.len() ==> (#[trigger] self.entities@[k]) == s[k],
            decreases s.len() - i,
        {
            let e = self.entities[i];
            assert(e.wf());
            if e.tags.player_controlled {
                match e.movable {
                    Some(m) => match e.health {
                        Some(h) => {
                            let d = apply_keys(m.direction, keys);
                            let mut h2 = h;
                            if keys.hurt {
                                h2.take_damage(1);
                            }
                            self.entities[i] = Entity {
                                movable: Some(crate::movement::Movable { direction: d, ..m }),
                                health: Some(h2),
                                ..e
                            };
                        },
                        None => {},
                    },
                    None => {},
                }
            }
            i = i + 1;
        }
        proof {
            lemma_same_shape_wf(s, self.entities@, self.next_id);
        }
    }
}

/// The movement step leaves an entity in place when its candidate position is
/// not inside the level floor, whatever the obstacles.
pub proof fn lemma_moved_stays_outside_level(e: Entity, obstacles: Seq<Obstacle>, level: LevelFloor, delta_ms: u64)
    requires
        e.movable is Some,
        e.collider is Some,
        collision_of(
            plus(e.position, displacement(e.movable->0, delta_ms)),
            e.collider->0.size,
            level.position,
            level.size,
        ) != Some(Collision::Inside),
    ensures
        moved(e, obstacles, level, delta_ms) == e,
{
}

/// When its timer fires, an entity at rest shows frame 0, whatever frame it
/// showed, and keeps its facing and mirroring.
pub proof fn lemma_animated_at_rest(e: Entity, delta_ms: u64)
    requires
        e.animation is Some,
        e.movable matches Some(m) && m.direction.is_zero(),
        e.animation->0.timer.fires(delta_ms),
    ensures
        animated_entity(e, delta_ms).animation->0.sprite.index == 0,
        animated_entity(e, delta_ms).animation->0.facing == e.animation->0.facing,
        animated_entity(e, delta_ms).animation->0.sprite.flip_x == e.animation->0.sprite.flip_x,
{
}

/// When its timer fires, a moving entity advances exactly one frame, modulo
/// the frame count; when it does not fire, frame, facing and mirroring stay.
pub proof fn lemma_animated_moving(e: Entity, delta_ms: u64)
    requires
        e.animation is Some,
        e.movable matches Some(m) && !m.direction.is_zero(),
    ensures
        e.animation->0.timer.fires(delta_ms) ==> animated_entity(e, delta_ms).animation->0.sprite.index == ((
        e.animation->0.sprite.index + 1) % (e.animation->0.frame_count as int)) as u64,
        !e.animation->0.timer.fires(delta_ms) ==> animated_entity(e, delta_ms).animation->0.sprite
            == e.animation->0.sprite && animated_entity(e, delta_ms).animation->0.facing == e.animation->0.facing,
{
}

/// When its timer fires, an entity heading right faces east unmirrored, and
/// one heading left faces west mirrored.
pub proof fn lemma_animated_facing(e: Entity, delta_ms: u64)
    requires
        e.animation is Some,
        e.movable is Some,
        e.animation->0.timer.fires(delta_ms),
    ensures
        e.movable->0.direction.x > 0 ==> animated_entity(e, delta_ms).animation->0.facing == FacingDirection::East
            && !animated_entity(e, delta_ms).animation->0.sprite.flip_x,
        e.movable->0.direction.x < 0 ==> animated_entity(e, delta_ms).animation->0.facing == FacingDirection::West
            && animated_entity(e, delta_ms).animation->0.sprite.flip_x,
{
}

} // verus!
