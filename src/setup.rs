use vstd::prelude::*;

use crate::geometry::{Vec2, COORD_LIMIT, UNIT};
use crate::health::{BarWidth, Health, HEALTH_BAR_WIDTH};
use crate::movement::{Collidable, Movable};
use crate::sprite::{Animation, FRAME_INTERVAL_MS};
use crate::state::AppState;
use crate::world::{bare, Entity, Owners, Tags, World};

verus! {

/// Frames of the character sprite sheet.
pub const CHARACTER_FRAMES: u64 = 7;

/// Speed of the player, in world units per second.
pub const PLAYER_SPEED: u64 = 200;

/// Speed of an enemy, in world units per second.
pub const ENEMY_SPEED: u64 = 150;

/// Maximum health of the player.
pub const PLAYER_HEALTH: u64 = 100;

/// Size of the walkable floor, in sub-units (5000 by 2000 world units).
pub const LEVEL_WIDTH: i64 = 5000 * UNIT;
pub const LEVEL_FLOOR_HEIGHT: i64 = 2000 * UNIT;

/// Collider of a tree, in sub-units (16 by 20 world units).
pub const TREE_WIDTH: i64 = 16 * UNIT;
pub const TREE_HEIGHT: i64 = 20 * UNIT;

/// Collider of a character, in sub-units (26 by 20 world units).
pub const CHARACTER_WIDTH: i64 = 26 * UNIT;
pub const CHARACTER_HEIGHT: i64 = 20 * UNIT;

/// Offset of the health bar from the player, in sub-units (-10, -20 world units).
pub const HEALTH_BAR_OFFSET_X: i64 = -10 * UNIT;
pub const HEALTH_BAR_OFFSET_Y: i64 = -20 * UNIT;

/// Horizontal spacing of the trees, and the half width of the row of trees.
pub const TREE_SPACING: i64 = 50;
pub const TREE_SPAN: i64 = 2500;

/// Angular spacing of the enemy spawn points, in whole units of angle.
pub const ENEMY_ANGLE_STEP: i64 = 15;

/// The x coordinates of the trees: every multiple of `TREE_SPACING` in
/// `[-TREE_SPAN, TREE_SPAN]`, increasing.
pub open spec fn tree_column(i: int) -> int {
    -TREE_SPAN + TREE_SPACING * i
}

/// Number of tree columns.
pub open spec fn tree_column_count() -> int {
    2 * (TREE_SPAN as int) / (TREE_SPACING as int) + 1
}

/// Angles of the enemy spawn points: the multiples of `ENEMY_ANGLE_STEP` in
/// `[1, 359]`, increasing.
pub open spec fn enemy_angle(i: int) -> int {
    ENEMY_ANGLE_STEP * (i + 1)
}

pub open spec fn enemy_angle_count() -> int {
    359int / (ENEMY_ANGLE_STEP as int)
}

/// The x coordinates of the trees, from left to right.
pub fn tree_columns() -> (r: Vec<i64>)
    ensures
        r@.len() == tree_column_count(),
        forall|i: int| 0 <= i < r@.len() ==> r@[i] == tree_column(i),
{
    let mut r: Vec<i64> = Vec::new();
    let mut x: i64 = -TREE_SPAN;
    while x <= TREE_SPAN
        invariant
            -TREE_SPAN <= x <= TREE_SPAN + TREE_SPACING,
            x == -TREE_SPAN + TREE_SPACING * r@.len(),
            forall|i: int| 0 <= i < r@.len() ==> r@[i] == tree_column(i),
        decreases TREE_SPAN + TREE_SPACING - x,
    {
        r.push(x);
        x = x + TREE_SPACING;
    }
    r
}

/// Angles of the enemy spawn points on their circle.
pub fn enemy_spawn_angles() -> (r: Vec<i64>)
    ensures
        r@.len() == enemy_angle_count(),
        forall|i: int| 0 <= i < r@.len() ==> r@[i] == enemy_angle(i),
{
    let mut r: Vec<i64> = Vec::new();
    let mut angle: i64 = ENEMY_ANGLE_STEP;
    while angle < 360
        invariant
            ENEMY_ANGLE_STEP <= angle <= 360,
            angle == ENEMY_ANGLE_STEP * (r@.len() + 1),
            forall|i: int| 0 <= i < r@.len() ==> r@[i] == enemy_angle(i),
        decreases 360 - angle,
    {
        r.push(angle);
        angle = angle + ENEMY_ANGLE_STEP;
    }
    r
}

/// The level floor entity, owned by the game.
pub open spec fn level_blueprint() -> Entity {
    Entity {
        owners: Owners { main_menu: false, playing: true, paused: false },
        level_floor: Some(Vec2 { x: LEVEL_WIDTH, y: LEVEL_FLOOR_HEIGHT }),
        ..bare(Vec2 { x: 0, y: 0 })
    }
}

/// A tree at `p`: a static collider, owned by the game.
pub open spec fn tree_blueprint(p: Vec2) -> Entity {
    Entity {
        owners: Owners { main_menu: false, playing: true, paused: false },
        collider: Some(Collidable { size: Vec2 { x: TREE_WIDTH, y: TREE_HEIGHT } }),
        ..bare(p)
    }
}

/// An enemy at `p`: movable, collidable, animated and layered, owned by the game.
pub open spec fn enemy_blueprint(p: Vec2) -> Entity {
    Entity {
        owners: Owners { main_menu: false, playing: true, paused: false },
        tags: Tags { enemy: true, layered: true, ..bare(p).tags },
        movable: Some(Movable { velocity: ENEMY_SPEED, direction: Vec2 { x: 0, y: 0 } }),
        collider: Some(Collidable { size: Vec2 { x: CHARACTER_WIDTH, y: CHARACTER_HEIGHT } }),
        animation: Some(character_animation()),
        ..bare(p)
    }
}

/// The player at the origin: controlled, movable, collidable, animated,
/// layered and with full health, owned by the game.
pub open spec fn player_blueprint() -> Entity {
    Entity {
        owners: Owners { main_menu: false, playing: true, paused: false },
        tags: Tags { player_controlled: true, layered: true, ..bare(Vec2 { x: 0, y: 0 }).tags },
        movable: Some(Movable { velocity: PLAYER_SPEED, direction: Vec2 { x: 0, y: 0 } }),
        collider: Some(Collidable { size: Vec2 { x: CHARACTER_WIDTH, y: CHARACTER_HEIGHT } }),
        animation: Some(character_animation()),
        health: Some(Health { max: PLAYER_HEALTH, current: PLAYER_HEALTH }),
        ..bare(Vec2 { x: 0, y: 0 })
    }
}

/// The player's health bar, below the player.
pub open spec fn health_bar_blueprint() -> Entity {
    Entity {
        owners: Owners { main_menu: false, playing: true, paused: false },
        tags: Tags { player_health_indicator: true, ..bare(Vec2 { x: HEALTH_BAR_OFFSET_X, y: HEALTH_BAR_OFFSET_Y }).tags },
        bar_width: BarWidth { num: 20, den: 1 },
        ..bare(Vec2 { x: HEALTH_BAR_OFFSET_X, y: HEALTH_BAR_OFFSET_Y })
    }
}

/// The dark background of the health bar.
pub open spec fn health_bar_back_blueprint() -> Entity {
    Entity { owners: Owners { main_menu: false, playing: true, paused: false }, bar_width: BarWidth { num: 20, den: 1 }, ..bare(Vec2 { x: 0, y: 0 }) }
}

/// The camera that follows the player.
pub open spec fn camera_blueprint() -> Entity {
    Entity { owners: Owners { main_menu: false, playing: true, paused: false }, ..bare(Vec2 { x: 0, y: 0 }) }
}

pub open spec fn character_animation() -> Animation {
    Animation {
        facing: crate::sprite::FacingDirection::East,
        timer: crate::sprite::AnimationTimer { duration_ms: FRAME_INTERVAL_MS, elapsed_ms: 0 },
        sprite: crate::sprite::SpriteFrame { index: 0, flip_x: false },
        frame_count: CHARACTER_FRAMES,
    }
}

fn game_owned(p: Vec2) -> (r: Entity)
    requires
        p.within(COORD_LIMIT as int),
    ensures
        r == (Entity { owners: Owners { main_menu: false, playing: true, paused: false }, ..bare(p) }),
        r.wf(),
{
    let e = Entity::at(p);
    Entity { owners: Owners::only(AppState::Playing), ..e }
}

fn character(frames: u64) -> (r: Animation)
    requires
        frames == CHARACTER_FRAMES,
    ensures
        r == character_animation(),
        r.wf(),
{
    Animation::new(frames, FRAME_INTERVAL_MS)
}

/// Spawns a tree at `p`; returns its id.
pub fn spawn_tree_at(world: &mut World, p: Vec2) -> (r: Option<u64>)
    requires
        old(world).wf(),
        p.within(COORD_LIMIT as int),
    ensures
        final(world).wf(),
        old(world).next_id < u64::MAX ==> r == Some(old(world).next_id) && final(world).entities@
            == old(world).entities@.push(Entity { id: old(world).next_id, ..tree_blueprint(p) })
            && final(world).next_id == old(world).next_id + 1,
        old(world).next_id == u64::MAX ==> r is None && final(world).entities@ == old(world).entities@,
{
    let base = game_owned(p);
    let e = Entity { collider: Some(Collidable { size: Vec2 { x: TREE_WIDTH, y: TREE_HEIGHT } }), ..base };
    world.spawn(e)
}

/// Spawns an enemy at `p`; returns its id.
pub fn spawn_enemy_at(world: &mut World, p: Vec2) -> (r: Option<u64>)
    requires
        old(world).wf(),
        p.within(COORD_LIMIT as int),
    ensures
        final(world).wf(),
        old(world).next_id < u64::MAX ==> r == Some(old(world).next_id) && final(world).entities@
            == old(world).entities@.push(Entity { id: old(world).next_id, ..enemy_blueprint(p) })
            && final(world).next_id == old(world).next_id + 1,
        old(world).next_id == u64::MAX ==> r is None && final(world).entities@ == old(world).entities@,
{
    let base = game_owned(p);
    let e = Entity {
        tags: Tags { enemy: true, layered: true, ..base.tags },
        movable: Some(Movable { velocity: ENEMY_SPEED, direction: Vec2::zero() }),
        collider: Some(Collidable { size: Vec2 { x: CHARACTER_WIDTH, y: CHARACTER_HEIGHT } }),
        animation: Some(character(CHARACTER_FRAMES)),
        ..base
    };
    world.spawn(e)
}

/// The blueprint at `id` and `parent`, owned by the game.
pub open spec fn placed(b: Entity, id: int, parent: Option<u64>) -> Entity {
    Entity { id: id as u64, parent, ..b }
}

/// In a world where every entity created from `base_id` on is owned by the
/// game alone, so is the one with id `parent >= base_id`.
proof fn lemma_child_of_recent(s: Seq<Entity>, next_id: u64, parent: u64, base_id: u64, j: int)
    requires
        crate::world::arena_wf(s, next_id),
        0 <= j < s.len(),
        s[j].id == parent,
        parent >= base_id,
        forall|k: int| 0 <= k < s.len() && s[k].id >= base_id ==> (#[trigger] s[k]).owners == Owners::single(
            AppState::Playing,
        ),
    ensures
        s[j].owners == Owners::single(AppState::Playing),
{
}

/// Spawns the player at the origin with its health bar, the bar's
/// background, and the camera that follows it; returns the player's id.
pub fn spawn_player(world: &mut World) -> (r: Option<u64>)
    requires
        old(world).wf(),
        old(world).next_id < u64::MAX - 4,
    ensures
        final(world).wf(),
        r == Some(old(world).next_id),
        final(world).next_id == old(world).next_id + 4,
        ({
            let n = old(world).next_id as int;
            final(world).entities@ == old(world).entities@ + seq![
                placed(player_blueprint(), n, None),
                placed(health_bar_blueprint(), n + 1, Some(n as u64)),
                placed(health_bar_back_blueprint(), n + 2, Some((n + 1) as u64)),
                placed(camera_blueprint(), n + 3, Some(n as u64)),
            ]
        }),
{
    let ghost s0 = world.entities@;
    let n = world.next_id;
    let base = game_owned(Vec2::zero());
    let player = Entity {
        tags: Tags { player_controlled: true, layered: true, ..base.tags },
        movable: Some(Movable { velocity: PLAYER_SPEED, direction: Vec2::zero() }),
        collider: Some(Collidable { size: Vec2 { x: CHARACTER_WIDTH, y: CHARACTER_HEIGHT } }),
        animation: Some(character(CHARACTER_FRAMES)),
        health: Some(Health::new(PLAYER_HEALTH)),
        ..base
    };
    let id = world.spawn(player);
    let bar_base = game_owned(Vec2 { x: HEALTH_BAR_OFFSET_X, y: HEALTH_BAR_OFFSET_Y });
    let bar = Entity { tags: Tags { player_health_indicator: true, ..bar_base.tags }, bar_width: BarWidth::whole(HEALTH_BAR_WIDTH), ..bar_base };
    let ghost s1 = world.entities@;
    assert(s1[s1.len() - 1].id == n);
    let bar_id = world.spawn_child(n, bar);
    proof {
        let j = choose|j: int| 0 <= j < s1.len() && (#[trigger] s1[j]).id == n && world.entities@ == s1.push(
            Entity { id: (n + 1) as u64, parent: Some(n), owners: bar.owners.union(s1[j].owners), ..bar },
        );
        lemma_child_of_recent(s1, world.next_id, n, n, j);
    }
    let back_base = game_owned(Vec2::zero());
    let back = Entity { bar_width: BarWidth::whole(HEALTH_BAR_WIDTH), ..back_base };
    let ghost s2 = world.entities@;
    assert(s2[s2.len() - 1].id == n + 1);
    let _ = world.spawn_child(n + 1, back);
    proof {
        let j = choose|j: int| 0 <= j < s2.len() && (#[trigger] s2[j]).id == n + 1 && world.entities@ == s2.push(
            Entity { id: (n + 2) as u64, parent: Some((n + 1) as u64), owners: back.owners.union(s2[j].owners), ..back },
        );
        assert forall|k: int| 0 <= k < s2.len() && s2[k].id >= n implies (#[trigger] s2[k]).owners == Owners::single(
            AppState::Playing,
        ) by {
            if k < s0.len() {
                assert(s2[k] == s0[k]);
            }
        }
        lemma_child_of_recent(s2, (n + 2) as u64, (n + 1) as u64, n, j);
    }
    let camera = game_owned(Vec2::zero());
    let ghost s3 = world.entities@;
    assert(s3[s0.len() as int].id == n);
    let _ = world.spawn_child(n, camera);
    proof {
        let j = choose|j: int| 0 <= j < s3.len() && (#[trigger] s3[j]).id == n && world.entities@ == s3.push(
            Entity { id: (n + 3) as u64, parent: Some(n), owners: camera.owners.union(s3[j].owners), ..camera },
        );
        assert forall|k: int| 0 <= k < s3.len() && s3[k].id >= n implies (#[trigger] s3[k]).owners == Owners::single(
            AppState::Playing,
        ) by {
            if k < s0.len() {
                assert(s3[k] == s0[k]);
            }
        }
        lemma_child_of_recent(s3, (n + 3) as u64, n, n, j);
        assert(world.entities@ =~= s0 + seq![
            placed(player_blueprint(), n as int, None),
            placed(health_bar_blueprint(), n + 1, Some(n)),
            placed(health_bar_back_blueprint(), n + 2, Some((n + 1) as u64)),
            placed(camera_blueprint(), n + 3, Some(n)),
        ]);
    }
    id
}

/// Spawns the level floor; returns its id.
pub fn spawn_level(world: &mut World) -> (r: Option<u64>)
    requires
        old(world).wf(),
    ensures
        final(world).wf(),
        old(world).next_id < u64::MAX ==> r == Some(old(world).next_id) && final(world).entities@
            == old(world).entities@.push(placed(level_blueprint(), old(world).next_id as int, None))
            && final(world).next_id == old(world).next_id + 1,
        old(world).next_id == u64::MAX ==> r is None && final(world).entities@ == old(world).entities@,
{
    let base = game_owned(Vec2::zero());
    let e = Entity { level_floor: Some(Vec2 { x: LEVEL_WIDTH, y: LEVEL_FLOOR_HEIGHT }), ..base };
    world.spawn(e)
}

/// The entities a session setup creates with ids from `n` on: the level
/// floor, a tree at each of `trees`, an enemy at each of `enemies`, then the
/// player, its health bar, the bar's background and the camera; all owned by
/// the game alone.
pub open spec fn session_spawned(new: Seq<Entity>, n: int, trees: Seq<Vec2>, enemies: Seq<Vec2>) -> bool {
    let t = trees.len() as int;
    let m = enemies.len() as int;
    &&& new.len() == 1 + t + m + 4
    &&& new[0] == placed(level_blueprint(), n, None)
    &&& forall|k: int| 0 <= k < t ==> #[trigger] new[1 + k] == placed(tree_blueprint(trees[k]), n + 1 + k, None)
    &&& forall|k: int| 0 <= k < m ==> #[trigger] new[1 + t + k] == placed(
        enemy_blueprint(enemies[k]),
        n + 1 + t + k,
        None,
    )
    &&& new.subrange(1 + t + m, new.len() as int) == seq![
        placed(player_blueprint(), n + 1 + t + m, None),
        placed(health_bar_blueprint(), n + 2 + t + m, Some((n + 1 + t + m) as u64)),
        placed(health_bar_back_blueprint(), n + 3 + t + m, Some((n + 2 + t + m) as u64)),
        placed(camera_blueprint(), n + 4 + t + m, Some((n + 1 + t + m) as u64)),
    ]
    &&& forall|k: int| 0 <= k < new.len() ==> (#[trigger] new[k]).owners == Owners::single(AppState::Playing)
}

/// The entities a session setup creates with ids from `n` on, in order.
pub open spec fn session_entities(n: int, trees: Seq<Vec2>, enemies: Seq<Vec2>) -> Seq<Entity> {
    let t = trees.len() as int;
    let m = enemies.len() as int;
    seq![placed(level_blueprint(), n, None)] + Seq::new(
        t as nat,
        |k: int| placed(tree_blueprint(trees[k]), n + 1 + k, None),
    ) + Seq::new(m as nat, |k: int| placed(enemy_blueprint(enemies[k]), n + 1 + t + k, None)) + seq![
        placed(player_blueprint(), n + 1 + t + m, None),
        placed(health_bar_blueprint(), n + 2 + t + m, Some((n + 1 + t + m) as u64)),
        placed(health_bar_back_blueprint(), n + 3 + t + m, Some((n + 2 + t + m) as u64)),
        placed(camera_blueprint(), n + 4 + t + m, Some((n + 1 + t + m) as u64)),
    ]
}

/// The entities a session setup is described to create are exactly
/// `session_entities`.
pub proof fn lemma_session_spawned_exact(new: Seq<Entity>, n: int, trees: Seq<Vec2>, enemies: Seq<Vec2>)
    requires
        session_spawned(new, n, trees, enemies),
    ensures
        new == session_entities(n, trees, enemies),
{
    let t = trees.len() as int;
    let m = enemies.len() as int;
    let e = session_entities(n, trees, enemies);
    let tail = new.subrange(1 + t + m, new.len() as int);
    assert forall|k: int| 0 <= k < new.len() implies new[k] == e[k] by {
        if k == 0 {
        } else if k < 1 + t {
            assert(new[1 + (k - 1)] == placed(tree_blueprint(trees[k - 1]), n + 1 + (k - 1), None));
        } else if k < 1 + t + m {
            assert(new[1 + t + (k - 1 - t)] == placed(enemy_blueprint(enemies[k - 1 - t]), n + 1 + t + (k - 1 - t), None));
        } else {
            assert(new[k] == tail[k - (1 + t + m)]);
        }
    }
    assert(new =~= e);
}

/// Sets up a game session: the level floor, a tree at each of `trees`, an
/// enemy at each of `enemies`, then the player with its health bar and
/// camera, all owned by the running game, after the entities already there.
pub fn game_setup(world: &mut World, trees: &Vec<Vec2>, enemies: &Vec<Vec2>)
    requires
        old(world).wf(),
        forall|k: int| 0 <= k < trees@.len() ==> (#[trigger] trees@[k]).within(COORD_LIMIT as int),
        forall|k: int| 0 <= k < enemies@.len() ==> (#[trigger] enemies@[k]).within(COORD_LIMIT as int),
        old(world).next_id + trees@.len() + enemies@.len() + 5 < u64::MAX,
    ensures
        final(world).wf(),
        final(world).entities@.len() >= old(world).entities@.len(),
        final(world).entities@.subrange(0, old(world).entities@.len() as int) == old(world).entities@,
        session_spawned(
            final(world).entities@.subrange(old(world).entities@.len() as int, final(world).entities@.len() as int),
            old(world).next_id as int,
            trees@,
            enemies@,
        ),
        final(world).entities@ == old(world).entities@ + session_entities(old(world).next_id as int, trees@, enemies@),
        final(world).next_id == old(world).next_id + trees@.len() + enemies@.len() + 5,
{
    let ghost s = world.entities@;
    let ghost n = world.next_id as int;
    let _ = spawn_level(world);
    let mut i: usize = 0;
    while i < trees.len()
        invariant
            world.wf(),
            0 <= i <= trees@.len(),
            forall|k: int| 0 <= k < trees@.len() ==> (#[trigger] trees@[k]).within(COORD_LIMIT as int),
            world.next_id == n + 1 + i,
            world.next_id + trees@.len() - i + enemies@.len() + 4 < u64::MAX,
            world.entities@.len() == s.len() + 1 + i,
            world.entities@.subrange(0, s.len() as int) == s,
            world.entities@[s.len() as int] == placed(level_blueprint(), n, None),
            forall|k: int| 0 <= k < i ==> #[trigger] world.entities@[s.len() + 1 + k] == placed(
                tree_blueprint(trees@[k]),
                n + 1 + k,
                None,
            ),
        decreases trees@.len() - i,
    {
        let ghost before = world.entities@;
        let _ = spawn_tree_at(world, trees[i]);
        proof {
            assert(world.entities@.subrange(0, s.len() as int) =~= before.subrange(0, s.len() as int));
        }
        i = i + 1;
    }
    let mut j: usize = 0;
    let ghost t = trees@.len() as int;
    while j < enemies.len()
        invariant
            world.wf(),
            0 <= j <= enemies@.len(),
            t == trees@.len(),
            forall|k: int| 0 <= k < enemies@.len() ==> (#[trigger] enemies@[k]).within(COORD_LIMIT as int),
            world.next_id == n + 1 + t + j,
            world.next_id + enemies@.len() - j + 4 < u64::MAX,
            world.entities@.len() == s.len() + 1 + t + j,
            world.entities@.subrange(0, s.len() as int) == s,
            world.entities@[s.len() as int] == placed(level_blueprint(), n, None),
            forall|k: int| 0 <= k < t ==> #[trigger] world.entities@[s.len() + 1 + k] == placed(
                tree_blueprint(trees@[k]),
                n + 1 + k,
                None,
            ),
            forall|k: int| 0 <= k < j ==> #[trigger] world.entities@[s.len() + 1 + t + k] == placed(
                enemy_blueprint(enemies@[k]),
                n + 1 + t + k,
                None,
            ),
        decreases enemies@.len() - j,
    {
        let ghost before = world.entities@;
        let _ = spawn_enemy_at(world, enemies[j]);
        proof {
            assert(world.entities@.subrange(0, s.len() as int) =~= before.subrange(0, s.len() as int));
            assert forall|k: int| 0 <= k < t implies #[trigger] world.entities@[s.len() + 1 + k] == placed(
                tree_blueprint(trees@[k]),
                n + 1 + k,
                None,
            ) by {
                assert(world.entities@[s.len() + 1 + k] == before[s.len() + 1 + k]);
            }
        }
        j = j + 1;
    }
    let ghost before = world.entities@;
    let _ = spawn_player(world);
    proof {
        let f = world.entities@;
        let m = enemies@.len() as int;
        assert(f.subrange(0, s.len() as int) =~= before.subrange(0, s.len() as int));
        assert(f.subrange(s.len() + 1 + t + m, f.len() as int) =~= seq![
            placed(player_blueprint(), n + 1 + t + m, None),
            placed(health_bar_blueprint(), n + 2 + t + m, Some((n + 1 + t + m) as u64)),
            placed(health_bar_back_blueprint(), n + 3 + t + m, Some((n + 2 + t + m) as u64)),
            placed(camera_blueprint(), n + 4 + t + m, Some((n + 1 + t + m) as u64)),
        ]);
        assert forall|k: int| 0 <= k < t implies #[trigger] f[s.len() + 1 + k] == placed(
            tree_blueprint(trees@[k]),
            n + 1 + k,
            None,
        ) by {
            assert(f[s.len() + 1 + k] == before[s.len() + 1 + k]);
        }
        assert forall|k: int| 0 <= k < m implies #[trigger] f[s.len() + 1 + t + k] == placed(
            enemy_blueprint(enemies@[k]),
            n + 1 + t + k,
            None,
        ) by {
            assert(f[s.len() + 1 + t + k] == before[s.len() + 1 + t + k]);
        }
        assert forall|k: int| s.len() <= k < f.len() implies (#[trigger] f[k]).owners == Owners::single(
            AppState::Playing,
        ) by {
            if k == s.len() {
            } else if k < s.len() + 1 + t {
                assert(f[s.len() + 1 + (k - s.len() - 1)] == f[k]);
            } else if k < s.len() + 1 + t + m {
                assert(f[s.len() + 1 + t + (k - s.len() - 1 - t)] == f[k]);
            } else {
                assert(f[k] == f.subrange(s.len() + 1 + t + m, f.len() as int)[k - (s.len() + 1 + t + m)]);
            }
        }
        let new = f.subrange(s.len() as int, f.len() as int);
        assert forall|k: int| 0 <= k < t implies #[trigger] new[1 + k] == placed(tree_blueprint(trees@[k]), n + 1 + k, None) by {
            assert(new[1 + k] == f[s.len() + 1 + k]);
        }
        assert forall|k: int| 0 <= k < m implies #[trigger] new[1 + t + k] == placed(
            enemy_blueprint(enemies@[k]),
            n + 1 + t + k,
            None,
        ) by {
            assert(new[1 + t + k] == f[s.len() + 1 + t + k]);
        }
        assert forall|k: int| 0 <= k < new.len() implies (#[trigger] new[k]).owners == Owners::single(AppState::Playing) by {
            assert(new[k] == f[s.len() + k]);
        }
        assert(new.subrange(1 + t + m, new.len() as int) =~= f.subrange(s.len() + 1 + t + m, f.len() as int));
        lemma_session_spawned_exact(new, n, trees@, enemies@);
        assert(f =~= s + new);
    }
}

} // verus!
