use vstd::prelude::*;

use crate::geometry::{Vec2, COORD_LIMIT};
use crate::movement::MAX_DELTA_MS;
use crate::setup::{game_setup, placed, session_entities};
use crate::state::{
    allowed, hooks_between_in, hooks_matching, is_allowed, menu_hooks, session_hooks, AppState, GamePlugin, HookId,
    MenuPlugin, Schedule, SystemId, Trigger,
};
use crate::systems::{
    animated_entity, controlled, indicated, layered_entity, levels_of, moved, obstacles_of,
    player_healths, player_positions, steered, KeyInput, SystemError,
};
use crate::world::{bare, lemma_survivors_members, owned_count, survivors, Entity, Owners, World};

verus! {

/// Marks entities owned by the running game: leaving the game destroys them.
pub struct GameEntity;

/// Marks entities owned by the main menu: leaving the menu destroys them.
pub struct MenuEntity;

impl GameEntity {
    pub fn owners() -> (r: Owners)
        ensures
            r == Owners::single(AppState::Playing),
    {
        Owners::only(AppState::Playing)
    }
}

impl MenuEntity {
    pub fn owners() -> (r: Owners)
        ensures
            r == Owners::single(AppState::MainMenu),
    {
        Owners::only(AppState::MainMenu)
    }
}

/// An entity of the menu at the origin.
pub open spec fn menu_blueprint() -> Entity {
    Entity { owners: Owners::single(AppState::MainMenu), ..bare(Vec2 { x: 0, y: 0 }) }
}

/// The menu's entities, created with ids from `n` on: the root node, the
/// play button under it, the button's label, and the camera.
pub open spec fn menu_entities(n: int) -> Seq<Entity> {
    seq![
        placed(menu_blueprint(), n, None),
        placed(menu_blueprint(), n + 1, Some(n as u64)),
        placed(menu_blueprint(), n + 2, Some((n + 1) as u64)),
        placed(menu_blueprint(), n + 3, None),
    ]
}

/// Id of the menu's root node, which holds the play button.
#[derive(Clone, Copy, Debug, PartialEq, Eq, Structural)]
pub struct MenuButtons {
    pub hover_me_button: u64,
}

/// Id of the menu's camera.
#[derive(Clone, Copy, Debug, PartialEq, Eq, Structural)]
pub struct MenuCamera {
    pub camera: u64,
}

/// Spawns the menu: a root node holding the play button, which holds its
/// label, and the menu camera; all owned by the main menu.
pub fn setup_menu(world: &mut World) -> (r: (MenuButtons, MenuCamera))
    requires
        old(world).wf(),
        old(world).next_id < u64::MAX - 4,
    ensures
        final(world).wf(),
        final(world).next_id == old(world).next_id + 4,
        ({
            let n = old(world).next_id as int;
            &&& r.0 == (MenuButtons { hover_me_button: n as u64 })
            &&& r.1 == (MenuCamera { camera: (n + 3) as u64 })
            &&& final(world).entities@ == old(world).entities@ + menu_entities(n)
        }),
{
    let ghost s0 = world.entities@;
    let n = world.next_id;
    let e = Entity { owners: MenuEntity::owners(), ..Entity::at(Vec2::zero()) };
    let _ = world.spawn(e);
    let ghost s1 = world.entities@;
    assert(s1[s1.len() - 1].id == n);
    let _ = world.spawn_child(n, e);
    proof {
        let j = choose|j: int| 0 <= j < s1.len() && (#[trigger] s1[j]).id == n && world.entities@ == s1.push(
            Entity { id: (n + 1) as u64, parent: Some(n), owners: e.owners.union(s1[j].owners), ..e },
        );
        if j < s1.len() - 1 {
            assert(s1[j].id < s1[s1.len() - 1].id);
        }
    }
    let ghost s2 = world.entities@;
    assert(s2[s2.len() - 1].id == n + 1);
    let _ = world.spawn_child(n + 1, e);
    proof {
        let j = choose|j: int| 0 <= j < s2.len() && (#[trigger] s2[j]).id == n + 1 && world.entities@ == s2.push(
            Entity { id: (n + 2) as u64, parent: Some((n + 1) as u64), owners: e.owners.union(s2[j].owners), ..e },
        );
        if j < s2.len() - 1 {
            assert(s2[j].id < s2[s2.len() - 1].id);
        }
    }
    let _ = world.spawn(e);
    assert(world.entities@ =~= s0 + seq![
        placed(menu_blueprint(), n as int, None),
        placed(menu_blueprint(), n + 1, Some(n)),
        placed(menu_blueprint(), n + 2, Some((n + 1) as u64)),
        placed(menu_blueprint(), n + 3, None),
    ]);
    (MenuButtons { hover_me_button: n }, MenuCamera { camera: n + 3 })
}

/// Destroys the menu: every entity owned by the main menu, with its
/// descendants.
pub fn cleanup_menu(world: &mut World)
    requires
        old(world).wf(),
    ensures
        final(world).wf(),
        final(world).next_id == old(world).next_id,
        final(world).entities@ == survivors(old(world).entities@, AppState::MainMenu),
{
    world.despawn_owned(AppState::MainMenu);
}

/// What one system does to the entities.
pub open spec fn system_effect(s: Seq<Entity>, id: SystemId, keys: KeyInput, delta_ms: u64) -> Seq<Entity> {
    match id {
        SystemId::KeyboardInput => Seq::new(s.len(), |i: int| controlled(s[i], keys)),
        SystemId::EnemySteering => if player_positions(s).len() == 1 {
            Seq::new(s.len(), |i: int| steered(s[i], player_positions(s)[0]))
        } else {
            s
        },
        SystemId::Movement => if levels_of(s).len() == 1 {
            Seq::new(s.len(), |i: int| moved(s[i], obstacles_of(s), levels_of(s)[0], delta_ms))
        } else {
            s
        },
        SystemId::Animation => Seq::new(s.len(), |i: int| animated_entity(s[i], delta_ms)),
        SystemId::Layering => Seq::new(s.len(), |i: int| layered_entity(s[i])),
        SystemId::HealthIndicator => if player_healths(s).len() == 1 {
            Seq::new(s.len(), |i: int| indicated(s[i], player_healths(s)[0]))
        } else {
            s
        },
        SystemId::MenuButtonFeel => s,
        SystemId::MenuAction => s,
    }
}

/// What the systems `ids`, run in order, do to the entities.
pub open spec fn systems_effect(s: Seq<Entity>, ids: Seq<SystemId>, keys: KeyInput, delta_ms: u64) -> Seq<Entity>
    decreases ids.len(),
{
    if ids.len() == 0 {
        s
    } else {
        system_effect(systems_effect(s, ids.drop_last(), keys, delta_ms), ids.last(), keys, delta_ms)
    }
}

/// What one system reports: the error of a system that needs a single level
/// or player and found none or several, and skipped the tick.
pub open spec fn system_result(s: Seq<Entity>, id: SystemId) -> Result<(), SystemError> {
    match id {
        SystemId::EnemySteering => if player_positions(s).len() != 1 {
            Err(SystemError::PlayerNotUnique)
        } else {
            Ok(())
        },
        SystemId::Movement => if levels_of(s).len() != 1 {
            Err(SystemError::LevelNotUnique)
        } else {
            Ok(())
        },
        SystemId::HealthIndicator => if player_healths(s).len() != 1 {
            Err(SystemError::PlayerNotUnique)
        } else {
            Ok(())
        },
        _ => Ok(()),
    }
}

/// The errors of the systems `ids`, run in order, that skipped the tick, in
/// the order they ran.
pub open spec fn systems_errors(s: Seq<Entity>, ids: Seq<SystemId>, keys: KeyInput, delta_ms: u64) -> Seq<SystemError>
    decreases ids.len(),
{
    if ids.len() == 0 {
        Seq::empty()
    } else {
        let before = systems_effect(s, ids.drop_last(), keys, delta_ms);
        let errors = systems_errors(s, ids.drop_last(), keys, delta_ms);
        match system_result(before, ids.last()) {
            Err(e) => errors.push(e),
            Ok(()) => errors,
        }
    }
}

/// A transition the game refused.
#[derive(Clone, Copy, Debug, PartialEq, Eq, Structural)]
pub enum TransitionError {
    /// The game does not go from the current state to the requested one.
    NotAllowed,
}

/// The game: its state, its entities and its schedule.
pub struct Game {
    pub state: AppState,
    pub world: World,
    pub schedule: Schedule,
}

impl Game {
    pub open spec fn wf(&self) -> bool {
        self.world.wf()
    }

    /// A game on its main menu, with the menu and the game's systems
    /// registered and the menu spawned.
    pub fn new() -> (r: Game)
        ensures
            r.wf(),
            r.state == AppState::MainMenu,
            r.world.next_id == 4,
            r.world.entities@ == menu_entities(0),
            r.schedule.hooks@ == game_hooks(),
            r.schedule.entries@ == seq![
                (AppState::MainMenu, SystemId::MenuButtonFeel),
                (AppState::MainMenu, SystemId::MenuAction),
                (AppState::Playing, SystemId::KeyboardInput),
                (AppState::Playing, SystemId::Animation),
                (AppState::Playing, SystemId::Layering),
                (AppState::Playing, SystemId::EnemySteering),
                (AppState::Playing, SystemId::Movement),
                (AppState::Playing, SystemId::HealthIndicator),
            ],
    {
        let mut schedule = Schedule::new();
        MenuPlugin.build(&mut schedule);
        GamePlugin.build(&mut schedule);
        assert(schedule.hooks@ =~= game_hooks());
        let mut world = World::new();
        let entering = schedule.hooks_on(Trigger::OnEnter(AppState::MainMenu));
        proof {
            lemma_game_hooks();
            assert(entering@ == seq![HookId::MenuSetup]);
            assert(entering@.drop_last().len() == 0);
        }
        let none: Vec<Vec2> = Vec::new();
        assert(entering@.len() == 1 && none@.len() == 0 && world.next_id == 0);
        assert((entering@.len() + 1) * (none@.len() + none@.len() + 10) == 20) by (nonlinear_arith)
            requires entering@.len() == 1, none@.len() == 0;
        run_hooks(&mut world, &entering, &none, &none);
        proof {
            reveal_with_fuel(hooks_effect, 2);
            assert(Seq::<Entity>::empty() + menu_entities(0) =~= menu_entities(0));
        }
        assert(world.entities@ =~= menu_entities(0));
        assert(schedule.entries@ =~= seq![
            (AppState::MainMenu, SystemId::MenuButtonFeel),
            (AppState::MainMenu, SystemId::MenuAction),
            (AppState::Playing, SystemId::KeyboardInput),
            (AppState::Playing, SystemId::Animation),
            (AppState::Playing, SystemId::Layering),
            (AppState::Playing, SystemId::EnemySteering),
            (AppState::Playing, SystemId::Movement),
            (AppState::Playing, SystemId::HealthIndicator),
        ]);
        Game { state: AppState::MainMenu, world, schedule }
    }

    /// Moves the game to state `to`, running the hooks the schedule
    /// registers for this change: those on leaving the current state, then
    /// those on this particular change, then those on entering `to`. Trees and
    /// enemies of a new session stand at `trees` and `enemies`. A transition
    /// the game does not allow changes nothing.
    pub fn transition(&mut self, to: AppState, trees: &Vec<Vec2>, enemies: &Vec<Vec2>) -> (r: Result<(), TransitionError>)
        requires
            old(self).wf(),
            forall|k: int| 0 <= k < trees@.len() ==> (#[trigger] trees@[k]).within(COORD_LIMIT as int),
            forall|k: int| 0 <= k < enemies@.len() ==> (#[trigger] enemies@[k]).within(COORD_LIMIT as int),
            old(self).world.next_id + (3 * old(self).schedule.hooks@.len() + 1) * (trees@.len() + enemies@.len() + 10)
                < u64::MAX,
        ensures
            final(self).wf(),
            final(self).schedule.entries@ == old(self).schedule.entries@,
            final(self).schedule.hooks@ == old(self).schedule.hooks@,
            !allowed(old(self).state, to) ==> r == Err::<(), TransitionError>(TransitionError::NotAllowed)
                && final(self).state == old(self).state && final(self).world.entities@ == old(self).world.entities@
                && final(self).world.next_id == old(self).world.next_id,
            allowed(old(self).state, to) ==> r == Ok::<(), TransitionError>(()) && final(self).state == to
                && (final(self).world.entities@, final(self).world.next_id as int) == hooks_effect(
                old(self).world.entities@,
                old(self).world.next_id as int,
                old(self).schedule.hooks_for(old(self).state, to),
                trees@,
                enemies@,
            ),
    {
        let from = self.state;
        if !is_allowed(from, to) {
            return Err(TransitionError::NotAllowed);
        }
        let hooks = self.schedule.hooks_between(from, to);
        proof {
            let k = trees@.len() + enemies@.len() + 10;
            assert((hooks@.len() + 1) * k <= (3 * self.schedule.hooks@.len() + 1) * k) by (nonlinear_arith)
                requires hooks@.len() <= 3 * self.schedule.hooks@.len(), k >= 0;
        }
        run_hooks(&mut self.world, &hooks, trees, enemies);
        self.state = to;
        Ok(())
    }

    /// Runs one tick: the systems registered for the current state, in
    /// stage order. Returns the errors of the systems that skipped the tick.
    pub fn tick(&mut self, keys: &KeyInput, delta_ms: u64) -> (r: Vec<SystemError>)
        requires
            old(self).wf(),
            delta_ms <= MAX_DELTA_MS,
        ensures
            final(self).wf(),
            final(self).state == old(self).state,
            final(self).schedule.entries@ == old(self).schedule.entries@,
            final(self).world.entities@ == systems_effect(
                old(self).world.entities@,
                old(self).schedule.systems_of(old(self).state),
                *keys,
                delta_ms,
            ),
            r@ == systems_errors(
                old(self).world.entities@,
                old(self).schedule.systems_of(old(self).state),
                *keys,
                delta_ms,
            ),
    {
        let ids = self.schedule.systems_for(self.state);
        let ghost s = self.world.entities@;
        let ghost state = self.state;
        let ghost entries = self.schedule.entries@;
        let mut errors: Vec<SystemError> = Vec::new();
        let mut i: usize = 0;
        while i < ids.len()
            invariant
                0 <= i <= ids@.len(),
                self.world.wf(),
                self.state == state,
                self.schedule.entries@ == entries,
                delta_ms <= MAX_DELTA_MS,
                self.world.entities@ == systems_effect(s, ids@.subrange(0, i as int), *keys, delta_ms),
                errors@ == systems_errors(s, ids@.subrange(0, i as int), *keys, delta_ms),
            decreases ids@.len() - i,
        {
            proof {
                assert(ids@.subrange(0, i as int + 1).drop_last() =~= ids@.subrange(0, i as int));
            }
            match self.world.run_system(ids[i], keys, delta_ms) {
                Ok(()) => {},
                Err(e) => {
                    errors.push(e);
                },
            }
            i = i + 1;
        }
        assert(ids@.subrange(0, i as int) =~= ids@);
        errors
    }
}

/// What one hook does to the entities and the next free id.
pub open spec fn hook_effect(s: Seq<Entity>, n: int, hook: HookId, trees: Seq<Vec2>, enemies: Seq<Vec2>) -> (Seq<Entity>, int) {
    match hook {
        HookId::MenuSetup => (s + menu_entities(n), n + 4),
        HookId::SessionSetup => (s + session_entities(n, trees, enemies), n + trees.len() + enemies.len() + 5),
        HookId::DespawnOwned(st) => (survivors(s, st), n),
    }
}

/// What the hooks `hooks`, run in order, do to the entities and the next
/// free id.
pub open spec fn hooks_effect(
    s: Seq<Entity>,
    n: int,
    hooks: Seq<HookId>,
    trees: Seq<Vec2>,
    enemies: Seq<Vec2>,
) -> (Seq<Entity>, int)
    decreases hooks.len(),
{
    if hooks.len() == 0 {
        (s, n)
    } else {
        let (s1, n1) = hooks_effect(s, n, hooks.drop_last(), trees, enemies);
        hook_effect(s1, n1, hooks.last(), trees, enemies)
    }
}

/// The hooks the game registers: the menu's, then the session's.
pub open spec fn game_hooks() -> Seq<(Trigger, HookId)> {
    menu_hooks() + session_hooks()
}

/// Which hooks the game's table runs on each allowed change of state.
/// Teardown always comes before setup.
pub proof fn lemma_game_hooks()
    ensures
        hooks_matching(game_hooks(), Trigger::OnEnter(AppState::MainMenu)) == seq![HookId::MenuSetup],
        hooks_between_in(game_hooks(), AppState::MainMenu, AppState::Playing) == seq![
            HookId::DespawnOwned(AppState::MainMenu),
            HookId::SessionSetup,
        ],
        hooks_between_in(game_hooks(), AppState::Playing, AppState::MainMenu) == seq![
            HookId::DespawnOwned(AppState::Playing),
            HookId::MenuSetup,
        ],
        hooks_between_in(game_hooks(), AppState::Playing, AppState::Paused) == Seq::<HookId>::empty(),
        hooks_between_in(game_hooks(), AppState::Paused, AppState::Playing) == seq![
            HookId::DespawnOwned(AppState::Paused),
        ],
        hooks_between_in(game_hooks(), AppState::Paused, AppState::MainMenu) == seq![
            HookId::DespawnOwned(AppState::Paused),
            HookId::DespawnOwned(AppState::Playing),
            HookId::MenuSetup,
        ],
{
    reveal_with_fuel(hooks_matching, 7);
    let h = game_hooks();
    assert(h =~= seq![
        (Trigger::OnEnter(AppState::MainMenu), HookId::MenuSetup),
        (Trigger::OnExit(AppState::MainMenu), HookId::DespawnOwned(AppState::MainMenu)),
        (Trigger::OnTransition(AppState::MainMenu, AppState::Playing), HookId::SessionSetup),
        (Trigger::OnTransition(AppState::Playing, AppState::MainMenu), HookId::DespawnOwned(AppState::Playing)),
        (Trigger::OnExit(AppState::Paused), HookId::DespawnOwned(AppState::Paused)),
        (Trigger::OnTransition(AppState::Paused, AppState::MainMenu), HookId::DespawnOwned(AppState::Playing)),
    ]);
    assert(h.drop_last().drop_last().drop_last().drop_last().drop_last().drop_last() =~= Seq::<(Trigger, HookId)>::empty());
    assert(hooks_between_in(h, AppState::MainMenu, AppState::Playing) =~= seq![
        HookId::DespawnOwned(AppState::MainMenu),
        HookId::SessionSetup,
    ]);
    assert(hooks_between_in(h, AppState::Playing, AppState::MainMenu) =~= seq![
        HookId::DespawnOwned(AppState::Playing),
        HookId::MenuSetup,
    ]);
    assert(hooks_between_in(h, AppState::Playing, AppState::Paused) =~= Seq::<HookId>::empty());
    assert(hooks_between_in(h, AppState::Paused, AppState::Playing) =~= seq![HookId::DespawnOwned(AppState::Paused)]);
    assert(hooks_between_in(h, AppState::Paused, AppState::MainMenu) =~= seq![
        HookId::DespawnOwned(AppState::Paused),
        HookId::DespawnOwned(AppState::Playing),
        HookId::MenuSetup,
    ]);
}

/// Leaving a running game for the menu, under the game's hooks: the
/// game's entities are destroyed first, then the menu is spawned after the
/// survivors with fresh ids.
pub proof fn lemma_leaving_game_runs_teardown_first(s: Seq<Entity>, n: int, trees: Seq<Vec2>, enemies: Seq<Vec2>)
    ensures
        hooks_effect(s, n, hooks_between_in(game_hooks(), AppState::Playing, AppState::MainMenu), trees, enemies)
            == (survivors(s, AppState::Playing) + menu_entities(n), n + 4),
{
    lemma_game_hooks();
    reveal_with_fuel(hooks_effect, 3);
    let hooks = seq![HookId::DespawnOwned(AppState::Playing), HookId::MenuSetup];
    assert(hooks.drop_last().drop_last() =~= Seq::<HookId>::empty());
    assert(hooks.drop_last() =~= seq![HookId::DespawnOwned(AppState::Playing)]);
}

/// Runs `hooks` in order on `world`.
fn run_hooks(world: &mut World, hooks: &Vec<HookId>, trees: &Vec<Vec2>, enemies: &Vec<Vec2>)
    requires
        old(world).wf(),
        forall|k: int| 0 <= k < trees@.len() ==> (#[trigger] trees@[k]).within(COORD_LIMIT as int),
        forall|k: int| 0 <= k < enemies@.len() ==> (#[trigger] enemies@[k]).within(COORD_LIMIT as int),
        old(world).next_id + (hooks@.len() + 1) * (trees@.len() + enemies@.len() + 10) < u64::MAX,
    ensures
        final(world).wf(),
        (final(world).entities@, final(world).next_id as int) == hooks_effect(
            old(world).entities@,
            old(world).next_id as int,
            hooks@,
            trees@,
            enemies@,
        ),
{
    let ghost s = world.entities@;
    let ghost n = world.next_id as int;
    let ghost k = trees@.len() + enemies@.len() + 10;
    let mut i: usize = 0;
    while i < hooks.len()
        invariant
            0 <= i <= hooks@.len(),
            world.wf(),
            k == trees@.len() + enemies@.len() + 10,
            forall|j: int| 0 <= j < trees@.len() ==> (#[trigger] trees@[j]).within(COORD_LIMIT as int),
            forall|j: int| 0 <= j < enemies@.len() ==> (#[trigger] enemies@[j]).within(COORD_LIMIT as int),
            world.next_id + (hooks@.len() - i + 1) * k < u64::MAX,
            (world.entities@, world.next_id as int) == hooks_effect(s, n, hooks@.subrange(0, i as int), trees@, enemies@),
        decreases hooks@.len() - i,
    {
        proof {
            assert(hooks@.subrange(0, i as int + 1).drop_last() =~= hooks@.subrange(0, i as int));
            let r = hooks@.len() - i;
            assert((r + 1) * k == r * k + k) by (nonlinear_arith);
            assert(r * k >= k) by (nonlinear_arith)
                requires r >= 1, k >= 0;
        }
        let ghost before = world.next_id;
        world.run_hook(hooks[i], trees, enemies);
        proof {
            let r = hooks@.len() - i;
            assert((r - 1 + 1) * k == r * k) by (nonlinear_arith);
        }
        i = i + 1;
    }
    assert(hooks@.subrange(0, i as int) =~= hooks@);
}

impl World {
    /// Runs one hook: spawns the menu, spawns a new session (trees at
    /// `trees`, enemies at `enemies`), or destroys what a state owns.
    pub fn run_hook(&mut self, hook: HookId, trees: &Vec<Vec2>, enemies: &Vec<Vec2>)
        requires
            old(self).wf(),
            forall|k: int| 0 <= k < trees@.len() ==> (#[trigger] trees@[k]).within(COORD_LIMIT as int),
            forall|k: int| 0 <= k < enemies@.len() ==> (#[trigger] enemies@[k]).within(COORD_LIMIT as int),
            old(self).next_id + trees@.len() + enemies@.len() + 10 < u64::MAX,
        ensures
            final(self).wf(),
            (final(self).entities@, final(self).next_id as int) == hook_effect(
                old(self).entities@,
                old(self).next_id as int,
                hook,
                trees@,
                enemies@,
            ),
    {
        match hook {
            HookId::MenuSetup => {
                let _ = setup_menu(self);
            },
            HookId::SessionSetup => {
                game_setup(self, trees, enemies);
            },
            HookId::DespawnOwned(st) => {
                self.despawn_owned(st);
            },
        }
    }

    /// Runs the system `id` on the entities. Menu systems work on UI events,
    /// not on entities, and leave them unchanged here.
    pub fn run_system(&mut self, id: SystemId, keys: &KeyInput, delta_ms: u64) -> (r: Result<(), SystemError>)
        requires
            old(self).wf(),
            delta_ms <= MAX_DELTA_MS,
        ensures
            final(self).wf(),
            final(self).next_id == old(self).next_id,
            final(self).entities@ == system_effect(old(self).entities@, id, *keys, delta_ms),
            r == system_result(old(self).entities@, id),
    {
        let ghost s = self.entities@;
        let r = match id {
            SystemId::KeyboardInput => {
                self.keyboard_input_system(keys);
                Ok(())
            },
            SystemId::EnemySteering => self.regular_enemy_movement(),
            SystemId::Movement => self.entity_movement_system(delta_ms),
            SystemId::Animation => {
                self.animate_sprite(delta_ms);
                Ok(())
            },
            SystemId::Layering => {
                self.layering_system();
                Ok(())
            },
            SystemId::HealthIndicator => self.player_health_indicator_update(),
            SystemId::MenuButtonFeel => Ok(()),
            SystemId::MenuAction => Ok(()),
        };
        assert(self.entities@ =~= system_effect(s, id, *keys, delta_ms));
        r
    }
}

/// Leaving the game for the menu destroys every entity the game owned, its
/// descendants included, before the menu spawns its own: afterwards no
/// entity is owned by the game, and each one either survived from before or
/// is one of the menu's new entities.
pub proof fn lemma_leaving_game_clears_it(s: Seq<Entity>, n: int)
    ensures
        forall|i: int| 0 <= i < (survivors(s, AppState::Playing) + menu_entities(n)).len() ==>
            !(#[trigger] (survivors(s, AppState::Playing) + menu_entities(n))[i]).owners.includes(AppState::Playing),
        owned_count(survivors(s, AppState::Playing) + menu_entities(n), AppState::Playing) == 0,
        forall|i: int| 0 <= i < survivors(s, AppState::Playing).len() ==>
            s.contains(#[trigger] (survivors(s, AppState::Playing) + menu_entities(n))[i]),
{
    let kept = survivors(s, AppState::Playing);
    let f = kept + menu_entities(n);
    lemma_survivors_members(s, AppState::Playing);
    assert forall|i: int| 0 <= i < f.len() implies !(#[trigger] f[i]).owners.includes(AppState::Playing) by {
        if i < kept.len() {
            assert(f[i] == kept[i]);
        }
    }
    lemma_none_owned(f, AppState::Playing);
    assert forall|i: int| 0 <= i < kept.len() implies s.contains(#[trigger] f[i]) by {
        assert(f[i] == kept[i]);
    }
}

/// A sequence none of whose entities `st` owns has no entity owned by `st`.
pub proof fn lemma_none_owned(s: Seq<Entity>, st: AppState)
    requires
        forall|i: int| 0 <= i < s.len() ==> !(#[trigger] s[i]).owners.includes(st),
    ensures
        owned_count(s, st) == 0,
    decreases s.len(),
{
    if s.len() > 0 {
        let d = s.drop_last();
        assert forall|i: int| 0 <= i < d.len() implies !(#[trigger] d[i]).owners.includes(st) by {
            assert(d[i] == s[i]);
        }
        lemma_none_owned(d, st);
        assert(s.last() == s[s.len() - 1]);
    }
}

} // verus!
