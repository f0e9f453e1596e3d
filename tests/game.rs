use topdown_game::game::{cleanup_menu, setup_menu, Game, GameEntity, MenuEntity, TransitionError};
use topdown_game::geometry::{Vec2, UNIT};
use topdown_game::health::BarWidth;
use topdown_game::health::Health;
use topdown_game::movement::{Collidable, Movable};
use topdown_game::setup::{enemy_spawn_angles, game_setup, spawn_enemy_at, spawn_player, spawn_tree_at, tree_columns};
use topdown_game::sprite::Animation;
use topdown_game::state::{
    menu_action_system, menu_button_feel_system, menu_keyboard_input, requested_state, AppState, ButtonColor, ButtonEvent,
    EntityHealthPlugin, GamePlugin, HookId, Interaction, MenuButtonAction, MenuPlugin, Schedule, SystemId, Trigger,
};
use topdown_game::systems::{apply_keys, KeyInput, SystemError};
use topdown_game::world::{Entity, Owners, World};

/// A point or size given in world units.
fn at(x: i64, y: i64) -> Vec2 {
    Vec2::new(x * UNIT, y * UNIT)
}

fn no_keys() -> KeyInput {
    KeyInput { left: false, down: false, up: false, right: false, hurt: false, movement_released: false }
}

fn level_at_origin(world: &mut World) {
    let e = Entity { level_floor: Some(at(5000, 2000)), ..Entity::at(Vec2::zero()) };
    world.spawn(e).unwrap();
}

fn walker(x: i64, y: i64, velocity: u64) -> Entity {
    Entity {
        movable: Some(Movable { velocity, direction: Vec2::zero() }),
        collider: Some(Collidable { size: at(26, 20) }),
        ..Entity::at(at(x, y))
    }
}

#[test]
fn steering_then_movement_chases_player() {
    let mut world = World::new();
    level_at_origin(&mut world);
    let mut player = walker(100, 0, 200);
    player.tags.player_controlled = true;
    world.spawn(player).unwrap();
    let mut enemy = walker(0, 0, 150);
    enemy.tags.enemy = true;
    world.spawn(enemy).unwrap();
    world.regular_enemy_movement().unwrap();
    assert_eq!(world.entities[2].movable.unwrap().direction, at(100, 0));
    world.entity_movement_system(100).unwrap();
    // 150 * 0.1 = 15 units.
    assert_eq!(world.entities[2].position, at(15, 0));
    assert_eq!(world.entities[1].position, at(100, 0));
}

#[test]
fn irregular_enemy_is_not_steered() {
    let mut world = World::new();
    let mut player = walker(100, 0, 200);
    player.tags.player_controlled = true;
    world.spawn(player).unwrap();
    let mut enemy = walker(0, 0, 150);
    enemy.tags.enemy = true;
    enemy.tags.irregular_enemy = true;
    world.spawn(enemy).unwrap();
    world.regular_enemy_movement().unwrap();
    assert_eq!(world.entities[1].movable.unwrap().direction, Vec2::zero());
}

#[test]
fn steering_needs_exactly_one_player() {
    let mut world = World::new();
    let mut enemy = walker(0, 0, 150);
    enemy.tags.enemy = true;
    world.spawn(enemy).unwrap();
    assert_eq!(world.regular_enemy_movement(), Err(SystemError::PlayerNotUnique));
    let mut player = walker(100, 0, 200);
    player.tags.player_controlled = true;
    world.spawn(player).unwrap();
    world.spawn(player).unwrap();
    assert_eq!(world.regular_enemy_movement(), Err(SystemError::PlayerNotUnique));
    assert_eq!(world.entities[0].movable.unwrap().direction, Vec2::zero());
}

#[test]
fn movement_needs_exactly_one_level() {
    let mut world = World::new();
    let mut e = walker(0, 0, 200);
    e.movable = Some(Movable { velocity: 200, direction: Vec2::new(1, 0) });
    world.spawn(e).unwrap();
    assert_eq!(world.entity_movement_system(100), Err(SystemError::LevelNotUnique));
    assert_eq!(world.entities[0].position, Vec2::zero());
}

#[test]
fn trees_block_movers() {
    let mut world = World::new();
    level_at_origin(&mut world);
    spawn_tree_at(&mut world, at(25, 0)).unwrap();
    let mut e = walker(0, 0, 200);
    e.movable = Some(Movable { velocity: 200, direction: Vec2::new(1, 0) });
    world.spawn(e).unwrap();
    world.entity_movement_system(50).unwrap();
    // The candidate at x = 10 reaches into the tree from the left: x is cancelled.
    assert_eq!(world.entities[2].position, at(0, 0));
    assert_eq!(world.entities[1].position, at(25, 0));
}

#[test]
fn keyboard_nudges_and_release_stops() {
    let mut world = World::new();
    let mut p = walker(0, 0, 200);
    p.tags.player_controlled = true;
    p.health = Some(Health::new(100));
    world.spawn(p).unwrap();
    let keys = KeyInput { left: true, up: true, ..no_keys() };
    world.keyboard_input_system(&keys);
    assert_eq!(world.entities[0].movable.unwrap().direction, Vec2::new(-3, 5));
    let keys = KeyInput { right: true, down: true, hurt: true, ..no_keys() };
    world.keyboard_input_system(&keys);
    assert_eq!(world.entities[0].movable.unwrap().direction, Vec2::new(2, 0));
    assert_eq!(world.entities[0].health.unwrap().current, 99);
    let keys = KeyInput { right: true, movement_released: true, ..no_keys() };
    world.keyboard_input_system(&keys);
    assert_eq!(world.entities[0].movable.unwrap().direction, Vec2::zero());
}

#[test]
fn keyboard_heading_saturates() {
    let d = apply_keys(
        Vec2::new(13_107_199_999_999, -13_107_199_999_999),
        &KeyInput { right: true, down: true, ..no_keys() },
    );
    assert_eq!(d, Vec2::new(13_107_200_000_000, -13_107_200_000_000));
}

#[test]
fn layering_and_animation_systems() {
    let mut world = World::new();
    let mut p = walker(0, 400, 200);
    p.tags.layered = true;
    p.animation = Some(Animation::new(7, 100));
    p.movable = Some(Movable { velocity: 200, direction: Vec2::new(-1, 0) });
    world.spawn(p).unwrap();
    world.layering_system();
    assert_eq!(world.entities[0].depth, 600 * UNIT);
    world.animate_sprite(100);
    let a = world.entities[0].animation.unwrap();
    assert_eq!(a.sprite.index, 1);
    assert!(a.sprite.flip_x);
}

#[test]
fn health_indicator_follows_player_health() {
    let mut world = World::new();
    let mut p = walker(0, 0, 200);
    p.tags.player_controlled = true;
    p.health = Some(Health { max: 100, current: 50 });
    let id = world.spawn(p).unwrap();
    let mut bar = Entity::at(at(-10, -20));
    bar.tags.player_health_indicator = true;
    bar.bar_width = BarWidth::whole(20);
    world.spawn_child(id, bar).unwrap();
    world.player_health_indicator_update().unwrap();
    assert!(world.entities[1].bar_width.equals_units(10));
}

#[test]
fn spawn_child_inherits_owners() {
    let mut world = World::new();
    let parent = Entity { owners: GameEntity::owners(), ..Entity::at(Vec2::zero()) };
    let id = world.spawn(parent).unwrap();
    let child = world.spawn_child(id, Entity::at(Vec2::zero())).unwrap();
    assert_eq!(child, id + 1);
    assert_eq!(world.entities[1].parent, Some(id));
    assert!(world.entities[1].owners.contains(AppState::Playing));
    assert_eq!(world.spawn_child(99, Entity::at(Vec2::zero())), None);
    assert_eq!(world.entities.len(), 2);
}

#[test]
fn despawn_removes_owned_and_descendants() {
    let mut world = World::new();
    let root = world.spawn(Entity { owners: GameEntity::owners(), ..Entity::at(Vec2::zero()) }).unwrap();
    let keep = world.spawn(Entity { owners: MenuEntity::owners(), ..Entity::at(Vec2::zero()) }).unwrap();
    let child = world.spawn_child(root, Entity::at(Vec2::zero())).unwrap();
    world.spawn_child(child, Entity::at(Vec2::zero())).unwrap();
    world.spawn(Entity::at(at(1, 1))).unwrap();
    assert_eq!(world.count_owned(AppState::Playing), 3);
    world.despawn_owned(AppState::Playing);
    assert_eq!(world.count_owned(AppState::Playing), 0);
    assert_eq!(world.entities.len(), 2);
    assert_eq!(world.entities[0].id, keep);
    assert_eq!(world.entities[1].position, at(1, 1));
}

#[test]
fn layout_of_trees_and_enemies() {
    let cols = tree_columns();
    assert_eq!(cols.len(), 101);
    assert_eq!(cols[0], -2500);
    assert_eq!(cols[1], -2450);
    assert_eq!(cols[50], 0);
    assert_eq!(cols[100], 2500);
    let angles = enemy_spawn_angles();
    assert_eq!(angles.len(), 23);
    assert_eq!(angles[0], 15);
    assert_eq!(angles[22], 345);
}

#[test]
fn game_setup_spawns_session() {
    let mut world = World::new();
    let trees = vec![at(-50, 10), at(50, -10)];
    let enemies = vec![at(700, 0)];
    game_setup(&mut world, &trees, &enemies);
    assert_eq!(world.entities.len(), 1 + 2 + 1 + 4);
    assert_eq!(world.entities[0].level_floor, Some(at(5000, 2000)));
    assert_eq!(world.entities[1].position, at(-50, 10));
    assert!(world.entities[3].tags.enemy);
    assert_eq!(world.entities[3].movable.unwrap().velocity, 150);
    assert!(world.entities[4].tags.player_controlled);
    assert_eq!(world.entities[4].movable.unwrap().velocity, 200);
    assert_eq!(world.entities[4].health, Some(Health { max: 100, current: 100 }));
    assert!(world.entities[5].tags.player_health_indicator);
    assert_eq!(world.entities[5].parent, Some(world.entities[4].id));
    assert_eq!(world.entities[6].parent, Some(world.entities[5].id));
    assert_eq!(world.entities[7].parent, Some(world.entities[4].id));
    assert_eq!(world.count_owned(AppState::Playing), 8);
}

#[test]
fn spawners_place_entities() {
    let mut world = World::new();
    spawn_enemy_at(&mut world, at(3, 4)).unwrap();
    assert_eq!(world.entities[0].position, at(3, 4));
    assert_eq!(world.entities[0].collider, Some(Collidable { size: at(26, 20) }));
    let id = spawn_player(&mut world).unwrap();
    assert_eq!(id, 1);
    assert_eq!(world.entities.len(), 5);
}

#[test]
fn menu_setup_and_cleanup() {
    let mut world = World::new();
    let (buttons, camera) = setup_menu(&mut world);
    assert_eq!(buttons.hover_me_button, 0);
    assert_eq!(camera.camera, 3);
    assert_eq!(world.count_owned(AppState::MainMenu), 4);
    cleanup_menu(&mut world);
    assert_eq!(world.entities.len(), 0);
}

#[test]
fn leaving_game_destroys_game_entities() {
    let mut game = Game::new();
    assert_eq!(game.state, AppState::MainMenu);
    let trees = vec![at(0, 500)];
    let enemies = vec![at(700, 0), at(-700, 0)];
    game.transition(AppState::Playing, &trees, &enemies).unwrap();
    assert_eq!(game.state, AppState::Playing);
    assert_eq!(game.world.count_owned(AppState::MainMenu), 0);
    assert_eq!(game.world.count_owned(AppState::Playing), 8);
    game.transition(AppState::MainMenu, &trees, &enemies).unwrap();
    assert_eq!(game.state, AppState::MainMenu);
    assert_eq!(game.world.count_owned(AppState::Playing), 0);
    assert_eq!(game.world.count_owned(AppState::MainMenu), 4);
    assert_eq!(game.world.entities.len(), 4);
}

#[test]
fn pausing_keeps_game_entities() {
    let mut game = Game::new();
    let none: Vec<Vec2> = Vec::new();
    game.transition(AppState::Playing, &none, &none).unwrap();
    let before = game.world.entities.len();
    game.transition(AppState::Paused, &none, &none).unwrap();
    assert_eq!(game.world.entities.len(), before);
    game.transition(AppState::Playing, &none, &none).unwrap();
    assert_eq!(game.world.entities.len(), before);
    game.transition(AppState::Paused, &none, &none).unwrap();
    game.transition(AppState::MainMenu, &none, &none).unwrap();
    assert_eq!(game.world.count_owned(AppState::Playing), 0);
}

#[test]
fn refused_transitions_change_nothing() {
    let mut game = Game::new();
    let none: Vec<Vec2> = Vec::new();
    assert_eq!(game.transition(AppState::Paused, &none, &none), Err(TransitionError::NotAllowed));
    assert_eq!(game.transition(AppState::MainMenu, &none, &none), Err(TransitionError::NotAllowed));
    assert_eq!(game.state, AppState::MainMenu);
    assert_eq!(game.world.entities.len(), 4);
}

#[test]
fn tick_runs_gameplay_only_while_playing() {
    let mut game = Game::new();
    let none: Vec<Vec2> = Vec::new();
    let keys = KeyInput { right: true, ..no_keys() };
    let errors = game.tick(&keys, 100);
    assert!(errors.is_empty());
    assert_eq!(game.world.entities.len(), 4);
    game.transition(AppState::Playing, &none, &none).unwrap();
    let errors = game.tick(&keys, 100);
    assert!(errors.is_empty());
    let player = game.world.entities.iter().find(|e| e.tags.player_controlled).unwrap();
    assert_eq!(player.movable.unwrap().direction, Vec2::new(5, 0));
    assert_eq!(player.position, at(20, 0));
    assert_eq!(player.depth, 1000 * UNIT);
    game.transition(AppState::Paused, &none, &none).unwrap();
    game.tick(&keys, 100);
    let player = game.world.entities.iter().find(|e| e.tags.player_controlled).unwrap();
    assert_eq!(player.position, at(20, 0));
}

#[test]
fn schedule_runs_in_stage_order() {
    let mut schedule = Schedule::new();
    EntityHealthPlugin.build(&mut schedule);
    GamePlugin.build(&mut schedule);
    MenuPlugin.build(&mut schedule);
    assert_eq!(
        schedule.systems_for(AppState::Playing),
        vec![
            SystemId::KeyboardInput,
            SystemId::EnemySteering,
            SystemId::Movement,
            SystemId::Animation,
            SystemId::Layering,
            SystemId::HealthIndicator,
        ]
    );
    assert_eq!(schedule.systems_for(AppState::MainMenu), vec![SystemId::MenuButtonFeel, SystemId::MenuAction]);
    assert!(schedule.systems_for(AppState::Paused).is_empty());
}

#[test]
fn menu_systems() {
    assert_eq!(menu_button_feel_system(Interaction::Hovered), Some(ButtonColor::Hovered));
    assert_eq!(menu_button_feel_system(Interaction::Idle), Some(ButtonColor::Unhovered));
    assert_eq!(menu_button_feel_system(Interaction::Pressed), None);
    let hover = ButtonEvent { interaction: Interaction::Hovered, action: MenuButtonAction::Play };
    let press = ButtonEvent { interaction: Interaction::Pressed, action: MenuButtonAction::Play };
    assert_eq!(menu_action_system(&vec![hover]), None);
    assert_eq!(menu_action_system(&vec![hover, press]), Some(AppState::Playing));
    assert_eq!(menu_keyboard_input(true), Some(AppState::Playing));
    assert_eq!(menu_keyboard_input(false), None);
}

#[test]
fn owner_sets() {
    let o = Owners::only(AppState::Paused);
    assert!(o.contains(AppState::Paused));
    assert!(!o.contains(AppState::Playing));
    let m = o.merged(&MenuEntity::owners());
    assert!(m.contains(AppState::MainMenu) && m.contains(AppState::Paused));
    assert!(!Owners::none().contains(AppState::MainMenu));
}

#[test]
fn tick_reports_skipped_systems_in_order() {
    let mut schedule = Schedule::new();
    GamePlugin.build(&mut schedule);
    let mut game = Game { state: AppState::Playing, world: World::new(), schedule };
    let errors = game.tick(&no_keys(), 16);
    assert_eq!(
        errors,
        vec![SystemError::PlayerNotUnique, SystemError::LevelNotUnique, SystemError::PlayerNotUnique]
    );
}

#[test]
fn keys_request_state_changes() {
    assert_eq!(requested_state(AppState::MainMenu, true, false, false), Some(AppState::Playing));
    assert_eq!(requested_state(AppState::MainMenu, false, true, true), None);
    assert_eq!(requested_state(AppState::Playing, false, true, true), Some(AppState::Paused));
    assert_eq!(requested_state(AppState::Playing, true, false, true), Some(AppState::MainMenu));
    assert_eq!(requested_state(AppState::Playing, true, false, false), None);
    assert_eq!(requested_state(AppState::Paused, false, true, false), Some(AppState::Playing));
    assert_eq!(requested_state(AppState::Paused, false, false, true), Some(AppState::MainMenu));
}

#[test]
fn plugins_register_state_hooks() {
    let mut schedule = Schedule::new();
    MenuPlugin.build(&mut schedule);
    GamePlugin.build(&mut schedule);
    assert_eq!(schedule.hooks_on(Trigger::OnEnter(AppState::MainMenu)), vec![HookId::MenuSetup]);
    assert_eq!(
        schedule.hooks_on(Trigger::OnExit(AppState::MainMenu)),
        vec![HookId::DespawnOwned(AppState::MainMenu)]
    );
    assert_eq!(
        schedule.hooks_between(AppState::Playing, AppState::MainMenu),
        vec![HookId::DespawnOwned(AppState::Playing), HookId::MenuSetup]
    );
    assert_eq!(
        schedule.hooks_between(AppState::MainMenu, AppState::Playing),
        vec![HookId::DespawnOwned(AppState::MainMenu), HookId::SessionSetup]
    );
    assert!(schedule.hooks_between(AppState::Playing, AppState::Paused).is_empty());
    assert_eq!(
        schedule.hooks_between(AppState::Paused, AppState::MainMenu),
        vec![HookId::DespawnOwned(AppState::Paused), HookId::DespawnOwned(AppState::Playing), HookId::MenuSetup]
    );
}

#[test]
fn transition_runs_only_registered_hooks() {
    // Without the game's hooks, entering the game spawns nothing and keeps the menu.
    let mut schedule = Schedule::new();
    MenuPlugin.build(&mut schedule);
    let mut game = Game { state: AppState::MainMenu, world: World::new(), schedule };
    let none: Vec<Vec2> = Vec::new();
    game.transition(AppState::Playing, &none, &none).unwrap();
    assert_eq!(game.world.entities.len(), 0);
    game.transition(AppState::MainMenu, &none, &none).unwrap();
    assert_eq!(game.world.count_owned(AppState::MainMenu), 4);
}

#[test]
fn run_hook_spawns_and_destroys() {
    let mut world = World::new();
    let none: Vec<Vec2> = Vec::new();
    world.run_hook(HookId::SessionSetup, &vec![at(1, 1)], &none);
    assert_eq!(world.count_owned(AppState::Playing), 6);
    world.run_hook(HookId::MenuSetup, &none, &none);
    assert_eq!(world.count_owned(AppState::MainMenu), 4);
    world.run_hook(HookId::DespawnOwned(AppState::Playing), &none, &none);
    assert_eq!(world.entities.len(), 4);
}
