use vstd::prelude::*;

verus! {

/// The states of the game: the main menu (initial), a running game, and a
/// paused game. Playing and Paused together form a game session.
#[derive(Clone, Copy, Debug, PartialEq, Eq, Structural)]
pub enum AppState {
    MainMenu,
    Playing,
    Paused,
}

/// Screens of the menu.
#[derive(Clone, Copy, Debug, PartialEq, Eq, Structural)]
pub enum MenuState {
    MainMenu,
    PauseMenu,
}

/// What a menu button does when pressed.
#[derive(Clone, Copy, Debug, PartialEq, Eq, Structural)]
pub enum MenuButtonAction {
    Play,
}

/// Pointer state of a UI button, as the UI collaborator reports it.
#[derive(Clone, Copy, Debug, PartialEq, Eq, Structural)]
pub enum Interaction {
    Pressed,
    Hovered,
    Idle,
}

/// Background colour of a menu button.
#[derive(Clone, Copy, Debug, PartialEq, Eq, Structural)]
pub enum ButtonColor {
    Unhovered,
    Hovered,
}

/// A change of a button's interaction in this tick.
#[derive(Clone, Copy, Debug, PartialEq, Eq, Structural)]
pub struct ButtonEvent {
    pub interaction: Interaction,
    pub action: MenuButtonAction,
}

/// The systems a tick can run, named after what they do.
#[derive(Clone, Copy, Debug, PartialEq, Eq, Structural)]
pub enum SystemId {
    KeyboardInput,
    EnemySteering,
    Movement,
    Animation,
    Layering,
    HealthIndicator,
    MenuButtonFeel,
    MenuAction,
}

/// The order in which systems run within a tick.
pub open spec fn stage_order() -> Seq<SystemId> {
    seq![
        SystemId::KeyboardInput,
        SystemId::EnemySteering,
        SystemId::Movement,
        SystemId::Animation,
        SystemId::Layering,
        SystemId::HealthIndicator,
        SystemId::MenuButtonFeel,
        SystemId::MenuAction,
    ]
}

/// A state transition that the game allows: into a session from the menu,
/// pausing and resuming, and back to the menu from a session.
pub open spec fn allowed(from: AppState, to: AppState) -> bool {
    match (from, to) {
        (AppState::MainMenu, AppState::Playing) => true,
        (AppState::Playing, AppState::Paused) => true,
        (AppState::Paused, AppState::Playing) => true,
        (AppState::Playing, AppState::MainMenu) => true,
        (AppState::Paused, AppState::MainMenu) => true,
        _ => false,
    }
}

/// Whether `from -> to` is a transition the game allows.
pub fn is_allowed(from: AppState, to: AppState) -> (r: bool)
    ensures
        r == allowed(from, to),
{
    match (from, to) {
        (AppState::MainMenu, AppState::Playing) => true,
        (AppState::Playing, AppState::Paused) => true,
        (AppState::Paused, AppState::Playing) => true,
        (AppState::Playing, AppState::MainMenu) => true,
        (AppState::Paused, AppState::MainMenu) => true,
        _ => false,
    }
}

/// Colour a button takes when its interaction changes: hovered when hovered,
/// unhovered when left alone, unchanged (`None`) while pressed.
pub fn menu_button_feel_system(interaction: Interaction) -> (r: Option<ButtonColor>)
    ensures
        interaction == Interaction::Hovered ==> r == Some(ButtonColor::Hovered),
        interaction == Interaction::Idle ==> r == Some(ButtonColor::Unhovered),
        interaction == Interaction::Pressed ==> r is None,
{
    match interaction {
        Interaction::Hovered => Some(ButtonColor::Hovered),
        Interaction::Pressed => None,
        Interaction::Idle => Some(ButtonColor::Unhovered),
    }
}

/// The state the menu asks for after this tick's button events: the game,
/// when a play button was pressed.
pub fn menu_action_system(events: &Vec<ButtonEvent>) -> (r: Option<AppState>)
    ensures
        (exists|i: int|
            0 <= i < events@.len() && (#[trigger] events@[i]).interaction == Interaction::Pressed
                && events@[i].action == MenuButtonAction::Play) ==> r == Some(AppState::Playing),
        !(exists|i: int|
            0 <= i < events@.len() && (#[trigger] events@[i]).interaction == Interaction::Pressed
                && events@[i].action == MenuButtonAction::Play) ==> r is None,
{
    let mut i: usize = 0;
    while i < events.len()
        invariant
            0 <= i <= events@.len(),
            forall|k: int| 0 <= k < i ==> !((#[trigger] events@[k]).interaction == Interaction::Pressed
                && events@[k].action == MenuButtonAction::Play),
        decreases events@.len() - i,
    {
        let e = events[i];
        match e.interaction {
            Interaction::Pressed => match e.action {
                MenuButtonAction::Play => {
                    return Some(AppState::Playing);
                },
            },
            _ => {},
        }
        i = i + 1;
    }
    None
}

/// The state the menu asks for when the confirm key is pressed: the game.
pub fn menu_keyboard_input(confirm_pressed: bool) -> (r: Option<AppState>)
    ensures
        confirm_pressed ==> r == Some(AppState::Playing),
        !confirm_pressed ==> r is None,
{
    if confirm_pressed {
        Some(AppState::Playing)
    } else {
        None
    }
}

/// The state asked for by this tick's keys: confirm starts the game from the
/// menu; pause pauses a running game and resumes a paused one; exit leaves a
/// session for the menu. Pause wins over exit.
pub fn requested_state(state: AppState, confirm: bool, pause: bool, exit: bool) -> (r: Option<AppState>)
    ensures
        state == AppState::MainMenu ==> r == if confirm { Some(AppState::Playing) } else { None },
        state == AppState::Playing ==> r == if pause {
            Some(AppState::Paused)
        } else if exit {
            Some(AppState::MainMenu)
        } else {
            None
        },
        state == AppState::Paused ==> r == if pause {
            Some(AppState::Playing)
        } else if exit {
            Some(AppState::MainMenu)
        } else {
            None
        },
        r matches Some(next) ==> allowed(state, next),
{
    match state {
        AppState::MainMenu => menu_keyboard_input(confirm),
        AppState::Playing => if pause {
            Some(AppState::Paused)
        } else if exit {
            Some(AppState::MainMenu)
        } else {
            None
        },
        AppState::Paused => if pause {
            Some(AppState::Playing)
        } else if exit {
            Some(AppState::MainMenu)
        } else {
            None
        },
    }
}

/// One-off work done when the state changes.
#[derive(Clone, Copy, Debug, PartialEq, Eq, Structural)]
pub enum HookId {
    /// Spawn the menu.
    MenuSetup,
    /// Spawn a new game session.
    SessionSetup,
    /// Destroy every entity owned by the state, with its descendants.
    DespawnOwned(AppState),
}

/// When a hook runs: on entering a state, on leaving it, or on one particular
/// change from a state to another.
#[derive(Clone, Copy, Debug, PartialEq, Eq, Structural)]
pub enum Trigger {
    OnEnter(AppState),
    OnExit(AppState),
    OnTransition(AppState, AppState),
}

/// The hooks of `hooks` registered for trigger `t`, in registration order.
pub open spec fn hooks_matching(hooks: Seq<(Trigger, HookId)>, t: Trigger) -> Seq<HookId>
    decreases hooks.len(),
{
    if hooks.len() == 0 {
        Seq::empty()
    } else {
        let rest = hooks_matching(hooks.drop_last(), t);
        if hooks.last().0 == t { rest.push(hooks.last().1) } else { rest }
    }
}

/// The hooks of `hooks` run by the change from `from` to `to`, in order:
/// those on leaving `from`, then those on this change, then those on
/// entering `to`.
pub open spec fn hooks_between_in(hooks: Seq<(Trigger, HookId)>, from: AppState, to: AppState) -> Seq<HookId> {
    hooks_matching(hooks, Trigger::OnExit(from)) + hooks_matching(hooks, Trigger::OnTransition(from, to))
        + hooks_matching(hooks, Trigger::OnEnter(to))
}

proof fn lemma_hooks_matching_len(hooks: Seq<(Trigger, HookId)>, t: Trigger)
    ensures
        hooks_matching(hooks, t).len() <= hooks.len(),
    decreases hooks.len(),
{
    if hooks.len() > 0 {
        lemma_hooks_matching_len(hooks.drop_last(), t);
    }
}

/// The state dispatch table: which systems run on each tick of which state,
/// and which hooks run when the state changes. System registrations form a
/// set: registering a system twice runs it once. A hook registered twice runs
/// twice.
pub struct Schedule {
    pub entries: Vec<(AppState, SystemId)>,
    pub hooks: Vec<(Trigger, HookId)>,
}

impl Schedule {
    /// `id` is registered for state `s`.
    pub open spec fn registers(&self, s: AppState, id: SystemId) -> bool {
        exists|i: int| 0 <= i < self.entries@.len() && #[trigger] self.entries@[i] == (s, id)
    }

    /// The systems of `ids` registered for state `s`, in the order of `ids`.
    pub open spec fn registered_among(&self, s: AppState, ids: Seq<SystemId>) -> Seq<SystemId>
        decreases ids.len(),
    {
        if ids.len() == 0 {
            ids
        } else {
            let rest = self.registered_among(s, ids.drop_last());
            if self.registers(s, ids.last()) { rest.push(ids.last()) } else { rest }
        }
    }

    /// The systems of state `s`, in stage order.
    pub open spec fn systems_of(&self, s: AppState) -> Seq<SystemId> {
        self.registered_among(s, stage_order())
    }

    /// The hooks run by the change from `from` to `to`, in order: those on
    /// leaving `from`, then those on this change, then those on entering `to`.
    pub open spec fn hooks_for(&self, from: AppState, to: AppState) -> Seq<HookId> {
        hooks_between_in(self.hooks@, from, to)
    }

    pub fn new() -> (r: Schedule)
        ensures
            r.entries@.len() == 0,
            r.hooks@.len() == 0,
    {
        Schedule { entries: Vec::new(), hooks: Vec::new() }
    }

    /// Runs `id` on every tick while the game is in state `s`.
    pub fn add(&mut self, s: AppState, id: SystemId)
        ensures
            final(self).entries@ == old(self).entries@.push((s, id)),
            final(self).hooks@ == old(self).hooks@,
    {
        self.entries.push((s, id));
    }

    /// Runs `hook` each time trigger `t` happens.
    pub fn add_hook(&mut self, t: Trigger, hook: HookId)
        ensures
            final(self).entries@ == old(self).entries@,
            final(self).hooks@ == old(self).hooks@.push((t, hook)),
    {
        self.hooks.push((t, hook));
    }

    /// The hooks registered for trigger `t`, in registration order.
    pub fn hooks_on(&self, t: Trigger) -> (r: Vec<HookId>)
        ensures
            r@ == hooks_matching(self.hooks@, t),
    {
        let mut r: Vec<HookId> = Vec::new();
        let mut i: usize = 0;
        while i < self.hooks.len()
            invariant
                0 <= i <= self.hooks@.len(),
                r@ == hooks_matching(self.hooks@.subrange(0, i as int), t),
            decreases self.hooks@.len() - i,
        {
            proof {
                assert(self.hooks@.subrange(0, i as int + 1).drop_last() =~= self.hooks@.subrange(0, i as int));
            }
            let (u, h) = self.hooks[i];
            if u == t {
                r.push(h);
            }
            i = i + 1;
        }
        assert(self.hooks@.subrange(0, i as int) =~= self.hooks@);
        r
    }

    /// The hooks to run for the change from `from` to `to`, in order.
    pub fn hooks_between(&self, from: AppState, to: AppState) -> (r: Vec<HookId>)
        ensures
            r@ == self.hooks_for(from, to),
            r@.len() <= 3 * self.hooks@.len(),
    {
        let mut r = self.hooks_on(Trigger::OnExit(from));
        let mut middle = self.hooks_on(Trigger::OnTransition(from, to));
        let mut enter = self.hooks_on(Trigger::OnEnter(to));
        proof {
            lemma_hooks_matching_len(self.hooks@, Trigger::OnExit(from));
            lemma_hooks_matching_len(self.hooks@, Trigger::OnTransition(from, to));
            lemma_hooks_matching_len(self.hooks@, Trigger::OnEnter(to));
        }
        r.append(&mut middle);
        r.append(&mut enter);
        r
    }

    /// The systems to run in state `s`, in stage order.
    pub fn systems_for(&self, s: AppState) -> (r: Vec<SystemId>)
        ensures
            r@ == self.systems_of(s),
    {
        let order = vec![
            SystemId::KeyboardInput,
            SystemId::EnemySteering,
            SystemId::Movement,
            SystemId::Animation,
            SystemId::Layering,
            SystemId::HealthIndicator,
            SystemId::MenuButtonFeel,
            SystemId::MenuAction,
        ];
        assert(order@ =~= stage_order());
        let mut r: Vec<SystemId> = Vec::new();
        let mut i: usize = 0;
        while i < order.len()
            invariant
                0 <= i <= order@.len(),
                order@ == stage_order(),
                r@ == self.registered_among(s, order@.subrange(0, i as int)),
            decreases order@.len() - i,
        {
            proof {
                assert(order@.subrange(0, i as int + 1).drop_last() =~= order@.subrange(0, i as int));
            }
            let id = order[i];
            if self.is_registered(s, id) {
                r.push(id);
            }
            i = i + 1;
        }
        assert(order@.subrange(0, i as int) =~= order@);
        r
    }

    pub fn is_registered(&self, s: AppState, id: SystemId) -> (r: bool)
        ensures
            r == self.registers(s, id),
    {
        let mut i: usize = 0;
        while i < self.entries.len()
            invariant
                0 <= i <= self.entries@.len(),
                forall|k: int| 0 <= k < i ==> self.entries@[k] != (s, id),
            decreases self.entries@.len() - i,
        {
            let (t, j) = self.entries[i];
            if t == s && j == id {
                return true;
            }
            i = i + 1;
        }
        false
    }
}

/// Registers the menu systems.
pub struct MenuPlugin;

/// Registers the player's systems: input, animation and layering.
pub struct PlayerControlPlugin;

/// Registers enemy steering and movement.
pub struct EntityMovementPlugin;

/// Registers the health bar update.
pub struct EntityHealthPlugin;

/// Registers every system of a game session.
pub struct GamePlugin;

/// Registers a player-only session: input, movement, layering and
/// animation, without enemies or health.
pub struct PlayerControlledEntityPlugin;

/// The hooks of the menu: spawn it on entering the menu, destroy it on
/// leaving.
pub open spec fn menu_hooks() -> Seq<(Trigger, HookId)> {
    seq![
        (Trigger::OnEnter(AppState::MainMenu), HookId::MenuSetup),
        (Trigger::OnExit(AppState::MainMenu), HookId::DespawnOwned(AppState::MainMenu)),
    ]
}

/// The hooks of a game session: a new session on starting the game from the
/// menu; the game's entities destroyed when a session, running or paused,
/// ends in the menu; the pause's entities destroyed on leaving the pause.
/// Pausing and resuming keep the session.
pub open spec fn session_hooks() -> Seq<(Trigger, HookId)> {
    seq![
        (Trigger::OnTransition(AppState::MainMenu, AppState::Playing), HookId::SessionSetup),
        (Trigger::OnTransition(AppState::Playing, AppState::MainMenu), HookId::DespawnOwned(AppState::Playing)),
        (Trigger::OnExit(AppState::Paused), HookId::DespawnOwned(AppState::Paused)),
        (Trigger::OnTransition(AppState::Paused, AppState::MainMenu), HookId::DespawnOwned(AppState::Playing)),
    ]
}

impl MenuPlugin {
    pub fn build(&self, schedule: &mut Schedule)
        ensures
            final(schedule).hooks@ == old(schedule).hooks@ + menu_hooks(),
            final(schedule).entries@ == old(schedule).entries@ + seq![
                (AppState::MainMenu, SystemId::MenuButtonFeel),
                (AppState::MainMenu, SystemId::MenuAction),
            ],
    {
        schedule.add(AppState::MainMenu, SystemId::MenuButtonFeel);
        schedule.add(AppState::MainMenu, SystemId::MenuAction);
        schedule.add_hook(Trigger::OnEnter(AppState::MainMenu), HookId::MenuSetup);
        schedule.add_hook(Trigger::OnExit(AppState::MainMenu), HookId::DespawnOwned(AppState::MainMenu));
        assert(schedule.entries@ =~= old(schedule).entries@ + seq![
            (AppState::MainMenu, SystemId::MenuButtonFeel),
            (AppState::MainMenu, SystemId::MenuAction),
        ]);
        assert(schedule.hooks@ =~= old(schedule).hooks@ + menu_hooks());
    }
}

impl PlayerControlPlugin {
    pub fn build(&self, schedule: &mut Schedule)
        ensures
            final(schedule).entries@ == old(schedule).entries@ + seq![
                (AppState::Playing, SystemId::KeyboardInput),
                (AppState::Playing, SystemId::Animation),
                (AppState::Playing, SystemId::Layering),
            ],
            final(schedule).hooks@ == old(schedule).hooks@,
    {
        schedule.add(AppState::Playing, SystemId::KeyboardInput);
        schedule.add(AppState::Playing, SystemId::Animation);
        schedule.add(AppState::Playing, SystemId::Layering);
        assert(schedule.entries@ =~= old(schedule).entries@ + seq![
            (AppState::Playing, SystemId::KeyboardInput),
            (AppState::Playing, SystemId::Animation),
            (AppState::Playing, SystemId::Layering),
        ]);
    }
}

impl EntityMovementPlugin {
    pub fn build(&self, schedule: &mut Schedule)
        ensures
            final(schedule).entries@ == old(schedule).entries@ + seq![
                (AppState::Playing, SystemId::EnemySteering),
                (AppState::Playing, SystemId::Movement),
            ],
            final(schedule).hooks@ == old(schedule).hooks@,
    {
        schedule.add(AppState::Playing, SystemId::EnemySteering);
        schedule.add(AppState::Playing, SystemId::Movement);
        assert(schedule.entries@ =~= old(schedule).entries@ + seq![
            (AppState::Playing, SystemId::EnemySteering),
            (AppState::Playing, SystemId::Movement),
        ]);
    }
}

impl EntityHealthPlugin {
    pub fn build(&self, schedule: &mut Schedule)
        ensures
            final(schedule).entries@ == old(schedule).entries@.push((AppState::Playing, SystemId::HealthIndicator)),
            final(schedule).hooks@ == old(schedule).hooks@,
    {
        schedule.add(AppState::Playing, SystemId::HealthIndicator);
    }
}

impl PlayerControlledEntityPlugin {
    pub fn build(&self, schedule: &mut Schedule)
        ensures
            final(schedule).entries@ == old(schedule).entries@ + seq![
                (AppState::Playing, SystemId::Movement),
                (AppState::Playing, SystemId::Layering),
                (AppState::Playing, SystemId::KeyboardInput),
                (AppState::Playing, SystemId::Animation),
            ],
            final(schedule).hooks@ == old(schedule).hooks@,
    {
        schedule.add(AppState::Playing, SystemId::Movement);
        schedule.add(AppState::Playing, SystemId::Layering);
        schedule.add(AppState::Playing, SystemId::KeyboardInput);
        schedule.add(AppState::Playing, SystemId::Animation);
        assert(schedule.entries@ =~= old(schedule).entries@ + seq![
            (AppState::Playing, SystemId::Movement),
            (AppState::Playing, SystemId::Layering),
            (AppState::Playing, SystemId::KeyboardInput),
            (AppState::Playing, SystemId::Animation),
        ]);
    }
}

impl GamePlugin {
    pub fn build(&self, schedule: &mut Schedule)
        ensures
            final(schedule).hooks@ == old(schedule).hooks@ + session_hooks(),
            final(schedule).entries@ == old(schedule).entries@ + seq![
                (AppState::Playing, SystemId::KeyboardInput),
                (AppState::Playing, SystemId::Animation),
                (AppState::Playing, SystemId::Layering),
                (AppState::Playing, SystemId::EnemySteering),
                (AppState::Playing, SystemId::Movement),
                (AppState::Playing, SystemId::HealthIndicator),
            ],
    {
        PlayerControlPlugin.build(schedule);
        EntityMovementPlugin.build(schedule);
        EntityHealthPlugin.build(schedule);
        schedule.add_hook(Trigger::OnTransition(AppState::MainMenu, AppState::Playing), HookId::SessionSetup);
        schedule.add_hook(
            Trigger::OnTransition(AppState::Playing, AppState::MainMenu),
            HookId::DespawnOwned(AppState::Playing),
        );
        schedule.add_hook(Trigger::OnExit(AppState::Paused), HookId::DespawnOwned(AppState::Paused));
        schedule.add_hook(
            Trigger::OnTransition(AppState::Paused, AppState::MainMenu),
            HookId::DespawnOwned(AppState::Playing),
        );
        assert(schedule.hooks@ =~= old(schedule).hooks@ + session_hooks());
        assert(schedule.entries@ =~= old(schedule).entries@ + seq![
            (AppState::Playing, SystemId::KeyboardInput),
            (AppState::Playing, SystemId::Animation),
            (AppState::Playing, SystemId::Layering),
            (AppState::Playing, SystemId::EnemySteering),
            (AppState::Playing, SystemId::Movement),
            (AppState::Playing, SystemId::HealthIndicator),
        ]);
    }
}

} // verus!
