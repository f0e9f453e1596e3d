use vstd::prelude::*;

use crate::geometry::{Vec2, COORD_LIMIT};
use crate::health::{BarWidth, Health};
use crate::movement::{Collidable, LevelFloor, Movable};
use crate::sprite::Animation;
use crate::state::AppState;

verus! {


/// The states whose exit destroys an entity: its own ownership tags and those
/// of all its ancestors.
#[derive(Clone, Copy, Debug, PartialEq, Eq, Structural)]
pub struct Owners {
    pub main_menu: bool,
    pub playing: bool,
    pub paused: bool,
}

/// Role markers of an entity; they combine freely.
#[derive(Clone, Copy, Debug, PartialEq, Eq, Structural)]
pub struct Tags {
    pub player_controlled: bool,
    pub enemy: bool,
    pub irregular_enemy: bool,
    pub layered: bool,
    pub player_health_indicator: bool,
}

/// One entity of the arena with its components. `level_floor` holds the floor
/// size of the level entity; `bar_width` is the drawn width of a health bar.
#[derive(Clone, Copy, Debug, PartialEq, Eq, Structural)]
pub struct Entity {
    pub id: u64,
    pub parent: Option<u64>,
    pub owners: Owners,
    pub tags: Tags,
    pub position: Vec2,
    pub depth: i64,
    pub movable: Option<Movable>,
    pub collider: Option<Collidable>,
    pub level_floor: Option<Vec2>,
    pub animation: Option<Animation>,
    pub health: Option<Health>,
    pub bar_width: BarWidth,
}

/// The entity arena. Entities are kept in order of creation; a parent is
/// always created before its children.
pub struct World {
    pub entities: Vec<Entity>,
    pub next_id: u64,
}

impl Owners {
    pub open spec fn includes(self, s: AppState) -> bool {
        match s {
            AppState::MainMenu => self.main_menu,
            AppState::Playing => self.playing,
            AppState::Paused => self.paused,
        }
    }

    pub open spec fn subset_of(self, o: Owners) -> bool {
        (self.main_menu ==> o.main_menu) && (self.playing ==> o.playing) && (self.paused ==> o.paused)
    }

    pub open spec fn union(self, o: Owners) -> Owners {
        Owners {
            main_menu: self.main_menu || o.main_menu,
            playing: self.playing || o.playing,
            paused: self.paused || o.paused,
        }
    }

    /// Owned by state `s` alone.
    pub open spec fn single(s: AppState) -> Owners {
        Owners {
            main_menu: s == AppState::MainMenu,
            playing: s == AppState::Playing,
            paused: s == AppState::Paused,
        }
    }

    /// Owned by no state.
    pub fn none() -> (r: Owners)
        ensures
            r == (Owners { main_menu: false, playing: false, paused: false }),
            forall|s: AppState| !r.includes(s),
    {
        Owners { main_menu: false, playing: false, paused: false }
    }

    /// Owned by state `s` alone.
    pub fn only(s: AppState) -> (r: Owners)
        ensures
            r == Owners::single(s),
            forall|t: AppState| r.includes(t) <==> t == s,
    {
        match s {
            AppState::MainMenu => Owners { main_menu: true, playing: false, paused: false },
            AppState::Playing => Owners { main_menu: false, playing: true, paused: false },
            AppState::Paused => Owners { main_menu: false, playing: false, paused: true },
        }
    }

    pub fn contains(&self, s: AppState) -> (r: bool)
        ensures
            r == self.includes(s),
    {
        match s {
            AppState::MainMenu => self.main_menu,
            AppState::Playing => self.playing,
            AppState::Paused => self.paused,
        }
    }

    pub fn merged(&self, o: &Owners) -> (r: Owners)
        ensures
            r == self.union(*o),
    {
        Owners {
            main_menu: self.main_menu || o.main_menu,
            playing: self.playing || o.playing,
            paused: self.paused || o.paused,
        }
    }
}

impl Tags {
    pub fn none() -> (r: Tags)
        ensures
            r == (Tags {
                player_controlled: false,
                enemy: false,
                irregular_enemy: false,
                layered: false,
                player_health_indicator: false,
            }),
    {
        Tags {
            player_controlled: false,
            enemy: false,
            irregular_enemy: false,
            layered: false,
            player_health_indicator: false,
        }
    }
}

impl Entity {
    /// Components hold their own invariants; the position is in range; the
    /// level floor does not move.
    pub open spec fn wf(self) -> bool {
        &&& self.position.within(COORD_LIMIT as int)
        &&& (self.movable matches Some(m) ==> m.wf())
        &&& (self.collider matches Some(c) ==> c.wf())
        &&& (self.level_floor matches Some(size) ==> (LevelFloor { position: self.position, size }).wf()
            && self.movable is None)
        &&& (self.animation matches Some(a) ==> a.wf())
        &&& (self.health matches Some(h) ==> h.wf())
    }

    /// A bare entity at `position`, with no component, tag or owner.
    pub fn at(position: Vec2) -> (r: Entity)
        requires
            position.within(COORD_LIMIT as int),
        ensures
            r.wf(),
            r == bare(position),
    {
        Entity {
            id: 0,
            parent: None,
            owners: Owners::none(),
            tags: Tags::none(),
            position,
            depth: 0,
            movable: None,
            collider: None,
            level_floor: None,
            animation: None,
            health: None,
            bar_width: BarWidth::whole(0),
        }
    }
}

/// A bare entity at `p`.
pub open spec fn bare(p: Vec2) -> Entity {
    Entity {
        id: 0,
        parent: None,
        owners: Owners { main_menu: false, playing: false, paused: false },
        tags: Tags {
            player_controlled: false,
            enemy: false,
            irregular_enemy: false,
            layered: false,
            player_health_indicator: false,
        },
        position: p,
        depth: 0,
        movable: None,
        collider: None,
        level_floor: None,
        animation: None,
        health: None,
        bar_width: BarWidth { num: 0, den: 1 },
    }
}

/// The entities of `s` that the exit from state `st` leaves alive, in order.
pub open spec fn survivors(s: Seq<Entity>, st: AppState) -> Seq<Entity>
    decreases s.len(),
{
    if s.len() == 0 {
        s
    } else {
        let rest = survivors(s.drop_last(), st);
        if s.last().owners.includes(st) { rest } else { rest.push(s.last()) }
    }
}

/// Number of entities of `s` owned (directly or through an ancestor) by `st`.
pub open spec fn owned_count(s: Seq<Entity>, st: AppState) -> nat
    decreases s.len(),
{
    if s.len() == 0 {
        0
    } else {
        owned_count(s.drop_last(), st) + if s.last().owners.includes(st) { 1nat } else { 0nat }
    }
}

/// Every survivor of the exit from `st` comes from `s` and is not owned by `st`.
pub proof fn lemma_survivors_members(s: Seq<Entity>, st: AppState)
    ensures
        forall|i: int| 0 <= i < survivors(s, st).len() ==>
            !(#[trigger] survivors(s, st)[i]).owners.includes(st) && s.contains(survivors(s, st)[i]),
        survivors(s, st).len() <= s.len(),
    decreases s.len(),
{
    if s.len() > 0 {
        lemma_survivors_members(s.drop_last(), st);
        let rest = survivors(s.drop_last(), st);
        assert forall|i: int| 0 <= i < survivors(s, st).len() implies
            !(#[trigger] survivors(s, st)[i]).owners.includes(st) && s.contains(survivors(s, st)[i]) by {
            if i < rest.len() {
                assert(s.drop_last().contains(rest[i]));
                let j = choose|j: int| 0 <= j < s.drop_last().len() && s.drop_last()[j] == rest[i];
                assert(s[j] == rest[i]);
            } else {
                assert(s[s.len() - 1] == s.last());
            }
        }
    }
}

/// Once the entities owned by `st` are destroyed, none owned by `st` is left.
pub proof fn lemma_no_owned_survivor(s: Seq<Entity>, st: AppState)
    ensures
        owned_count(survivors(s, st), st) == 0,
    decreases s.len(),
{
    if s.len() > 0 {
        lemma_no_owned_survivor(s.drop_last(), st);
        let rest = survivors(s.drop_last(), st);
        if !s.last().owners.includes(st) {
            assert(rest.push(s.last()).drop_last() =~= rest);
        }
    }
}

impl World {
    pub open spec fn wf(self) -> bool {
        arena_wf(self.entities@, self.next_id)
    }

    /// An empty world.
    pub fn new() -> (r: World)
        ensures
            r.wf(),
            r.entities@.len() == 0,
            r.next_id == 0,
    {
        World { entities: Vec::new(), next_id: 0 }
    }

    /// Index of the entity with the given id.
    pub fn find(&self, id: u64) -> (r: Option<usize>)
        requires
            self.wf(),
        ensures
            r matches Some(i) ==> i < self.entities@.len() && self.entities@[i as int].id == id,
            r is None ==> forall|i: int| 0 <= i < self.entities@.len() ==> (#[trigger] self.entities@[i]).id != id,
    {
        let mut i: usize = 0;
        while i < self.entities.len()
            invariant
                0 <= i <= self.entities@.len(),
                forall|k: int| 0 <= k < i ==> (#[trigger] self.entities@[k]).id != id,
            decreases self.entities@.len() - i,
        {
            if self.entities[i].id == id {
                return Some(i);
            }
            i = i + 1;
        }
        None
    }

    /// Adds `e` as a root entity; returns its id, or `None` (and changes
    /// nothing) when ids are exhausted.
    pub fn spawn(&mut self, e: Entity) -> (r: Option<u64>)
        requires
            old(self).wf(),
            e.wf(),
        ensures
            final(self).wf(),
            old(self).next_id < u64::MAX ==> r == Some(old(self).next_id) && final(self).entities@
                == old(self).entities@.push(Entity { id: old(self).next_id, parent: None, ..e })
                && final(self).next_id == old(self).next_id + 1,
            old(self).next_id == u64::MAX ==> r is None && final(self).entities@ == old(self).entities@
                && final(self).next_id == old(self).next_id,
    {
        if self.next_id == u64::MAX {
            return None;
        }
        let id = self.next_id;
        self.entities.push(Entity { id, parent: None, ..e });
        self.next_id = id + 1;
        Some(id)
    }

    /// Adds `e` as a child of entity `parent`; the child is also owned by
    /// every state that owns the parent. Returns its id, or `None` (and
    /// changes nothing) when the parent is missing or ids are exhausted.
    pub fn spawn_child(&mut self, parent: u64, e: Entity) -> (r: Option<u64>)
        requires
            old(self).wf(),
            e.wf(),
        ensures
            final(self).wf(),
            r is None ==> final(self).entities@ == old(self).entities@ && final(self).next_id == old(self).next_id,
            r is Some ==> final(self).next_id == old(self).next_id + 1,
            (old(self).next_id < u64::MAX && exists|j: int|
                0 <= j < old(self).entities@.len() && (#[trigger] old(self).entities@[j]).id == parent) ==> r
                == Some(old(self).next_id),
            r matches Some(id) ==> id == old(self).next_id && exists|j: int|
                0 <= j < old(self).entities@.len() && (#[trigger] old(self).entities@[j]).id == parent
                    && final(self).entities@ == old(self).entities@.push(
                    Entity { id, parent: Some(parent), owners: e.owners.union(old(self).entities@[j].owners), ..e },
                ),
    {
        let found = self.find(parent);
        match found {
            None => None,
            Some(j) => {
                if self.next_id == u64::MAX {
                    return None;
                }
                let id = self.next_id;
                let owners = e.owners.merged(&self.entities[j].owners);
                let ghost before = self.entities@;
                self.entities.push(Entity { id, parent: Some(parent), owners, ..e });
                self.next_id = id + 1;
                proof {
                    let s = self.entities@;
                    assert forall|a: int, b: int|
                        0 <= a < s.len() && 0 <= b < s.len() && (#[trigger] s[a]).parent == Some((#[trigger] s[b]).id)
                            implies s[b].owners.subset_of(s[a].owners) by {
                        if a == s.len() - 1 {
                            assert(s[b].id == parent);
                            if b != j as int {
                                if b < j as int {
                                    assert(before[b].id < before[j as int].id);
                                } else if b < before.len() {
                                    assert(before[j as int].id < before[b].id);
                                }
                            }
                        } else {
                            assert(s[a] == before[a]);
                            if b == s.len() - 1 {
                                assert(before[a].parent->0 < before[a].id);
                            }
                        }
                    }
                }
                Some(id)
            }
        }
    }

    /// Number of entities owned, directly or through an ancestor, by `st`.
    pub fn count_owned(&self, st: AppState) -> (r: usize)
        ensures
            r == owned_count(self.entities@, st),
    {
        let mut n: usize = 0;
        let mut i: usize = 0;
        while i < self.entities.len()
            invariant
                0 <= i <= self.entities@.len(),
                n <= i,
                n == owned_count(self.entities@.subrange(0, i as int), st),
            decreases self.entities@.len() - i,
        {
            proof {
                assert(self.entities@.subrange(0, i as int + 1).drop_last() =~= self.entities@.subrange(0, i as int));
            }
            if self.entities[i].owners.contains(st) {
                n = n + 1;
            }
            i = i + 1;
        }
        assert(self.entities@.subrange(0, i as int) =~= self.entities@);
        n
    }

    /// Destroys every entity owned by `st`, with all its descendants, keeping
    /// the others in order.
    pub fn despawn_owned(&mut self, st: AppState)
        requires
            old(self).wf(),
        ensures
            final(self).wf(),
            final(self).next_id == old(self).next_id,
            final(self).entities@ == survivors(old(self).entities@, st),
    {
        let ghost s = self.entities@;
        let mut kept: Vec<Entity> = Vec::new();
        let mut i: usize = 0;
        while i < self.entities.len()
            invariant
                0 <= i <= s.len(),
                self.entities@ == s,
                kept@ == survivors(s.subrange(0, i as int), st),
            decreases s.len() - i,
        {
            proof {
                assert(s.subrange(0, i as int + 1).drop_last() =~= s.subrange(0, i as int));
            }
            let e = self.entities[i];
            if !e.owners.contains(st) {
                kept.push(e);
            }
            i = i + 1;
        }
        assert(s.subrange(0, i as int) =~= s);
        self.entities = kept;
        proof {
            lemma_survivors_wf(s, self.next_id, st);
        }
    }
}

/// The arena invariant over a sequence of entities: components hold their
/// invariants, ids are increasing and below `next_id`, a parent id is smaller
/// than its child's, and a child is owned by every state owning its parent.
pub open spec fn arena_wf(s: Seq<Entity>, next_id: u64) -> bool {
    &&& forall|i: int| 0 <= i < s.len() ==> (#[trigger] s[i]).wf()
    &&& forall|i: int| 0 <= i < s.len() ==> (#[trigger] s[i]).id < next_id
    &&& forall|i: int, j: int| 0 <= i < j < s.len() ==> (#[trigger] s[i]).id < (#[trigger] s[j]).id
    &&& forall|i: int| 0 <= i < s.len() && (#[trigger] s[i]).parent is Some ==> s[i].parent->0 < s[i].id
    &&& forall|i: int, j: int|
        0 <= i < s.len() && 0 <= j < s.len() && (#[trigger] s[i]).parent == Some((#[trigger] s[j]).id)
            ==> s[j].owners.subset_of(s[i].owners)
}

/// Destroying the entities owned by a state keeps the arena invariant.
pub proof fn lemma_survivors_wf(s: Seq<Entity>, next_id: u64, st: AppState)
    requires
        arena_wf(s, next_id),
    ensures
        arena_wf(survivors(s, st), next_id),
    decreases s.len(),
{
    if s.len() > 0 {
        let d = s.drop_last();
        assert(arena_wf(d, next_id)) by {
            assert forall|i: int, j: int|
                0 <= i < d.len() && 0 <= j < d.len() && (#[trigger] d[i]).parent == Some((#[trigger] d[j]).id)
                    implies d[j].owners.subset_of(d[i].owners) by {
                assert(d[i] == s[i] && d[j] == s[j]);
            }
            assert forall|i: int, j: int| 0 <= i < j < d.len() implies (#[trigger] d[i]).id < (#[trigger] d[j]).id by {
                assert(d[i] == s[i] && d[j] == s[j]);
            }
        }
        lemma_survivors_wf(d, next_id, st);
        lemma_survivors_members(d, st);
        let rest = survivors(d, st);
        let last = s.last();
        assert(last == s[s.len() - 1]);
        if !last.owners.includes(st) {
            let r = rest.push(last);
            assert forall|i: int| 0 <= i < rest.len() implies (#[trigger] rest[i]).id < last.id by {
                let j = choose|j: int| 0 <= j < d.len() && d[j] == rest[i];
                assert(d[j] == s[j]);
            }
            assert forall|i: int, j: int|
                0 <= i < r.len() && 0 <= j < r.len() && (#[trigger] r[i]).parent == Some((#[trigger] r[j]).id)
                    implies r[j].owners.subset_of(r[i].owners) by {
                if i < rest.len() && j < rest.len() {
                    assert(r[i] == rest[i] && r[j] == rest[j]);
                } else if i < rest.len() {
                    assert(r[i] == rest[i]);
                    let k = choose|k: int| 0 <= k < d.len() && d[k] == rest[i];
                    assert(d[k] == s[k]);
                } else if j < rest.len() {
                    assert(r[j] == rest[j]);
                    let k = choose|k: int| 0 <= k < d.len() && d[k] == rest[j];
                    assert(d[k] == s[k]);
                }
            }
            assert forall|i: int, j: int| 0 <= i < j < r.len() implies (#[trigger] r[i]).id < (#[trigger] r[j]).id by {
                if j < rest.len() {
                    assert(r[i] == rest[i] && r[j] == rest[j]);
                } else {
                    assert(r[i] == rest[i]);
                }
            }
            assert forall|i: int| 0 <= i < r.len() implies (#[trigger] r[i]).wf() && r[i].id < next_id by {
                if i < rest.len() {
                    assert(r[i] == rest[i]);
                }
            }
            assert forall|i: int| 0 <= i < r.len() && (#[trigger] r[i]).parent is Some implies r[i].parent->0 < r[i].id by {
                if i < rest.len() {
                    assert(r[i] == rest[i]);
                }
            }
        }
    }
}

} // verus!
