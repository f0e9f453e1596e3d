use vstd::prelude::*;

use crate::geometry::Vec2;
use crate::movement::MAX_DELTA_MS;
use bevy::time::{Timer, TimerMode};
use std::time::Duration;

verus! {

/// Longest animation interval, in milliseconds.
pub const MAX_INTERVAL_MS: u64 = 1_000_000_000;

/// Height of the level that layering depth is measured against: 2000 world
/// units, in sub-units.
pub const LEVEL_HEIGHT: i64 = 131_072_000_000;

/// Interval of the animation timer, in milliseconds.
pub const FRAME_INTERVAL_MS: u64 = 100;

/// Horizontal orientation of a sprite.
#[derive(Clone, Copy, Debug, PartialEq, Eq, Structural)]
pub enum FacingDirection {
    East,
    West,
}

/// A repeating timer: `elapsed_ms` of the current interval of `duration_ms`.
#[derive(Clone, Copy, Debug, PartialEq, Eq, Structural)]
pub struct AnimationTimer {
    pub duration_ms: u64,
    pub elapsed_ms: u64,
}

/// The visible frame of a sprite sheet and whether it is mirrored.
#[derive(Clone, Copy, Debug, PartialEq, Eq, Structural)]
pub struct SpriteFrame {
    pub index: u64,
    pub flip_x: bool,
}

/// Animation state of an entity: facing, timer, current frame, and the number
/// of frames of its sprite sheet.
#[derive(Clone, Copy, Debug, PartialEq, Eq, Structural)]
pub struct Animation {
    pub facing: FacingDirection,
    pub timer: AnimationTimer,
    pub sprite: SpriteFrame,
    pub frame_count: u64,
}

impl AnimationTimer {
    pub open spec fn wf(self) -> bool {
        0 < self.duration_ms <= MAX_INTERVAL_MS && self.elapsed_ms < self.duration_ms
    }

    /// Whether a tick of `delta_ms` completes at least one interval.
    pub open spec fn fires(self, delta_ms: u64) -> bool {
        self.elapsed_ms + delta_ms >= self.duration_ms
    }

    /// The timer after a tick of `delta_ms`: completed intervals wrap around.
    pub open spec fn ticked(self, delta_ms: u64) -> AnimationTimer {
        AnimationTimer {
            duration_ms: self.duration_ms,
            elapsed_ms: ((self.elapsed_ms + delta_ms) % (self.duration_ms as int)) as u64,
        }
    }

    /// A repeating timer with the given interval, at its start.
    pub fn from_millis(duration_ms: u64) -> (r: AnimationTimer)
        requires
            0 < duration_ms <= MAX_INTERVAL_MS,
        ensures
            r.wf(),
            r.duration_ms == duration_ms,
            r.elapsed_ms == 0,
    {
        AnimationTimer { duration_ms, elapsed_ms: 0 }
    }

    /// Advances the timer; returns whether an interval completed (the timer
    /// "just finished"). Several completed intervals still count once.
    pub fn tick(&mut self, delta_ms: u64) -> (just_finished: bool)
        requires
            old(self).wf(),
            delta_ms <= MAX_DELTA_MS,
        ensures
            final(self).wf(),
            *final(self) == old(self).ticked(delta_ms),
            just_finished == old(self).fires(delta_ms),
    {
        let (elapsed_ms, just_finished) = repeating_timer_tick(self.duration_ms, self.elapsed_ms, delta_ms);
        self.elapsed_ms = elapsed_ms;
        just_finished
    }
}

/// Relies on bevy's repeating `Timer` (`Timer::new`, `set_elapsed`, `tick`,
/// `elapsed`, `just_finished`): a tick adds `delta` to the elapsed time; once
/// that reaches the duration the timer has just finished and keeps the
/// elapsed time modulo the duration. Returns the new elapsed time and whether
/// the timer just finished.
#[verifier::external_body]
fn repeating_timer_tick(duration_ms: u64, elapsed_ms: u64, delta_ms: u64) -> (r: (u64, bool))
    requires
        0 < duration_ms <= MAX_INTERVAL_MS,
        elapsed_ms < duration_ms,
        delta_ms <= MAX_DELTA_MS,
    ensures
        r.0 == (elapsed_ms + delta_ms) % (duration_ms as int),
        r.1 == (elapsed_ms + delta_ms >= duration_ms),
{
    let mut timer = Timer::new(Duration::from_millis(duration_ms), TimerMode::Repeating);
    timer.set_elapsed(Duration::from_millis(elapsed_ms));
    timer.tick(Duration::from_millis(delta_ms));
    (timer.elapsed().as_millis() as u64, timer.just_finished())
}

/// Facing after a frame change with horizontal heading `x`: east for a
/// positive heading, west for a negative one, unchanged for zero.
pub open spec fn facing_for(facing: FacingDirection, x: i64) -> FacingDirection {
    if x > 0 {
        FacingDirection::East
    } else if x < 0 {
        FacingDirection::West
    } else {
        facing
    }
}

impl Animation {
    pub open spec fn wf(self) -> bool {
        &&& self.timer.wf()
        &&& 0 < self.frame_count
        &&& self.sprite.index < self.frame_count
    }

    /// The state after one tick of `delta_ms` with heading `direction`. When
    /// the timer fires: facing follows the sign of the horizontal heading; a
    /// zero heading shows frame 0; any other heading advances one frame (modulo
    /// the frame count) and mirrors the sprite when facing west.
    pub open spec fn stepped(self, direction: Vec2, delta_ms: u64) -> Animation {
        let timer = self.timer.ticked(delta_ms);
        if !self.timer.fires(delta_ms) {
            Animation { timer, ..self }
        } else {
            let facing = facing_for(self.facing, direction.x);
            if direction.is_zero() {
                Animation { timer, facing, sprite: SpriteFrame { index: 0, ..self.sprite }, ..self }
            } else {
                Animation {
                    timer,
                    facing,
                    sprite: SpriteFrame {
                        index: ((self.sprite.index + 1) % (self.frame_count as int)) as u64,
                        flip_x: facing == FacingDirection::West,
                    },
                    ..self
                }
            }
        }
    }

    /// A fresh animation facing east on frame 0.
    pub fn new(frame_count: u64, interval_ms: u64) -> (r: Animation)
        requires
            frame_count > 0,
            0 < interval_ms <= MAX_INTERVAL_MS,
        ensures
            r.wf(),
            r.facing == FacingDirection::East,
            r.sprite == (SpriteFrame { index: 0, flip_x: false }),
            r.frame_count == frame_count,
            r.timer == (AnimationTimer { duration_ms: interval_ms, elapsed_ms: 0 }),
    {
        Animation {
            facing: FacingDirection::East,
            timer: AnimationTimer::from_millis(interval_ms),
            sprite: SpriteFrame { index: 0, flip_x: false },
            frame_count,
        }
    }

    /// Advances the animation by one tick; position and heading are only read.
    pub fn animate(&mut self, direction: Vec2, delta_ms: u64)
        requires
            old(self).wf(),
            delta_ms <= MAX_DELTA_MS,
        ensures
            final(self).wf(),
            *final(self) == old(self).stepped(direction, delta_ms),
    {
        let fired = self.timer.tick(delta_ms);
        if fired {
            if direction.x > 0 {
                self.facing = FacingDirection::East;
            } else if direction.x < 0 {
                self.facing = FacingDirection::West;
            }
            if direction.x == 0 && direction.y == 0 {
                self.sprite.index = 0;
            } else {
                self.sprite.index = (self.sprite.index + 1) % self.frame_count;
                self.sprite.flip_x = match self.facing {
                    FacingDirection::East => false,
                    FacingDirection::West => true,
                };
            }
        }
    }
}

/// The state after ticks of the given lengths, with a fixed heading.
pub open spec fn animated(a: Animation, direction: Vec2, deltas: Seq<u64>) -> Animation
    decreases deltas.len(),
{
    if deltas.len() == 0 {
        a
    } else {
        animated(a, direction, deltas.drop_last()).stepped(direction, deltas.last())
    }
}

/// An entity at rest (zero heading) that shows frame 0 keeps showing frame 0,
/// however many ticks pass.
pub proof fn lemma_idle_frame_stays_zero(a: Animation, deltas: Seq<u64>)
    requires
        a.sprite.index == 0,
    ensures
        animated(a, Vec2 { x: 0, y: 0 }, deltas).sprite.index == 0,
    decreases deltas.len(),
{
    if deltas.len() > 0 {
        lemma_idle_frame_stays_zero(a, deltas.drop_last());
    }
}

/// A moving entity advances exactly one frame (modulo the frame count) on a
/// tick that completes the timer interval, and none on any other tick.
pub proof fn lemma_moving_advances_once(a: Animation, direction: Vec2, delta_ms: u64)
    requires
        !direction.is_zero(),
    ensures
        a.stepped(direction, delta_ms).sprite.index == if a.timer.fires(delta_ms) {
            ((a.sprite.index + 1) % (a.frame_count as int)) as u64
        } else {
            a.sprite.index
        },
{
}

/// Facing follows the sign of the horizontal heading when the timer fires,
/// and never changes otherwise.
pub proof fn lemma_facing_follows_heading(a: Animation, direction: Vec2, delta_ms: u64)
    ensures
        a.stepped(direction, delta_ms).facing == if a.timer.fires(delta_ms) {
            facing_for(a.facing, direction.x)
        } else {
            a.facing
        },
{
}

/// A zero horizontal heading keeps the facing, however many ticks pass.
pub proof fn lemma_facing_kept_without_horizontal_heading(a: Animation, direction: Vec2, deltas: Seq<u64>)
    requires
        direction.x == 0,
    ensures
        animated(a, direction, deltas).facing == a.facing,
    decreases deltas.len(),
{
    if deltas.len() > 0 {
        lemma_facing_kept_without_horizontal_heading(a, direction, deltas.drop_last());
    }
}

/// Draw depth from vertical position: `0.5 - y / LEVEL_HEIGHT`, expressed in
/// units of `1 / LEVEL_HEIGHT`, so that it is exact.
pub open spec fn depth_for(y: int) -> int {
    LEVEL_HEIGHT / 2 - y
}

/// Draw depth of an entity at height `y`, in units of `1 / LEVEL_HEIGHT`.
pub fn layer_depth(y: i64) -> (r: i64)
    requires
        -crate::geometry::COORD_LIMIT <= y <= crate::geometry::COORD_LIMIT,
    ensures
        r == depth_for(y as int),
{
    LEVEL_HEIGHT / 2 - y
}

} // verus!
