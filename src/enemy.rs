use vstd::prelude::*;

use crate::geometry::{Vec2, COORD_LIMIT, DIRECTION_LIMIT};

verus! {

/// The heading from `from` toward `target`, not normalized.
pub open spec fn heading_toward(from: Vec2, target: Vec2) -> Vec2 {
    Vec2 { x: (target.x - from.x) as i64, y: (target.y - from.y) as i64 }
}

/// Heading that makes an enemy at `enemy` chase a player at `player`.
pub fn steer_towards(enemy: Vec2, player: Vec2) -> (r: Vec2)
    requires
        enemy.within(COORD_LIMIT as int),
        player.within(COORD_LIMIT as int),
    ensures
        r == heading_toward(enemy, player),
        r.within(DIRECTION_LIMIT as int),
{
    player.sub(enemy)
}

} // verus!
