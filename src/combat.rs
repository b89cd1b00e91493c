use crate::geometry::Position;
use vstd::prelude::*;

verus! {

/// Speed, in world units per second, of every projectile an enemy fires.
pub const PROJECTILE_SPEED: u32 = 1000;

/// Length of the direction vectors that events carry: a direction is a unit
/// vector scaled by this factor, each component rounded toward zero.
pub const DIRECTION_SCALE: u32 = 1000;

/// A direction: a unit vector scaled by `DIRECTION_SCALE`.
#[derive(Clone, Copy, Debug, PartialEq, Eq, Structural)]
pub struct Direction {
    pub x: i64,
    pub y: i64,
}

/// A request to launch a projectile.
#[derive(Clone, Copy, Debug, PartialEq, Eq, Structural)]
pub struct SpawnProjectileEvent {
    pub damage: i16,
    pub direction: Direction,
    /// Index of the enemy that fired it.
    pub emitter: usize,
    pub origin: Position,
    pub speed: u32,
}

impl SpawnProjectileEvent {
    pub fn new(damage: i16, direction: Direction, emitter: usize, origin: Position, speed: u32) -> (r: Self)
        ensures
            r == (SpawnProjectileEvent { damage, direction, emitter, origin, speed }),
    {
        SpawnProjectileEvent { damage, direction, emitter, origin, speed }
    }
}

/// Collision categories, one bit each.
pub const PLAYER_GROUP: u32 = 1;
pub const ENEMY_GROUP: u32 = 2;
pub const POWERUP_GROUP: u32 = 4;
pub const BUILDING_GROUP: u32 = 8;
pub const FIRE_BREATH_GROUP: u32 = 16;

/// The categories a collider belongs to and those it may touch.
#[derive(Clone, Copy, Debug, PartialEq, Eq, Structural)]
pub struct CollisionGroups {
    pub memberships: u32,
    pub filters: u32,
}

impl CollisionGroups {
    pub fn new(memberships: u32, filters: u32) -> (r: Self)
        ensures
            r.memberships == memberships,
            r.filters == filters,
    {
        CollisionGroups { memberships, filters }
    }

    /// Two colliders interact when each belongs to a category the other
    /// accepts.
    pub open spec fn interacts_spec(&self, other: &CollisionGroups) -> bool {
        self.memberships & other.filters != 0 && other.memberships & self.filters != 0
    }

    pub fn interacts(&self, other: &CollisionGroups) -> (r: bool)
        ensures
            r == self.interacts_spec(other),
    {
        self.memberships & other.filters != 0 && other.memberships & self.filters != 0
    }
}

} // verus!
