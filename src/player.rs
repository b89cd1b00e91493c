use crate::combat::{CollisionGroups, PLAYER_GROUP, POWERUP_GROUP};
use crate::geometry::Position;
use crate::resource_pool::{Fire, Health, ResourcePool};
use vstd::prelude::*;

verus! {

/// Fire charge and hit points the player starts with.
pub const PLAYER_FIRE: u16 = 100;
pub const PLAYER_HEALTH: u16 = 100;

/// Marker of the player entity.
#[derive(Clone, Copy, Debug, PartialEq, Eq, Structural)]
pub struct Player;

/// Everything the player is made of.
pub struct PlayerBundle {
    pub fire_breath_resource: ResourcePool<Fire>,
    pub hitpoints: ResourcePool<Health>,
    pub score: u64,
    pub marker: Player,
    pub translation: Position,
    pub collision_groups: CollisionGroups,
}

impl PlayerBundle {
    pub open spec fn wf(&self) -> bool {
        self.fire_breath_resource.wf() && self.hitpoints.wf()
    }

    /// The player as the game starts: full pools, no score, at the origin.
    pub open spec fn is_start(&self) -> bool {
        &&& self.wf()
        &&& self.fire_breath_resource.amount_spec() == PLAYER_FIRE
        &&& self.fire_breath_resource.max_spec() == PLAYER_FIRE
        &&& self.hitpoints.amount_spec() == PLAYER_HEALTH
        &&& self.hitpoints.max_spec() == PLAYER_HEALTH
        &&& self.score == 0
        &&& self.translation == (Position { x: 0, y: 0 })
        &&& self.collision_groups == (CollisionGroups {
            memberships: PLAYER_GROUP,
            filters: PLAYER_GROUP | POWERUP_GROUP,
        })
    }

    /// The player as the game starts.
    pub fn new() -> (r: Self)
        ensures
            r.is_start(),
    {
        PlayerBundle {
            fire_breath_resource: ResourcePool::new(PLAYER_FIRE),
            hitpoints: ResourcePool::new(PLAYER_HEALTH),
            score: 0,
            marker: Player,
            translation: Position { x: 0, y: 0 },
            collision_groups: CollisionGroups::new(PLAYER_GROUP, PLAYER_GROUP | POWERUP_GROUP),
        }
    }
}

} // verus!
