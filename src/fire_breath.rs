use crate::combat::{CollisionGroups, BUILDING_GROUP, ENEMY_GROUP, FIRE_BREATH_GROUP};
use crate::geometry::Position;
use crate::resource_pool::{added, subtracted, Fire, ResourcePool};
use vstd::prelude::*;

verus! {

/// Fire charge spent on each tick that fire breath is spawned.
pub const FIRE_BREATH_CONSUMPTION_RATIO: u16 = 1;

/// Fire charge regained on each tick that no fire breath is spawned.
pub const FIRE_BREATH_RESTORATION_RATIO: u16 = 1;

/// Radius, in world units, of the area a fire breath burns.
pub const FIRE_BREATH_RADIUS: u32 = 25;

/// Microseconds a fire breath lasts before it removes itself.
pub const FIRE_BREATH_LIFETIME: u64 = 1_000_000;

/// A request to breathe fire at a position.
#[derive(Clone, Copy, Debug, PartialEq, Eq, Structural)]
pub struct SpawnFireBreathEvent {
    pub damage: i16,
    pub position: Position,
}

impl SpawnFireBreathEvent {
    pub fn new(damage: i16, position: Position) -> (r: Self)
        ensures
            r == (SpawnFireBreathEvent { damage, position }),
    {
        SpawnFireBreathEvent { damage, position }
    }
}

/// A short-lived burning area: a sensor that damages enemies and buildings.
#[derive(Clone, Copy, Debug, PartialEq, Eq, Structural)]
pub struct FireBreathBundle {
    pub damage: i16,
    pub position: Position,
    pub radius: u32,
    pub lifetime: u64,
    pub collision_groups: CollisionGroups,
}

/// The area spawned for one event.
pub open spec fn fire_breath_for(ev: SpawnFireBreathEvent) -> FireBreathBundle {
    FireBreathBundle {
        damage: ev.damage,
        position: ev.position,
        radius: FIRE_BREATH_RADIUS,
        lifetime: FIRE_BREATH_LIFETIME,
        collision_groups: CollisionGroups {
            memberships: FIRE_BREATH_GROUP,
            filters: BUILDING_GROUP | ENEMY_GROUP,
        },
    }
}

/// Spawns one burning area per event, in order, unless the fire pool is
/// empty, in which case nothing is spawned.
pub fn spawn_fire_breath(pool: &ResourcePool<Fire>, events: &Vec<SpawnFireBreathEvent>) -> (r: Vec<FireBreathBundle>)
    ensures
        pool.amount_spec() == 0 ==> r@.len() == 0,
        pool.amount_spec() != 0 ==> r@.len() == events@.len(),
        pool.amount_spec() != 0 ==> forall|i: int| 0 <= i < events@.len() ==> r@[i] == fire_breath_for(events@[i]),
{
    let mut out: Vec<FireBreathBundle> = Vec::new();
    if pool.is_empty() {
        return out;
    }
    let mut i: usize = 0;
    while i < events.len()
        invariant
            i <= events@.len(),
            out@.len() == i,
            forall|j: int| 0 <= j < i ==> out@[j] == fire_breath_for(events@[j]),
        decreases events@.len() - i,
    {
        let ev = events[i];
        out.push(FireBreathBundle {
            damage: ev.damage,
            position: ev.position,
            radius: FIRE_BREATH_RADIUS,
            lifetime: FIRE_BREATH_LIFETIME,
            collision_groups: CollisionGroups::new(FIRE_BREATH_GROUP, BUILDING_GROUP | ENEMY_GROUP),
        });
        i = i + 1;
    }
    out
}

/// Spends fire charge when fire breath was spawned this tick.
pub fn consume_fire_breath_resource(pool: &mut ResourcePool<Fire>, events: &Vec<SpawnFireBreathEvent>)
    requires
        old(pool).wf(),
    ensures
        final(pool).wf(),
        final(pool).max_spec() == old(pool).max_spec(),
        final(pool).amount_spec() == if events@.len() > 0 {
            subtracted(old(pool).amount_spec(), FIRE_BREATH_CONSUMPTION_RATIO as int)
        } else {
            old(pool).amount_spec()
        },
{
    if !events.is_empty() {
        pool.subtract(FIRE_BREATH_CONSUMPTION_RATIO);
    }
}

/// Regains fire charge when no fire breath was spawned this tick.
pub fn restore_fire_breath_resource(pool: &mut ResourcePool<Fire>, events: &Vec<SpawnFireBreathEvent>)
    requires
        old(pool).wf(),
    ensures
        final(pool).wf(),
        final(pool).max_spec() == old(pool).max_spec(),
        final(pool).amount_spec() == if events@.len() == 0 {
            added(old(pool).amount_spec(), old(pool).max_spec(), FIRE_BREATH_RESTORATION_RATIO as int)
        } else {
            old(pool).amount_spec()
        },
{
    if events.is_empty() {
        pool.add(FIRE_BREATH_RESTORATION_RATIO);
    }
}

/// The fire charge after one tick: drained when fire breath was spawned,
/// regained otherwise.
pub open spec fn fire_after_tick(amount: int, max: int, spawned: bool) -> int {
    if spawned {
        subtracted(amount, FIRE_BREATH_CONSUMPTION_RATIO as int)
    } else {
        added(amount, max, FIRE_BREATH_RESTORATION_RATIO as int)
    }
}

/// The fire charge after a run of ticks; `spawned[t]` says whether fire
/// breath was spawned at tick `t`.
pub open spec fn fire_after_ticks(amount: int, max: int, spawned: Seq<bool>) -> int
    decreases spawned.len(),
{
    if spawned.len() == 0 {
        amount
    } else {
        fire_after_tick(fire_after_ticks(amount, max, spawned.drop_last()), max, spawned.last())
    }
}

/// The fire-charge step of one tick: exactly one of draining and regaining
/// applies, decided by whether any fire-breath event was sent.
pub fn update_fire_breath_resource(pool: &mut ResourcePool<Fire>, events: &Vec<SpawnFireBreathEvent>)
    requires
        old(pool).wf(),
    ensures
        final(pool).wf(),
        final(pool).max_spec() == old(pool).max_spec(),
        final(pool).amount_spec() == fire_after_tick(old(pool).amount_spec(), old(pool).max_spec(), events@.len() > 0),
{
    consume_fire_breath_resource(pool, events);
    restore_fire_breath_resource(pool, events);
}

/// After `n` ticks that all spawn fire breath the charge has dropped by
/// exactly `n`, stopping at zero; after `n` ticks that spawn none it has
/// risen by exactly `n`, stopping at the maximum.
pub proof fn lemma_fire_drain_and_regen(amount: int, max: int, spawned: Seq<bool>)
    requires
        0 <= amount <= max,
    ensures
        (forall|t: int| 0 <= t < spawned.len() ==> spawned[t]) ==> fire_after_ticks(amount, max, spawned)
            == if amount - spawned.len() < 0 { 0 } else { amount - spawned.len() },
        (forall|t: int| 0 <= t < spawned.len() ==> !spawned[t]) ==> fire_after_ticks(amount, max, spawned)
            == if amount + spawned.len() > max { max } else { amount + spawned.len() },
    decreases spawned.len(),
{
    if spawned.len() > 0 {
        let rest = spawned.drop_last();
        lemma_fire_drain_and_regen(amount, max, rest);
        if forall|t: int| 0 <= t < spawned.len() ==> spawned[t] {
            assert forall|t: int| 0 <= t < rest.len() implies rest[t] by {
                assert(spawned[t]);
            }
            assert(spawned.last());
        }
        if forall|t: int| 0 <= t < spawned.len() ==> !spawned[t] {
            assert forall|t: int| 0 <= t < rest.len() implies !rest[t] by {
                assert(!spawned[t]);
            }
            assert(!spawned.last());
        }
    }
}

} // verus!
