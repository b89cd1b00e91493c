use crate::combat::{CollisionGroups, PLAYER_GROUP, POWERUP_GROUP};
use crate::geometry::Position;
use crate::random::chance;
use crate::resource_pool::{added, Health, ResourcePool};
use vstd::prelude::*;

verus! {

/// Hit points a healing scale restores.
pub const HEAL_AMOUNT: u16 = 50;

/// A healing scale drops with probability
/// `DROP_CHANCE_NUMERATOR / DROP_CHANCE_DENOMINATOR` per event.
pub const DROP_CHANCE_NUMERATOR: u32 = 1;
pub const DROP_CHANCE_DENOMINATOR: u32 = 10;

/// The kinds of power-up a gameplay event may drop.
#[derive(Clone, Copy, Debug, PartialEq, Eq, Structural)]
pub enum PowerUpEventType {
    HealingScale,
}

/// A chance for a power-up to drop at a position.
#[derive(Clone, Copy, Debug, PartialEq, Eq, Structural)]
pub struct PowerUpEvent {
    pub transform: Position,
    pub powerup_event_type: PowerUpEventType,
}

impl PowerUpEvent {
    pub fn new(transform: Position, powerup_event_type: PowerUpEventType) -> (r: Self)
        ensures
            r == (PowerUpEvent { transform, powerup_event_type }),
    {
        PowerUpEvent { transform, powerup_event_type }
    }
}

/// Marker of power-up entities.
#[derive(Clone, Copy, Debug, PartialEq, Eq, Structural)]
pub struct PowerUp;

/// A pickup lying in the world: a sensor that only the player touches.
#[derive(Clone, Copy, Debug, PartialEq, Eq, Structural)]
pub struct PowerUpBundle {
    pub marker: PowerUp,
    pub translation: Position,
    pub heal_amount: u16,
    pub collision_groups: CollisionGroups,
}

/// The pickup an event drops when its roll succeeds.
pub open spec fn pickup_for(ev: PowerUpEvent) -> PowerUpBundle {
    match ev.powerup_event_type {
        PowerUpEventType::HealingScale => PowerUpBundle {
            marker: PowerUp,
            translation: ev.transform,
            heal_amount: HEAL_AMOUNT,
            collision_groups: CollisionGroups { memberships: POWERUP_GROUP, filters: PLAYER_GROUP },
        },
    }
}

/// The pickups dropped by the first `n` events, where `rolls[i]` says whether
/// the roll of event `i` succeeded.
pub open spec fn drops(events: Seq<PowerUpEvent>, rolls: Seq<bool>, n: int) -> Seq<PowerUpBundle>
    decreases n,
{
    if n <= 0 {
        Seq::empty()
    } else if rolls[n - 1] {
        drops(events, rolls, n - 1).push(pickup_for(events[n - 1]))
    } else {
        drops(events, rolls, n - 1)
    }
}

/// The pickups dropped by `events`, given the outcome of each event's roll.
pub fn spawn_powerups_with_rolls(events: &Vec<PowerUpEvent>, rolls: &Vec<bool>) -> (r: Vec<PowerUpBundle>)
    requires
        rolls@.len() == events@.len(),
    ensures
        r@ == drops(events@, rolls@, events@.len() as int),
{
    let mut out: Vec<PowerUpBundle> = Vec::new();
    let mut i: usize = 0;
    while i < events.len()
        invariant
            i <= events@.len(),
            rolls@.len() == events@.len(),
            out@ == drops(events@, rolls@, i as int),
        decreases events@.len() - i,
    {
        if rolls[i] {
            let ev = events[i];
            let pickup = match ev.powerup_event_type {
                PowerUpEventType::HealingScale => PowerUpBundle {
                    marker: PowerUp,
                    translation: ev.transform,
                    heal_amount: HEAL_AMOUNT,
                    collision_groups: CollisionGroups::new(POWERUP_GROUP, PLAYER_GROUP),
                },
            };
            out.push(pickup);
        }
        i = i + 1;
    }
    out
}

/// Rolls the drop chance once per event, independently, and returns the
/// pickups dropped.
pub fn spawn_powerups(events: &Vec<PowerUpEvent>) -> (r: Vec<PowerUpBundle>)
    ensures
        exists|rolls: Seq<bool>| rolls.len() == events@.len() && r@ == drops(events@, rolls, events@.len() as int),
{
    let mut rolls: Vec<bool> = Vec::new();
    let mut i: usize = 0;
    while i < events.len()
        invariant
            i <= events@.len(),
            rolls@.len() == i,
        decreases events@.len() - i,
    {
        rolls.push(chance(DROP_CHANCE_NUMERATOR, DROP_CHANCE_DENOMINATOR));
        i = i + 1;
    }
    let r = spawn_powerups_with_rolls(events, &rolls);
    assert(rolls@.len() == events@.len() && r@ == drops(events@, rolls@, events@.len() as int));
    r
}

/// How many of the reported intersections are currently intersecting.
pub open spec fn count_true(flags: Seq<bool>) -> int
    decreases flags.len(),
{
    if flags.len() == 0 {
        0
    } else {
        count_true(flags.drop_last()) + if flags.last() { 1int } else { 0int }
    }
}

/// Total healing the first `n` pickups give: each one heals once for every
/// reported pair that is currently intersecting.
pub open spec fn heal_total(pickups: Seq<PowerUpBundle>, intersections: Seq<Vec<bool>>, n: int) -> int
    decreases n,
{
    if n <= 0 {
        0
    } else {
        heal_total(pickups, intersections, n - 1) + pickups[n - 1].heal_amount * count_true(intersections[n - 1]@)
    }
}

/// The pickups among the first `n` that nothing touched.
pub open spec fn untouched(pickups: Seq<PowerUpBundle>, intersections: Seq<Vec<bool>>, n: int) -> Seq<PowerUpBundle>
    decreases n,
{
    if n <= 0 {
        Seq::empty()
    } else if count_true(intersections[n - 1]@) == 0 {
        untouched(pickups, intersections, n - 1).push(pickups[n - 1])
    } else {
        untouched(pickups, intersections, n - 1)
    }
}

proof fn lemma_added_twice(a: int, max: int, x: int, y: int)
    requires
        0 <= a <= max,
        0 <= x,
        0 <= y,
    ensures
        added(added(a, max, x), max, y) == added(a, max, x + y),
{
}

proof fn lemma_count_true_nonneg(flags: Seq<bool>)
    ensures
        count_true(flags) >= 0,
    decreases flags.len(),
{
    if flags.len() > 0 {
        lemma_count_true_nonneg(flags.drop_last());
    }
}

/// Lets the player pick up what it touches: `intersections[i]` lists, for
/// pickup `i`, the pairs the physics engine reports with their
/// currently-intersecting flag. Each intersecting pair heals the player by
/// the pickup's amount (saturating at the maximum), and every pickup with at
/// least one is removed.
pub fn consume_powerups(
    powerups: &mut Vec<PowerUpBundle>,
    intersections: &Vec<Vec<bool>>,
    hitpoints: &mut ResourcePool<Health>,
)
    requires
        old(hitpoints).wf(),
        intersections@.len() == old(powerups)@.len(),
    ensures
        final(hitpoints).wf(),
        final(hitpoints).max_spec() == old(hitpoints).max_spec(),
        final(hitpoints).amount_spec() == added(
            old(hitpoints).amount_spec(),
            old(hitpoints).max_spec(),
            heal_total(old(powerups)@, intersections@, old(powerups)@.len() as int),
        ),
        final(powerups)@ == untouched(old(powerups)@, intersections@, old(powerups)@.len() as int),
{
    let ghost a0 = hitpoints.amount_spec();
    let ghost m = hitpoints.max_spec();
    proof {
        hitpoints.lemma_bounds();
    }
    let mut kept: Vec<PowerUpBundle> = Vec::new();
    let mut i: usize = 0;
    while i < powerups.len()
        invariant
            i <= powerups@.len(),
            intersections@.len() == powerups@.len(),
            hitpoints.wf(),
            hitpoints.max_spec() == m,
            0 <= a0 <= m,
            heal_total(powerups@, intersections@, i as int) >= 0,
            hitpoints.amount_spec() == added(a0, m, heal_total(powerups@, intersections@, i as int)),
            kept@ == untouched(powerups@, intersections@, i as int),
        decreases powerups@.len() - i,
    {
        let heal = powerups[i].heal_amount;
        let flags = &intersections[i];
        let ghost before = hitpoints.amount_spec();
        let ghost h = heal_total(powerups@, intersections@, i as int);
        let mut touched = false;
        let mut j: usize = 0;
        while j < flags.len()
            invariant
                j <= flags@.len(),
                hitpoints.wf(),
                hitpoints.max_spec() == m,
                0 <= a0 <= m,
                h >= 0,
                count_true(flags@.take(j as int)) >= 0,
                hitpoints.amount_spec() == added(a0, m, h + heal * count_true(flags@.take(j as int))),
                touched == (count_true(flags@.take(j as int)) > 0),
            decreases flags@.len() - j,
        {
            assert(flags@.take(j + 1).drop_last() == flags@.take(j as int));
            if flags[j] {
                proof {
                    lemma_added_twice(a0, m, h + heal * count_true(flags@.take(j as int)), heal as int);
                    assert(heal * count_true(flags@.take(j as int)) + heal == heal * (count_true(flags@.take(j as int)) + 1)) by (nonlinear_arith);
                }
                hitpoints.add(heal);
                touched = true;
            }
            j = j + 1;
        }
        assert(flags@.take(flags@.len() as int) == flags@);
        proof {
            lemma_count_true_nonneg(flags@);
            assert(heal * count_true(flags@) >= 0) by (nonlinear_arith)
                requires
                    heal >= 0,
                    count_true(flags@) >= 0,
            ;
        }
        if !touched {
            kept.push(powerups[i]);
        }
        i = i + 1;
    }
    *powerups = kept;
}

} // verus!
