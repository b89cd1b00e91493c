use crate::combat::{
    CollisionGroups, Direction, SpawnProjectileEvent, BUILDING_GROUP, DIRECTION_SCALE, ENEMY_GROUP,
    FIRE_BREATH_GROUP, PROJECTILE_SPEED,
};
use crate::geometry::{dist_sq, scale_toward, scaled_toward, within_distance, Position};
use crate::level::{Grid, TileQuery};
use crate::random::choose_index;
use crate::resource_pool::{Health, ResourcePool};
use crate::timer::{elapsed_after, fires, RepeatingTimer};
use vstd::prelude::*;

verus! {

/// Microseconds between enemy spawns.
pub const SPAWN_PERIOD: u64 = 3_000_000;

/// Microseconds between an enemy's attack attempts.
pub const ATTACK_PERIOD: u64 = 4_000_000;

pub const ENEMY_DAMAGE: i16 = 5;
pub const ENEMY_HEALTH: u16 = 1;
pub const ENEMY_SPEED: u32 = 2;

/// Attack range and follow distance, in tiles.
pub const ENEMY_RANGE_TILES: u64 = 12;
pub const ENEMY_FOLLOW_TILES: u64 = 6;

/// Marker of enemy entities.
#[derive(Clone, Copy, Debug, PartialEq, Eq, Structural)]
pub struct Enemy;

/// How an enemy moves each tick.
#[derive(Clone, Copy, Debug, PartialEq, Eq, Structural)]
pub enum Behavior {
    /// Walk toward the player while farther away than `distance`.
    FollowPlayer { distance: u64 },
}

/// The timer that paces enemy spawns.
pub struct EnemySpawnTimer(pub RepeatingTimer);

impl EnemySpawnTimer {
    /// A spawn timer that fires every `duration` microseconds.
    pub fn new(duration: u64) -> (r: Self)
        ensures
            r.0.wf(),
            r.0.period_spec() == duration,
            r.0.elapsed_spec() == 0,
    {
        EnemySpawnTimer(RepeatingTimer::new(duration))
    }
}

/// Everything an enemy is made of.
pub struct EnemyBundle {
    pub attack_damage: i16,
    pub attack_timer: RepeatingTimer,
    pub behavior: Behavior,
    pub hitpoints: ResourcePool<Health>,
    pub marker: Enemy,
    pub range: u64,
    pub speed: u32,
    pub translation: Position,
    pub collision_groups: CollisionGroups,
}

/// The collision categories of enemies.
pub open spec fn enemy_groups() -> CollisionGroups {
    CollisionGroups { memberships: ENEMY_GROUP, filters: ENEMY_GROUP | BUILDING_GROUP | FIRE_BREATH_GROUP }
}

impl EnemyBundle {
    pub open spec fn wf(&self) -> bool {
        self.attack_timer.wf() && self.hitpoints.wf()
    }

    /// `self` is a freshly spawned enemy at `at` on a map with tiles of
    /// width `tile_width`.
    pub open spec fn is_fresh(&self, tile_width: int, at: Position) -> bool {
        &&& self.wf()
        &&& self.attack_damage == ENEMY_DAMAGE
        &&& self.attack_timer.period_spec() == ATTACK_PERIOD
        &&& self.attack_timer.elapsed_spec() == 0
        &&& self.behavior == (Behavior::FollowPlayer { distance: (tile_width * ENEMY_FOLLOW_TILES) as u64 })
        &&& self.hitpoints.amount_spec() == ENEMY_HEALTH
        &&& self.hitpoints.max_spec() == ENEMY_HEALTH
        &&& self.range == tile_width * ENEMY_RANGE_TILES
        &&& self.speed == ENEMY_SPEED
        &&& self.translation == at
        &&& self.collision_groups == enemy_groups()
    }

    /// A new enemy with the starting stats, standing at `at`.
    pub fn new(grid: &Grid, at: Position) -> (r: Self)
        ensures
            r.is_fresh(grid.tile_width as int, at),
    {
        let w: u64 = grid.tile_width as u64;
        EnemyBundle {
            attack_damage: ENEMY_DAMAGE,
            attack_timer: RepeatingTimer::new(ATTACK_PERIOD),
            behavior: Behavior::FollowPlayer { distance: w * ENEMY_FOLLOW_TILES },
            hitpoints: ResourcePool::new(ENEMY_HEALTH),
            marker: Enemy,
            range: w * ENEMY_RANGE_TILES,
            speed: ENEMY_SPEED,
            translation: at,
            collision_groups: CollisionGroups::new(ENEMY_GROUP, ENEMY_GROUP | BUILDING_GROUP | FIRE_BREATH_GROUP),
        }
    }
}

/// Clamps `v` into the range of `i32`.
pub open spec fn saturate_i32(v: int) -> int {
    if v < i32::MIN {
        i32::MIN as int
    } else if v > i32::MAX {
        i32::MAX as int
    } else {
        v
    }
}

/// Where an enemy at `at` stands after one tick of following `player` with
/// the given behaviour and speed: while it is farther away than the follow
/// distance it moves `speed` units toward the player.
pub open spec fn followed(at: Position, player: Position, behavior: Behavior, speed: int) -> Position {
    match behavior {
        Behavior::FollowPlayer { distance } => {
            if dist_sq(at, player) > distance * distance {
                let step = scaled_toward(at, player, speed);
                Position {
                    x: saturate_i32(at.x + step.0) as i32,
                    y: saturate_i32(at.y + step.1) as i32,
                }
            } else {
                at
            }
        },
    }
}

fn saturating_offset(v: i32, d: i64) -> (r: i32)
    requires
        -0x1_0000_0000 <= d <= 0x1_0000_0000,
    ensures
        r == saturate_i32(v + d),
{
    let s: i64 = v as i64 + d;
    if s < i32::MIN as i64 {
        i32::MIN
    } else if s > i32::MAX as i64 {
        i32::MAX
    } else {
        s as i32
    }
}

/// One tick of movement for a single enemy.
pub fn follow_player(at: Position, player: Position, behavior: Behavior, speed: u32) -> (r: Position)
    ensures
        r == followed(at, player, behavior, speed as int),
{
    match behavior {
        Behavior::FollowPlayer { distance } => {
            if !within_distance(at, player, distance) {
                assert(at != player) by {
                    if at == player {
                        let dx = player.x - at.x;
                        let dy = player.y - at.y;
                        assert(dx * dx + dy * dy == 0) by (nonlinear_arith)
                            requires
                                dx == 0,
                                dy == 0,
                        ;
                        assert(distance * distance >= 0) by (nonlinear_arith);
                    }
                }
                let step = scale_toward(at, player, speed);
                Position {
                    x: saturating_offset(at.x, step.0),
                    y: saturating_offset(at.y, step.1),
                }
            } else {
                at
            }
        },
    }
}

/// An enemy moved by one tick of its behaviour.
pub open spec fn moved(e: EnemyBundle, player: Position) -> EnemyBundle {
    EnemyBundle { translation: followed(e.translation, player, e.behavior, e.speed as int), ..e }
}

/// Every enemy moved by one tick of its behaviour.
pub open spec fn moved_enemies(enemies: Seq<EnemyBundle>, player: Position) -> Seq<EnemyBundle> {
    Seq::new(enemies.len(), |i: int| moved(enemies[i], player))
}

/// Moves every enemy one tick according to its behaviour.
pub fn handle_enemy_behavior(enemies: &mut Vec<EnemyBundle>, player: Position)
    ensures
        final(enemies)@ == moved_enemies(old(enemies)@, player),
{
    let ghost start = enemies@;
    let mut i: usize = 0;
    while i < enemies.len()
        invariant
            i <= enemies@.len(),
            enemies@.len() == start.len(),
            forall|j: int| i <= j < start.len() ==> enemies@[j] == start[j],
            forall|j: int| 0 <= j < i ==> #[trigger] enemies@[j] == moved(start[j], player),
        decreases enemies@.len() - i,
    {
        let next = follow_player(enemies[i].translation, player, enemies[i].behavior, enemies[i].speed);
        enemies[i].translation = next;
        i = i + 1;
    }
    assert(enemies@ =~= moved_enemies(start, player));
}

/// Spawns an enemy at the border cell `border[i]` when `choice` is `Some(i)`
/// with `i` in range.
pub fn spawn_enemy_at(level: &TileQuery, border: &Vec<(usize, usize)>, choice: Option<usize>) -> (r: Option<EnemyBundle>)
    requires
        level.wf(),
        forall|k: int| 0 <= k < border@.len() ==> level.grid_spec().in_grid(border@[k].0 as int, border@[k].1 as int),
    ensures
        r is Some <==> (choice matches Some(i) && i < border@.len()),
        r matches Some(e) ==> e.is_fresh(
            level.grid_spec().tile_width as int,
            level.grid_spec().center_of(border@[choice->0 as int].0 as int, border@[choice->0 as int].1 as int),
        ),
{
    match choice {
        Some(i) => {
            if i < border.len() {
                let (col, row) = border[i];
                let grid = level.grid();
                let at = grid.tile_center(col as u32, row as u32);
                Some(EnemyBundle::new(&grid, at))
            } else {
                None
            }
        },
        None => None,
    }
}

/// Advances the spawn timer by `delta` microseconds; when it completes a
/// period, spawns an enemy at a border cell picked at random.
pub fn spawn_enemies(timer: &mut EnemySpawnTimer, delta: u64, level: &TileQuery) -> (r: Option<EnemyBundle>)
    requires
        old(timer).0.wf(),
        level.wf(),
    ensures
        final(timer).0 == old(timer).0.ticked(delta as int),
        final(timer).0.wf(),
        final(timer).0.period_spec() == old(timer).0.period_spec(),
        final(timer).0.elapsed_spec() == elapsed_after(old(timer).0.elapsed_spec(), old(timer).0.period_spec(), delta as int),
        r is Some <==> fires(old(timer).0.elapsed_spec(), old(timer).0.period_spec(), delta as int),
        r matches Some(e) ==> exists|c: int, w: int| #[trigger] level.grid_spec().is_border(c, w)
            && e.is_fresh(level.grid_spec().tile_width as int, level.grid_spec().center_of(c, w)),
{
    if timer.0.tick(delta) {
        let border = level.border_tiles();
        proof {
            assert(level.grid_spec().is_border(0, 0));
            assert(border@.contains((0usize, 0usize)));
        }
        let choice = choose_index(border.len());
        let r = spawn_enemy_at(level, &border, choice);
        proof {
            if r is Some {
                let i = choice->0 as int;
                assert(level.grid_spec().is_border(border@[i].0 as int, border@[i].1 as int));
            }
        }
        r
    } else {
        None
    }
}

/// The projectile enemy number `index` fires this tick, if any: when its
/// attack timer completes a period while the player stands within its range
/// (and not on the very same spot, where no direction exists).
pub open spec fn attack_of(e: EnemyBundle, index: int, player: Position, delta: int) -> Option<SpawnProjectileEvent> {
    if fires(e.attack_timer.elapsed_spec(), e.attack_timer.period_spec(), delta)
        && dist_sq(e.translation, player) <= e.range * e.range
        && e.translation != player {
        let d = scaled_toward(e.translation, player, DIRECTION_SCALE as int);
        Some(SpawnProjectileEvent {
            damage: e.attack_damage,
            direction: Direction { x: d.0 as i64, y: d.1 as i64 },
            emitter: index as usize,
            origin: e.translation,
            speed: PROJECTILE_SPEED,
        })
    } else {
        None
    }
}

/// The projectiles fired by the first `n` enemies, in order.
pub open spec fn attacks_upto(enemies: Seq<EnemyBundle>, player: Position, delta: int, n: int) -> Seq<SpawnProjectileEvent>
    decreases n,
{
    if n <= 0 {
        Seq::empty()
    } else {
        let before = attacks_upto(enemies, player, delta, n - 1);
        match attack_of(enemies[n - 1], n - 1, player, delta) {
            Some(ev) => before.push(ev),
            None => before,
        }
    }
}

impl EnemyBundle {
    /// Advances this enemy's attack timer and returns the projectile it fires.
    pub fn attack(&mut self, index: usize, player: Position, delta: u64) -> (r: Option<SpawnProjectileEvent>)
        requires
            old(self).wf(),
        ensures
            *final(self) == reloaded(*old(self), delta as int),
            r == attack_of(*old(self), index as int, player, delta as int),
    {
        let fired = self.attack_timer.tick(delta);
        if fired && within_distance(self.translation, player, self.range) && self.translation != player {
            let d = scale_toward(self.translation, player, DIRECTION_SCALE);
            Some(SpawnProjectileEvent::new(
                self.attack_damage,
                Direction { x: d.0, y: d.1 },
                index,
                self.translation,
                PROJECTILE_SPEED,
            ))
        } else {
            None
        }
    }
}

/// An enemy fires at a tick exactly when its attack timer completes a period
/// while the player is within its range (the player standing on the enemy's
/// own spot excepted); one out of range when the timer completes fires
/// nothing.
pub proof fn lemma_attack_emission(e: EnemyBundle, index: int, player: Position, delta: int)
    requires
        e.translation != player,
    ensures
        attack_of(e, index, player, delta) is Some <==> (fires(
            e.attack_timer.elapsed_spec(),
            e.attack_timer.period_spec(),
            delta,
        ) && dist_sq(e.translation, player) <= e.range * e.range),
        dist_sq(e.translation, player) > e.range * e.range ==> attack_of(e, index, player, delta) is None,
{
}

/// Among the projectiles of a tick, enemy `i` appears as an emitter exactly
/// when it fires (its timer completes a period with the player in range and
/// off its own spot), and that projectile is the one it fires.
pub proof fn lemma_attack_emitters(enemies: Seq<EnemyBundle>, player: Position, delta: int, n: int, i: int)
    requires
        0 <= i < n <= enemies.len(),
        n <= usize::MAX,
    ensures
        (exists|k: int| 0 <= k < attacks_upto(enemies, player, delta, n).len()
            && #[trigger] attacks_upto(enemies, player, delta, n)[k].emitter == i)
            <==> attack_of(enemies[i], i, player, delta) is Some,
        forall|k: int| 0 <= k < attacks_upto(enemies, player, delta, n).len()
            && #[trigger] attacks_upto(enemies, player, delta, n)[k].emitter == i
            ==> Some(attacks_upto(enemies, player, delta, n)[k]) == attack_of(enemies[i], i, player, delta),
    decreases n,
{
    lemma_emitters_below(enemies, player, delta, n - 1);
    let before = attacks_upto(enemies, player, delta, n - 1);
    let all = attacks_upto(enemies, player, delta, n);
    if i < n - 1 {
        lemma_attack_emitters(enemies, player, delta, n - 1, i);
        if attack_of(enemies[i], i, player, delta) is Some {
            let k = choose|k: int| 0 <= k < before.len() && #[trigger] before[k].emitter == i;
            assert(all[k] == before[k]);
        }
        assert forall|k: int| 0 <= k < all.len() && #[trigger] all[k].emitter == i implies Some(all[k])
            == attack_of(enemies[i], i, player, delta) by {
            if k < before.len() {
                assert(all[k] == before[k]);
            } else {
                assert(all[k].emitter == (n - 1) as usize);
            }
        }
    } else {
        if attack_of(enemies[i], i, player, delta) is Some {
            assert(all[before.len() as int].emitter == i);
        }
        assert forall|k: int| 0 <= k < all.len() && #[trigger] all[k].emitter == i implies Some(all[k])
            == attack_of(enemies[i], i, player, delta) by {
            if k < before.len() {
                assert(all[k] == before[k]);
                assert(before[k].emitter < n - 1);
            }
        }
    }
}

proof fn lemma_emitters_below(enemies: Seq<EnemyBundle>, player: Position, delta: int, n: int)
    requires
        0 <= n <= enemies.len(),
        n <= usize::MAX,
    ensures
        forall|k: int| 0 <= k < attacks_upto(enemies, player, delta, n).len()
            ==> #[trigger] attacks_upto(enemies, player, delta, n)[k].emitter < n,
    decreases n,
{
    if n > 0 {
        lemma_emitters_below(enemies, player, delta, n - 1);
        let before = attacks_upto(enemies, player, delta, n - 1);
        let all = attacks_upto(enemies, player, delta, n);
        assert forall|k: int| 0 <= k < all.len() implies #[trigger] all[k].emitter < n by {
            if k < before.len() {
                assert(all[k] == before[k]);
            }
        }
    }
}

/// An enemy whose attack timer ran `delta` more microseconds.
pub open spec fn reloaded(e: EnemyBundle, delta: int) -> EnemyBundle {
    EnemyBundle { attack_timer: e.attack_timer.ticked(delta), ..e }
}

/// Every enemy's attack timer advanced by `delta` microseconds.
pub open spec fn reloaded_enemies(enemies: Seq<EnemyBundle>, delta: int) -> Seq<EnemyBundle> {
    Seq::new(enemies.len(), |i: int| reloaded(enemies[i], delta))
}

pub proof fn lemma_reloaded_wf(e: EnemyBundle, delta: int)
    requires
        e.wf(),
        0 <= delta,
    ensures
        reloaded(e, delta).wf(),
{
    e.attack_timer.lemma_ticked(delta);
}

/// Advances every enemy's attack timer by `delta` microseconds and returns
/// the projectiles fired, in enemy order.
pub fn handle_enemy_attacks(enemies: &mut Vec<EnemyBundle>, player: Position, delta: u64) -> (r: Vec<SpawnProjectileEvent>)
    requires
        forall|i: int| 0 <= i < old(enemies)@.len() ==> old(enemies)@[i].wf(),
    ensures
        final(enemies)@ == reloaded_enemies(old(enemies)@, delta as int),
        r@ == attacks_upto(old(enemies)@, player, delta as int, old(enemies)@.len() as int),
{
    let ghost start = enemies@;
    let mut out: Vec<SpawnProjectileEvent> = Vec::new();
    let mut i: usize = 0;
    while i < enemies.len()
        invariant
            i <= enemies@.len(),
            enemies@.len() == start.len(),
            forall|j: int| i <= j < start.len() ==> enemies@[j] == start[j],
            forall|j: int| 0 <= j < start.len() ==> start[j].wf(),
            forall|j: int| 0 <= j < i ==> #[trigger] enemies@[j] == reloaded(start[j], delta as int),
            out@ == attacks_upto(start, player, delta as int, i as int),
        decreases enemies@.len() - i,
    {
        let fired = enemies[i].attack(i, player, delta);
        if let Some(ev) = fired {
            out.push(ev);
        }
        i = i + 1;
    }
    assert(enemies@ =~= reloaded_enemies(start, delta as int));
    out
}

} // verus!
