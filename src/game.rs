use crate::combat::SpawnProjectileEvent;
use crate::enemy::{
    attacks_upto, handle_enemy_attacks, handle_enemy_behavior, lemma_reloaded_wf, moved_enemies,
    reloaded_enemies, spawn_enemies, EnemyBundle, EnemySpawnTimer, SPAWN_PERIOD,
};
use crate::fire_breath::{
    fire_after_tick, fire_breath_for, spawn_fire_breath, update_fire_breath_resource,
    FireBreathBundle, SpawnFireBreathEvent,
};
use crate::level::{generate_level, tile_of_bucket, Grid, TileQuery};
use crate::player::PlayerBundle;
use crate::power_up::{
    consume_powerups, drops, heal_total, spawn_powerups, untouched, PowerUpBundle, PowerUpEvent,
};
use crate::resource_pool::added;
use crate::timer::fires;
use vstd::prelude::*;

verus! {

/// What one tick hands to the physics and presentation side: projectiles
/// and burning areas to create.
pub struct TickOutput {
    pub projectiles: Vec<SpawnProjectileEvent>,
    pub fire_breaths: Vec<FireBreathBundle>,
}

/// The state of a game in progress: the map, the player, the enemies and
/// pickups alive, and the spawn timer.
pub struct Game {
    pub level: TileQuery,
    pub player: PlayerBundle,
    pub enemies: Vec<EnemyBundle>,
    pub powerups: Vec<PowerUpBundle>,
    pub spawn_timer: EnemySpawnTimer,
}

impl Game {
    pub open spec fn wf(&self) -> bool {
        &&& self.level.wf()
        &&& self.player.wf()
        &&& self.spawn_timer.0.wf()
        &&& forall|i: int| 0 <= i < self.enemies@.len() ==> #[trigger] self.enemies@[i].wf()
    }

    /// A new game on the map laid out from `buckets` (see `generate_level`):
    /// the player at the start, no enemies or pickups yet.
    pub fn start(grid: Grid, buckets: &Vec<i64>) -> (r: Game)
        requires
            grid.wf(),
            buckets@.len() == grid.columns * grid.rows,
        ensures
            r.wf(),
            r.level.grid_spec() == grid,
            forall|i: int| 0 <= i < buckets@.len() ==> r.level.tiles_spec()[i] == tile_of_bucket(buckets@[i] as int),
            r.player.is_start(),
            r.enemies@.len() == 0,
            r.powerups@.len() == 0,
            r.spawn_timer.0.period_spec() == SPAWN_PERIOD,
            r.spawn_timer.0.elapsed_spec() == 0,
    {
        Game {
            level: generate_level(grid, buckets),
            player: PlayerBundle::new(),
            enemies: Vec::new(),
            powerups: Vec::new(),
            spawn_timer: EnemySpawnTimer::new(SPAWN_PERIOD),
        }
    }

    /// One fixed simulation tick of `delta` microseconds. In order: the
    /// spawner may add an enemy at a border cell; every enemy moves; every
    /// enemy's attack timer runs and those that fire in range emit
    /// projectiles; the fire-breath events of the tick spawn burning areas
    /// (when the fire pool is not empty) and then drain or regain fire charge;
    /// pickups touching the player heal it and vanish (`intersections[i]`
    /// lists the reported pairs of pickup `i`); the power-up events may drop
    /// new pickups.
    pub fn fixed_tick(
        &mut self,
        delta: u64,
        fire_events: &Vec<SpawnFireBreathEvent>,
        powerup_events: &Vec<PowerUpEvent>,
        intersections: &Vec<Vec<bool>>,
    ) -> (r: TickOutput)
        requires
            old(self).wf(),
            intersections@.len() == old(self).powerups@.len(),
        ensures
            final(self).wf(),
            final(self).level == old(self).level,
            final(self).player.translation == old(self).player.translation,
            final(self).player.score == old(self).player.score,
            final(self).player.collision_groups == old(self).player.collision_groups,
            final(self).player.fire_breath_resource.max_spec() == old(self).player.fire_breath_resource.max_spec(),
            final(self).player.fire_breath_resource.amount_spec() == fire_after_tick(
                old(self).player.fire_breath_resource.amount_spec(),
                old(self).player.fire_breath_resource.max_spec(),
                fire_events@.len() > 0,
            ),
            old(self).player.fire_breath_resource.amount_spec() == 0 ==> r.fire_breaths@.len() == 0,
            old(self).player.fire_breath_resource.amount_spec() != 0 ==> r.fire_breaths@ == fire_events@.map_values(
                |ev: SpawnFireBreathEvent| fire_breath_for(ev),
            ),
            final(self).player.hitpoints.max_spec() == old(self).player.hitpoints.max_spec(),
            final(self).player.hitpoints.amount_spec() == added(
                old(self).player.hitpoints.amount_spec(),
                old(self).player.hitpoints.max_spec(),
                heal_total(old(self).powerups@, intersections@, old(self).powerups@.len() as int),
            ),
            exists|rolls: Seq<bool>| rolls.len() == powerup_events@.len() && final(self).powerups@
                == untouched(old(self).powerups@, intersections@, old(self).powerups@.len() as int)
                + drops(powerup_events@, rolls, powerup_events@.len() as int),
            final(self).spawn_timer.0 == old(self).spawn_timer.0.ticked(delta as int),
            exists|arrived: Seq<EnemyBundle>| {
                let all = old(self).enemies@ + arrived;
                let moved = moved_enemies(all, old(self).player.translation);
                &&& #[trigger] arrived.len() == if fires(
                    old(self).spawn_timer.0.elapsed_spec(),
                    old(self).spawn_timer.0.period_spec(),
                    delta as int,
                ) {
                    1int
                } else {
                    0int
                }
                &&& arrived.len() == 1 ==> exists|c: int, w: int| #[trigger] old(self).level.grid_spec().is_border(c, w)
                    && arrived[0].is_fresh(
                    old(self).level.grid_spec().tile_width as int,
                    old(self).level.grid_spec().center_of(c, w),
                )
                &&& final(self).enemies@ == reloaded_enemies(moved, delta as int)
                &&& r.projectiles@ == attacks_upto(
                    moved,
                    old(self).player.translation,
                    delta as int,
                    moved.len() as int,
                )
            },
    {
        let ghost start = *self;
        let player_at = self.player.translation;

        let spawned = spawn_enemies(&mut self.spawn_timer, delta, &self.level);
        let ghost arrived: Seq<EnemyBundle> = if spawned is Some {
            seq![spawned->0]
        } else {
            Seq::empty()
        };
        match spawned {
            Some(e) => self.enemies.push(e),
            None => {},
        }
        assert(self.enemies@ =~= start.enemies@ + arrived);
        let ghost all = self.enemies@;
        handle_enemy_behavior(&mut self.enemies, player_at);
        assert(forall|i: int| 0 <= i < self.enemies@.len() ==> #[trigger] self.enemies@[i].wf()) by {
            assert forall|i: int| 0 <= i < self.enemies@.len() implies #[trigger] self.enemies@[i].wf() by {
                assert(all[i].wf());
            }
        }
        let ghost moved = self.enemies@;
        let projectiles = handle_enemy_attacks(&mut self.enemies, player_at, delta);
        proof {
            assert forall|i: int| 0 <= i < self.enemies@.len() implies #[trigger] self.enemies@[i].wf() by {
                lemma_reloaded_wf(moved[i], delta as int);
            }
        }

        let fire_breaths = spawn_fire_breath(&self.player.fire_breath_resource, fire_events);
        assert(start.player.fire_breath_resource.amount_spec() != 0 ==> fire_breaths@ =~= fire_events@.map_values(
            |ev: SpawnFireBreathEvent| fire_breath_for(ev),
        ));
        update_fire_breath_resource(&mut self.player.fire_breath_resource, fire_events);

        consume_powerups(&mut self.powerups, intersections, &mut self.player.hitpoints);
        let ghost kept = self.powerups@;
        let mut dropped = spawn_powerups(powerup_events);
        let ghost new_ones = dropped@;
        self.powerups.append(&mut dropped);
        assert(self.powerups@ == kept + new_ones);

        TickOutput { projectiles, fire_breaths }
    }
}

} // verus!
