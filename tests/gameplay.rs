use dragonskale::app_state::{entity_cleanup, playing, AppState};
use dragonskale::combat::{CollisionGroups, SpawnProjectileEvent, BUILDING_GROUP, ENEMY_GROUP, FIRE_BREATH_GROUP, PLAYER_GROUP, POWERUP_GROUP};
use dragonskale::enemy::{
    follow_player, handle_enemy_attacks, handle_enemy_behavior, spawn_enemies, spawn_enemy_at,
    Behavior, EnemyBundle, EnemySpawnTimer,
};
use dragonskale::fire_breath::{
    consume_fire_breath_resource, restore_fire_breath_resource, spawn_fire_breath,
    update_fire_breath_resource, SpawnFireBreathEvent,
};
use dragonskale::game::Game;
use dragonskale::geometry::Position;
use dragonskale::level::{generate_level, Grid};
use dragonskale::player::PlayerBundle;
use dragonskale::power_up::{
    consume_powerups, spawn_powerups, spawn_powerups_with_rolls, PowerUpBundle, PowerUpEvent,
    PowerUpEventType,
};
use dragonskale::resource_pool::{Fire, Health, ResourcePool};
use dragonskale::timer::RepeatingTimer;

fn enemy_at(x: i32, y: i32, follow: u64, speed: u32, range: u64) -> EnemyBundle {
    let g = Grid::new(10, 10, 32, 32).unwrap();
    let mut e = EnemyBundle::new(&g, Position::new(x, y));
    e.behavior = Behavior::FollowPlayer { distance: follow };
    e.speed = speed;
    e.range = range;
    e
}

#[test]
fn timer_fires_each_period() {
    let mut t = RepeatingTimer::new(1000);
    assert!(!t.tick(400));
    assert!(!t.tick(400));
    assert!(t.tick(400));
    assert_eq!(t.elapsed(), 200);
    assert!(t.tick(2500));
    assert_eq!(t.elapsed(), 700);
}

#[test]
fn zero_period_timer_fires_every_tick() {
    let mut t = RepeatingTimer::new(0);
    assert!(t.tick(0));
    assert!(t.tick(5));
    assert_eq!(t.elapsed(), 0);
}

#[test]
fn enemy_steps_toward_player() {
    let behavior = Behavior::FollowPlayer { distance: 5 };
    let p = follow_player(Position::new(0, 0), Position::new(10, 0), behavior, 2);
    assert_eq!(p, Position::new(2, 0));
}

#[test]
fn enemy_stops_within_follow_distance() {
    let player = Position::new(10, 0);
    let behavior = Behavior::FollowPlayer { distance: 5 };
    let mut at = Position::new(0, 0);
    let mut path = Vec::new();
    for _ in 0..6 {
        at = follow_player(at, player, behavior, 2);
        path.push(at.x);
    }
    assert_eq!(path, vec![2, 4, 6, 6, 6, 6]);
    assert_eq!(follow_player(Position::new(5, 0), player, behavior, 2), Position::new(5, 0));
}

#[test]
fn enemy_movement_saturates_at_world_edge() {
    let behavior = Behavior::FollowPlayer { distance: 0 };
    let p = follow_player(Position::new(i32::MAX - 1, 0), Position::new(i32::MAX, 0), behavior, 5);
    assert_eq!(p, Position::new(i32::MAX, 0));
}

#[test]
fn behaviour_moves_all_enemies() {
    let mut enemies = vec![enemy_at(0, 0, 5, 2, 100), enemy_at(0, 30, 5, 3, 100), enemy_at(12, 4, 5, 2, 100)];
    handle_enemy_behavior(&mut enemies, Position::new(10, 0));
    assert_eq!(enemies[0].translation, Position::new(2, 0));
    assert_eq!(enemies[1].translation, Position::new(0, 28));
    assert_eq!(enemies[2].translation, Position::new(12, 4));
}

#[test]
fn attack_emitted_only_in_range_when_timer_fires() {
    let player = Position::new(0, 0);
    let mut enemies = vec![enemy_at(30, 40, 0, 2, 50), enemy_at(60, 80, 0, 2, 50)];
    let none = handle_enemy_attacks(&mut enemies, player, 3_000_000);
    assert!(none.is_empty());
    let shots = handle_enemy_attacks(&mut enemies, player, 1_000_000);
    assert_eq!(shots.len(), 1);
    assert_eq!(
        shots[0],
        SpawnProjectileEvent {
            damage: 5,
            direction: dragonskale::combat::Direction { x: -600, y: -800 },
            emitter: 0,
            origin: Position::new(30, 40),
            speed: 1000,
        }
    );
    assert_eq!(enemies[0].attack_timer.elapsed(), 0);
}

#[test]
fn attack_at_exact_range_edge() {
    let player = Position::new(0, 0);
    let mut edge = vec![enemy_at(50, 0, 0, 2, 50)];
    assert_eq!(handle_enemy_attacks(&mut edge, player, 4_000_000).len(), 1);
    let mut beyond = vec![enemy_at(51, 0, 0, 2, 50)];
    assert!(handle_enemy_attacks(&mut beyond, player, 4_000_000).is_empty());
}

#[test]
fn attack_skipped_on_player_spot() {
    let mut enemies = vec![enemy_at(7, 7, 0, 2, 50)];
    assert!(handle_enemy_attacks(&mut enemies, Position::new(7, 7), 4_000_000).is_empty());
}

#[test]
fn fresh_enemy_stats() {
    let g = Grid::new(10, 10, 32, 32).unwrap();
    let e = EnemyBundle::new(&g, Position::new(3, 4));
    assert_eq!(e.attack_damage, 5);
    assert_eq!(e.hitpoints.amount(), 1);
    assert_eq!(e.range, 384);
    assert_eq!(e.speed, 2);
    assert_eq!(e.behavior, Behavior::FollowPlayer { distance: 192 });
    assert_eq!(e.attack_timer.period(), 4_000_000);
    assert_eq!(e.translation, Position::new(3, 4));
}

#[test]
fn spawn_at_chosen_border_cell() {
    let g = Grid::new(4, 4, 10, 10).unwrap();
    let level = generate_level(g, &vec![0; 16]);
    let border = level.border_tiles();
    let e = spawn_enemy_at(&level, &border, Some(4)).unwrap();
    assert_eq!(border[4], (0, 1));
    assert_eq!(e.translation, g.tile_center(0, 1));
    assert!(spawn_enemy_at(&level, &border, Some(border.len())).is_none());
    assert!(spawn_enemy_at(&level, &border, None).is_none());
}

#[test]
fn spawner_waits_for_its_timer() {
    let g = Grid::new(4, 4, 10, 10).unwrap();
    let level = generate_level(g, &vec![0; 16]);
    let border = level.border_tiles();
    let mut timer = EnemySpawnTimer::new(3_000_000);
    assert!(spawn_enemies(&mut timer, 1_000_000, &level).is_none());
    assert!(spawn_enemies(&mut timer, 1_000_000, &level).is_none());
    for _ in 0..50 {
        let e = spawn_enemies(&mut timer, 3_000_000, &level).unwrap();
        let cell = border
            .iter()
            .find(|&&(c, r)| g.tile_center(c as u32, r as u32) == e.translation);
        assert!(cell.is_some());
    }
}

#[test]
fn fire_drains_while_breathing_and_regens_when_idle() {
    let mut pool = ResourcePool::<Fire>::new(10);
    let breath = vec![SpawnFireBreathEvent::new(3, Position::new(1, 1))];
    let idle: Vec<SpawnFireBreathEvent> = Vec::new();
    for _ in 0..4 {
        update_fire_breath_resource(&mut pool, &breath);
    }
    assert_eq!(pool.amount(), 6);
    for _ in 0..3 {
        update_fire_breath_resource(&mut pool, &idle);
    }
    assert_eq!(pool.amount(), 9);
    for _ in 0..5 {
        update_fire_breath_resource(&mut pool, &idle);
    }
    assert_eq!(pool.amount(), 10);
    for _ in 0..25 {
        update_fire_breath_resource(&mut pool, &breath);
    }
    assert_eq!(pool.amount(), 0);
}

#[test]
fn consume_and_restore_are_exclusive() {
    let mut pool = ResourcePool::<Fire>::new(10);
    pool.subtract(5);
    let breath = vec![SpawnFireBreathEvent::new(3, Position::new(1, 1))];
    let idle: Vec<SpawnFireBreathEvent> = Vec::new();
    consume_fire_breath_resource(&mut pool, &idle);
    assert_eq!(pool.amount(), 5);
    restore_fire_breath_resource(&mut pool, &breath);
    assert_eq!(pool.amount(), 5);
    consume_fire_breath_resource(&mut pool, &breath);
    assert_eq!(pool.amount(), 4);
    restore_fire_breath_resource(&mut pool, &idle);
    assert_eq!(pool.amount(), 5);
}

#[test]
fn fire_breath_needs_charge() {
    let events = vec![
        SpawnFireBreathEvent::new(4, Position::new(1, 2)),
        SpawnFireBreathEvent::new(6, Position::new(-3, 9)),
    ];
    let mut pool = ResourcePool::<Fire>::new(1);
    let areas = spawn_fire_breath(&pool, &events);
    assert_eq!(areas.len(), 2);
    assert_eq!(areas[1].damage, 6);
    assert_eq!(areas[1].position, Position::new(-3, 9));
    assert_eq!(areas[0].radius, 25);
    assert_eq!(areas[0].collision_groups, CollisionGroups::new(FIRE_BREATH_GROUP, BUILDING_GROUP | ENEMY_GROUP));
    pool.subtract(1);
    assert!(spawn_fire_breath(&pool, &events).is_empty());
}

#[test]
fn collision_matrix() {
    let fire = CollisionGroups::new(FIRE_BREATH_GROUP, BUILDING_GROUP | ENEMY_GROUP);
    let enemy = EnemyBundle::new(&Grid::new(4, 4, 8, 8).unwrap(), Position::new(0, 0)).collision_groups;
    let player = PlayerBundle::new().collision_groups;
    let pickup = CollisionGroups::new(POWERUP_GROUP, PLAYER_GROUP);
    assert!(fire.interacts(&enemy));
    assert!(!fire.interacts(&player));
    assert!(pickup.interacts(&player));
    assert!(!pickup.interacts(&enemy));
}

fn scale_at(x: i32, y: i32) -> PowerUpBundle {
    let events = vec![PowerUpEvent::new(Position::new(x, y), PowerUpEventType::HealingScale)];
    spawn_powerups_with_rolls(&events, &vec![true]).remove(0)
}

#[test]
fn pickup_heals_once_and_disappears() {
    let mut player = PlayerBundle::new();
    player.hitpoints.subtract(70);
    let mut pickups = vec![scale_at(0, 0), scale_at(50, 50)];
    consume_powerups(&mut pickups, &vec![vec![true], vec![false]], &mut player.hitpoints);
    assert_eq!(player.hitpoints.amount(), 80);
    assert_eq!(pickups.len(), 1);
    assert_eq!(pickups[0].translation, Position::new(50, 50));
}

#[test]
fn pickup_heal_saturates() {
    let mut player = PlayerBundle::new();
    player.hitpoints.subtract(10);
    let mut pickups = vec![scale_at(0, 0)];
    consume_powerups(&mut pickups, &vec![vec![true]], &mut player.hitpoints);
    assert_eq!(player.hitpoints.amount(), 100);
    assert!(pickups.is_empty());
}

#[test]
fn pickup_heals_once_per_reported_overlap() {
    let mut hp = ResourcePool::<Health>::new(500);
    hp.subtract(400);
    let mut pickups = vec![scale_at(0, 0)];
    consume_powerups(&mut pickups, &vec![vec![true, false, true]], &mut hp);
    assert_eq!(hp.amount(), 200);
    assert!(pickups.is_empty());
}

#[test]
fn drops_follow_rolls() {
    let events = vec![
        PowerUpEvent::new(Position::new(1, 1), PowerUpEventType::HealingScale),
        PowerUpEvent::new(Position::new(2, 2), PowerUpEventType::HealingScale),
        PowerUpEvent::new(Position::new(3, 3), PowerUpEventType::HealingScale),
    ];
    let drops = spawn_powerups_with_rolls(&events, &vec![false, true, true]);
    assert_eq!(drops.len(), 2);
    assert_eq!(drops[0].translation, Position::new(2, 2));
    assert_eq!(drops[1].heal_amount, 50);
    assert_eq!(drops[1].collision_groups, CollisionGroups::new(POWERUP_GROUP, PLAYER_GROUP));
}

#[test]
fn drops_are_occasional() {
    let events: Vec<PowerUpEvent> = (0..2000)
        .map(|i| PowerUpEvent::new(Position::new(i, 0), PowerUpEventType::HealingScale))
        .collect();
    let drops = spawn_powerups(&events);
    assert!(!drops.is_empty());
    assert!(drops.len() < 600);
    for w in drops.windows(2) {
        assert!(w[0].translation.x < w[1].translation.x);
    }
}

#[test]
fn player_starts_full() {
    let p = PlayerBundle::new();
    assert_eq!(p.hitpoints.amount(), 100);
    assert_eq!(p.fire_breath_resource.amount(), 100);
    assert_eq!(p.score, 0);
}

#[test]
fn only_in_game_is_playing() {
    assert!(playing(AppState::InGame));
    assert!(!playing(AppState::MainMenu));
    assert!(!playing(AppState::Setup));
    assert!(!playing(AppState::GameOver));
}

#[test]
fn cleanup_removes_everything() {
    let mut pickups = vec![scale_at(0, 0), scale_at(1, 1)];
    entity_cleanup(&mut pickups);
    assert!(pickups.is_empty());
}

#[test]
fn game_tick_runs_phases_in_order() {
    let grid = Grid::new(4, 4, 32, 32).unwrap();
    let mut game = Game::start(grid, &vec![2; 16]);
    assert_eq!(game.player.fire_breath_resource.amount(), 100);
    assert!(game.enemies.is_empty());

    let breath = vec![SpawnFireBreathEvent::new(2, Position::new(40, 0))];
    let out = game.fixed_tick(1_000_000, &breath, &Vec::new(), &Vec::new());
    assert_eq!(out.fire_breaths.len(), 1);
    assert!(out.projectiles.is_empty());
    assert!(game.enemies.is_empty());
    assert_eq!(game.player.fire_breath_resource.amount(), 99);

    let out = game.fixed_tick(2_000_000, &Vec::new(), &Vec::new(), &Vec::new());
    assert!(out.fire_breaths.is_empty());
    assert_eq!(game.player.fire_breath_resource.amount(), 100);
    assert_eq!(game.enemies.len(), 1);
    // Border cells lie within the follow distance (6 tiles) of the player,
    // so the new enemy stays on its border cell.
    let e = &game.enemies[0];
    assert!(level_border_centre(grid, e.translation));

    game.powerups.push(scale_at(0, 0));
    game.player.hitpoints.subtract(60);
    let out = game.fixed_tick(4_000_000, &Vec::new(), &Vec::new(), &vec![vec![true]]);
    assert!(game.powerups.is_empty());
    assert_eq!(game.player.hitpoints.amount(), 90);
    // The spawner fired again, and both enemies' attack timers completed.
    assert_eq!(game.enemies.len(), 2);
    assert_eq!(out.projectiles.len(), 2);
    assert_eq!(out.projectiles[0].emitter, 0);
    assert_eq!(out.projectiles[1].emitter, 1);
    assert_eq!(out.projectiles[0].damage, 5);
}

fn level_border_centre(grid: Grid, at: Position) -> bool {
    let level = generate_level(grid, &vec![0; (grid.columns * grid.rows) as usize]);
    level
        .border_tiles()
        .iter()
        .any(|&(c, r)| grid.tile_center(c as u32, r as u32) == at)
}
