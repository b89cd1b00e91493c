use dragonskale::geometry::{distance_squared, isqrt_u128, scale_toward, within_distance, Position};
use dragonskale::level::{
    generate_level, translate_transform_to_grid_space, Grid, Tile, MAX_WORLD_EXTENT,
};
use dragonskale::resource_pool::{Fire, Health, ResourcePool};

#[test]
fn pool_starts_full() {
    let p = ResourcePool::<Health>::new(100);
    assert_eq!(p.amount(), 100);
    assert_eq!(p.max(), 100);
    assert!(!p.is_empty());
}

#[test]
fn pool_add_saturates_at_max() {
    let mut p = ResourcePool::<Health>::new(100);
    p.subtract(30);
    assert_eq!(p.amount(), 70);
    p.add(20);
    assert_eq!(p.amount(), 90);
    p.add(50);
    assert_eq!(p.amount(), 100);
    p.add(u16::MAX);
    assert_eq!(p.amount(), 100);
}

#[test]
fn pool_subtract_saturates_at_zero() {
    let mut p = ResourcePool::<Fire>::new(3);
    p.subtract(2);
    assert_eq!(p.amount(), 1);
    assert!(!p.is_empty());
    p.subtract(5);
    assert_eq!(p.amount(), 0);
    assert!(p.is_empty());
    p.subtract(u16::MAX);
    assert_eq!(p.amount(), 0);
}

#[test]
fn pool_zero_is_empty() {
    let mut p = ResourcePool::<Fire>::new(0);
    assert!(p.is_empty());
    p.add(10);
    assert_eq!(p.amount(), 0);
}

#[test]
fn pool_stays_in_bounds_over_mixed_sequence() {
    let mut p = ResourcePool::<Health>::new(40);
    let steps: [(bool, u16); 8] = [
        (false, 15),
        (false, 30),
        (true, 100),
        (true, 7),
        (false, 1000),
        (true, 39),
        (false, 2),
        (true, 0),
    ];
    for (add, n) in steps {
        if add {
            p.add(n);
        } else {
            p.subtract(n);
        }
        assert!(p.amount() <= 40);
    }
    assert_eq!(p.amount(), 37);
}

#[test]
fn isqrt_is_floor_of_root() {
    assert_eq!(isqrt_u128(0), 0);
    assert_eq!(isqrt_u128(1), 1);
    assert_eq!(isqrt_u128(99), 9);
    assert_eq!(isqrt_u128(100), 10);
    assert_eq!(isqrt_u128(u128::MAX), u64::MAX);
}

#[test]
fn distances_are_exact() {
    let a = Position::new(1, 2);
    let b = Position::new(4, 6);
    assert_eq!(distance_squared(a, b), 25);
    assert!(within_distance(a, b, 5));
    assert!(!within_distance(a, b, 4));
    let far = distance_squared(Position::new(i32::MIN, i32::MIN), Position::new(i32::MAX, i32::MAX));
    assert_eq!(far, 2 * (u32::MAX as u128) * (u32::MAX as u128));
}

#[test]
fn scaling_keeps_direction() {
    assert_eq!(scale_toward(Position::new(0, 0), Position::new(3, 4), 10), (6, 8));
    assert_eq!(scale_toward(Position::new(0, 0), Position::new(-3, -4), 1000), (-600, -800));
    assert_eq!(scale_toward(Position::new(5, 5), Position::new(5, -95), 2), (0, -2));
}

fn grid_10() -> Grid {
    Grid::new(10, 8, 32, 32).unwrap()
}

#[test]
fn grid_new_rejects_degenerate_sizes() {
    assert!(Grid::new(0, 8, 32, 32).is_none());
    assert!(Grid::new(8, 8, 0, 32).is_none());
    assert!(Grid::new(u32::MAX, 1, 2, 1).is_none());
    assert!(Grid::new((MAX_WORLD_EXTENT / 32) as u32, 1, 32, 1).is_some());
}

#[test]
fn grid_centres_map_back_to_their_cells() {
    let g = grid_10();
    for row in 0..8u32 {
        for col in 0..10u32 {
            let c = g.tile_center(col, row);
            assert_eq!(translate_transform_to_grid_space(&g, c), (col as usize, row as usize));
        }
    }
    assert_eq!(g.tile_center(0, 0), Position::new(-160, -128));
    assert_eq!(g.tile_center(5, 4), Position::new(0, 0));
}

#[test]
fn grid_rounds_to_nearest_cell() {
    let g = grid_10();
    assert_eq!(translate_transform_to_grid_space(&g, Position::new(15, -17)), (5, 3));
    assert_eq!(translate_transform_to_grid_space(&g, Position::new(16, 16)), (6, 5));
    assert_eq!(translate_transform_to_grid_space(&g, Position::new(-16, 0)), (5, 4));
    assert_eq!(translate_transform_to_grid_space(&g, Position::new(-17, 0)), (4, 4));
}

#[test]
fn grid_negative_clamps_to_origin() {
    let g = grid_10();
    assert_eq!(translate_transform_to_grid_space(&g, Position::new(-1000, 64)), (0, 0));
    assert_eq!(translate_transform_to_grid_space(&g, Position::new(64, -1000)), (0, 0));
    assert_eq!(translate_transform_to_grid_space(&g, Position::new(-176, -144)), (0, 0));
}

#[test]
fn tile_from_index() {
    assert_eq!(Tile::from(0u8), Tile::Water);
    assert_eq!(Tile::from(1u8), Tile::Sand);
    assert_eq!(Tile::from(2u8), Tile::Grass);
    assert_eq!(Tile::from(3u8), Tile::Hills);
    assert_eq!(Tile::from(4u8), Tile::Mountains);
    assert_eq!(Tile::from(9u8), Tile::Water);
}

#[test]
fn noise_buckets_are_clamped() {
    assert_eq!(Tile::from_noise_bucket(-3), Tile::Water);
    assert_eq!(Tile::from_noise_bucket(2), Tile::Grass);
    assert_eq!(Tile::from_noise_bucket(5), Tile::Mountains);
    assert_eq!(Tile::from_noise_bucket(i64::MAX), Tile::Mountains);
}

#[test]
fn generated_map_has_only_concrete_tiles() {
    let g = Grid::new(4, 3, 10, 10).unwrap();
    let buckets: Vec<i64> = vec![0, 1, 2, 3, 4, 5, -1, 7, 2, 2, 1, 0];
    let level = generate_level(g, &buckets);
    let expected = [
        Tile::Water, Tile::Sand, Tile::Grass, Tile::Hills,
        Tile::Mountains, Tile::Mountains, Tile::Water, Tile::Mountains,
        Tile::Grass, Tile::Grass, Tile::Sand, Tile::Water,
    ];
    for row in 0..3usize {
        for col in 0..4usize {
            let t = level.tile_at_cell(col, row).unwrap();
            assert_ne!(t, Tile::_LAST);
            assert_eq!(t, expected[row * 4 + col]);
        }
    }
    assert_eq!(level.tile_at_cell(4, 0), None);
    assert_eq!(level.tile_at_cell(0, 3), None);
}

#[test]
fn lookup_by_position() {
    let g = Grid::new(4, 3, 10, 10).unwrap();
    let buckets: Vec<i64> = vec![0, 1, 2, 3, 4, 4, 4, 4, 0, 0, 0, 0];
    let level = generate_level(g, &buckets);
    assert_eq!(level.get_from_position(g.tile_center(1, 0)), Some(Tile::Sand));
    assert_eq!(level.get_from_position(Position::new(-500, -500)), Some(Tile::Water));
    assert_eq!(level.get_from_position(Position::new(500, 0)), None);
    assert_eq!(level.get_from_position(Position::new(0, 500)), None);
}

#[test]
fn border_of_three_by_three() {
    let g = Grid::new(3, 3, 8, 8).unwrap();
    let level = generate_level(g, &vec![0; 9]);
    let b = level.border_tiles();
    assert_eq!(b, vec![(0, 0), (1, 0), (2, 0), (0, 1), (2, 1), (0, 2), (1, 2), (2, 2)]);
    assert!(!level.is_border_tile(1, 1));
    assert!(level.is_border_tile(2, 1));
    assert!(!level.is_border_tile(3, 0));
}

#[test]
fn border_of_two_by_two_is_everything() {
    let g = Grid::new(2, 2, 8, 8).unwrap();
    let level = generate_level(g, &vec![1; 4]);
    assert_eq!(level.border_tiles(), vec![(0, 0), (1, 0), (0, 1), (1, 1)]);
}

#[test]
fn border_of_wide_grid() {
    let g = Grid::new(5, 4, 8, 8).unwrap();
    let level = generate_level(g, &vec![1; 20]);
    let b = level.border_tiles();
    assert_eq!(b.len(), 14);
    for row in 0..4usize {
        for col in 0..5usize {
            let on_ring = row == 0 || col == 0 || row == 3 || col == 4;
            assert_eq!(b.contains(&(col, row)), on_ring);
            assert_eq!(level.is_border_tile(col, row), on_ring);
        }
    }
}

#[test]
fn tile_bundle_places_cell() {
    let g = Grid::new(3, 3, 8, 8).unwrap();
    let level = generate_level(g, &vec![0, 1, 2, 3, 4, 0, 1, 2, 3]);
    let b = level.tile_bundle(1, 1);
    assert_eq!(b.tile, Tile::Mountains);
    assert_eq!(b.translation, Position::new(-4, -4));
    assert!(!b.border);
    assert!(level.tile_bundle(0, 1).border);
}
