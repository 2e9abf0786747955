use nqar::map::{GameMap, TileType};

fn open_map(width: i32, height: i32) -> GameMap {
    let mut map = GameMap::new(width, height);
    for y in 1..height - 1 {
        for x in 1..width - 1 {
            let idx = map.xy_idx(x, y);
            map.tiles[idx] = TileType::Floor;
        }
    }
    map
}

#[test]
fn xy_idx_round_trips_every_cell() {
    let map = GameMap::new(7, 5);
    for y in 0..5 {
        for x in 0..7 {
            let idx = map.xy_idx(x, y);
            assert_eq!(idx, (y * 7 + x) as usize);
            assert_eq!(map.idx_to_xy(idx), (x, y));
        }
    }
}

#[test]
fn new_map_is_all_wall_with_cleared_flags() {
    let map = GameMap::new(4, 3);
    assert_eq!(map.tiles.len(), 12);
    assert!(map.tiles.iter().all(|t| *t == TileType::Wall));
    assert!(map.revealed_tiles.iter().all(|b| !*b));
    assert!(map.visible_tiles.iter().all(|b| !*b));
    assert!(map.occupied_tiles.iter().all(|b| !*b));
    assert!(map.rooms.is_empty());
}

#[test]
fn in_bounds_covers_both_axes() {
    let map = GameMap::new(4, 3);
    assert!(map.in_bounds(0, 0));
    assert!(map.in_bounds(3, 2));
    assert!(!map.in_bounds(4, 0));
    assert!(!map.in_bounds(0, 3));
    assert!(!map.in_bounds(-1, 1));
}

#[test]
fn opaque_walls_and_out_of_range_indices() {
    let map = open_map(5, 5);
    assert!(map.is_opaque(0));
    assert!(!map.is_opaque(map.xy_idx(2, 2)));
    assert!(map.is_opaque(25));
    assert!(map.is_opaque(1000));
}

#[test]
fn blocked_follows_occupancy_and_range() {
    let mut map = open_map(5, 5);
    let idx = map.xy_idx(2, 2);
    assert!(!map.is_blocked(idx));
    map.occupied_tiles[idx] = true;
    assert!(map.is_blocked(idx));
    assert!(map.is_blocked(25));
}

#[test]
fn exits_in_open_space_are_all_four() {
    let map = open_map(5, 5);
    let idx = map.xy_idx(2, 2);
    assert_eq!(map.get_available_exits(idx), vec![idx - 1, idx + 1, idx - 5, idx + 5]);
}

#[test]
fn exits_skip_walls_and_occupied_cells() {
    let mut map = open_map(5, 5);
    let idx = map.xy_idx(1, 1);
    assert_eq!(map.get_available_exits(idx), vec![idx + 1, idx + 5]);
    let east = map.xy_idx(2, 1);
    map.occupied_tiles[east] = true;
    assert_eq!(map.get_available_exits(idx), vec![idx + 5]);
}

#[test]
fn exits_from_grid_corner_stay_in_bounds() {
    let mut map = GameMap::new(3, 3);
    for t in map.tiles.iter_mut() {
        *t = TileType::Floor;
    }
    assert_eq!(map.get_available_exits(0), vec![1, 3]);
    assert_eq!(map.get_available_exits(8), vec![7, 5]);
}

#[test]
fn exit_validity_matches_tiles() {
    let mut map = open_map(5, 5);
    assert!(map.is_exit_valid(2, 2));
    assert!(!map.is_exit_valid(0, 2));
    assert!(!map.is_exit_valid(-1, 2));
    assert!(!map.is_exit_valid(2, 5));
    let idx = map.xy_idx(3, 3);
    map.occupied_tiles[idx] = true;
    assert!(!map.is_exit_valid(3, 3));
}

#[test]
fn pathing_distance_is_squared_euclidean() {
    let map = GameMap::new(10, 10);
    let a = map.xy_idx(0, 0);
    let b = map.xy_idx(3, 4);
    assert_eq!(map.pathing_distance_sq(a, b), 25);
    assert_eq!(map.pathing_distance_sq(b, a), 25);
    assert_eq!(map.pathing_distance_sq(a, a), 0);
}

#[test]
fn populate_occupied_clears_every_flag() {
    let mut map = open_map(5, 5);
    map.occupied_tiles[3] = true;
    map.occupied_tiles[12] = true;
    map.revealed_tiles[4] = true;
    map.populate_occupied();
    assert!(map.occupied_tiles.iter().all(|b| !*b));
    assert!(map.revealed_tiles[4]);
}

#[test]
fn exits_of_an_index_off_the_grid_are_empty() {
    let map = open_map(5, 5);
    assert!(map.get_available_exits(25).is_empty());
    assert!(map.get_available_exits(usize::MAX).is_empty());
}

#[test]
fn pathing_distance_off_the_grid_is_maximal() {
    let map = GameMap::new(10, 10);
    assert_eq!(map.pathing_distance_sq(100, 0), u64::MAX);
    assert_eq!(map.pathing_distance_sq(0, 100), u64::MAX);
}
