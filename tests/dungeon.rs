use nqar::dungeon::{MAX_ROOMS, MAX_SIZE, MIN_SIZE};
use nqar::map::{GameMap, TileType, WINDOW_HEIGHT, WINDOW_WIDTH};
use nqar::rectangle::Rectangle;
use rltk::RandomNumberGenerator;

fn floor(map: &GameMap, x: i32, y: i32) -> bool {
    map.tiles[map.xy_idx(x, y)] == TileType::Floor
}

fn interior(map: &GameMap, x: i32, y: i32) -> bool {
    x >= 1 && x < map.width - 1 && y >= 1 && y < map.height - 1
}

fn border_is_wall(map: &GameMap) -> bool {
    (0..map.height).all(|y| {
        (0..map.width).all(|x| interior(map, x, y) || !floor(map, x, y))
    })
}

fn room_is_floor(map: &GameMap, r: &Rectangle) -> bool {
    (r.upper_y + 1..=r.lower_y).all(|y| (r.upper_x + 1..=r.lower_x).all(|x| floor(map, x, y)))
}

fn row_floor(map: &GameMap, x1: i32, x2: i32, y: i32) -> bool {
    (x1.min(x2)..=x1.max(x2)).all(|x| !interior(map, x, y) || floor(map, x, y))
}

fn column_floor(map: &GameMap, y1: i32, y2: i32, x: i32) -> bool {
    (y1.min(y2)..=y1.max(y2)).all(|y| !interior(map, x, y) || floor(map, x, y))
}

fn corridor_is_floor(map: &GameMap, prev: &Rectangle, next: &Rectangle) -> bool {
    let (px, py) = prev.center();
    let (nx, ny) = next.center();
    let row_first = row_floor(map, px, nx, py) && column_floor(map, py, ny, nx);
    let column_first = column_floor(map, py, ny, px) && row_floor(map, px, nx, ny);
    row_first || column_first
}

fn on_row(x1: i32, x2: i32, y: i32, a: i32, b: i32) -> bool {
    b == y && x1.min(x2) <= a && a <= x1.max(x2)
}

fn on_column(y1: i32, y2: i32, x: i32, a: i32, b: i32) -> bool {
    a == x && y1.min(y2) <= b && b <= y1.max(y2)
}

fn planned(map: &GameMap, a: i32, b: i32) -> bool {
    map.rooms.iter().enumerate().any(|(k, r)| {
        let in_room = r.upper_x < a && a <= r.lower_x && r.upper_y < b && b <= r.lower_y;
        let on_corridor = k > 0 && {
            let (px, py) = map.rooms[k - 1].center();
            let (nx, ny) = r.center();
            (on_row(px, nx, py, a, b) || on_column(py, ny, nx, a, b))
                || (on_column(py, ny, px, a, b) || on_row(px, nx, ny, a, b))
        };
        in_room || on_corridor
    })
}

fn assert_dungeon_shape(map: &GameMap) {
    assert!(border_is_wall(map));
    for y in 0..map.height {
        for x in 0..map.width {
            assert!(!floor(map, x, y) || planned(map, x, y));
        }
    }
    for (k, r) in map.rooms.iter().enumerate() {
        assert!(r.upper_x >= 1 && r.lower_x <= map.width - 2);
        assert!(r.upper_y >= 1 && r.lower_y <= map.height - 2);
        assert!(room_is_floor(map, r));
        if k > 0 {
            assert!(corridor_is_floor(map, &map.rooms[k - 1], r));
        }
        for other in map.rooms.iter().take(k) {
            assert!(!other.intersect(r));
        }
    }
}

#[test]
fn seeded_generation_end_to_end() {
    let mut rng = RandomNumberGenerator::seeded(42);
    let map = GameMap::generate(80, 50, 5, 6, 10, &mut rng);
    assert_eq!((map.width, map.height), (80, 50));
    assert!(map.rooms.len() <= 5);
    assert!(!map.rooms.is_empty());
    let first = &map.rooms[0];
    assert!(first.upper_x >= 1 && first.lower_x <= 78 && first.upper_y >= 1 && first.lower_y <= 48);
    for y in first.upper_y + 1..=first.lower_y {
        for x in first.upper_x + 1..=first.lower_x {
            assert!(interior(&map, x, y));
        }
    }
    assert_dungeon_shape(&map);
}

#[test]
fn seeded_generation_is_deterministic() {
    let mut a = RandomNumberGenerator::seeded(7);
    let mut b = RandomNumberGenerator::seeded(7);
    let m1 = GameMap::generate(60, 40, 12, 4, 8, &mut a);
    let m2 = GameMap::generate(60, 40, 12, 4, 8, &mut b);
    assert_eq!(m1.tiles, m2.tiles);
    assert_eq!(m1.rooms, m2.rooms);
}

#[test]
fn generated_rooms_respect_size_bounds() {
    for seed in 0..20u64 {
        let mut rng = RandomNumberGenerator::seeded(seed);
        let map = GameMap::generate(80, 50, 30, 6, 10, &mut rng);
        assert!(map.rooms.len() <= 30);
        for r in map.rooms.iter() {
            let w = r.lower_x - r.upper_x;
            let h = r.lower_y - r.upper_y;
            assert!((6..=10).contains(&w) && (6..=10).contains(&h));
        }
        assert_dungeon_shape(&map);
    }
}

#[test]
fn generated_flags_start_cleared() {
    let mut rng = RandomNumberGenerator::seeded(3);
    let map = GameMap::generate(30, 20, 6, 3, 5, &mut rng);
    assert!(map.revealed_tiles.iter().all(|b| !*b));
    assert!(map.visible_tiles.iter().all(|b| !*b));
    assert!(map.occupied_tiles.iter().all(|b| !*b));
}

#[test]
fn oversized_rooms_are_clamped_without_panic() {
    let mut rng = RandomNumberGenerator::seeded(11);
    let map = GameMap::generate(10, 8, 5, 50, 60, &mut rng);
    assert_eq!(map.rooms.len(), 1);
    assert_eq!(map.rooms[0], Rectangle::new(1, 1, 7, 5));
    assert_dungeon_shape(&map);
}

#[test]
fn inverted_and_negative_sizes_do_not_panic() {
    let mut rng = RandomNumberGenerator::seeded(5);
    let map = GameMap::generate(20, 20, 10, 9, -3, &mut rng);
    assert_dungeon_shape(&map);
    let map = GameMap::generate(20, 20, 10, -4, -1, &mut rng);
    assert_dungeon_shape(&map);
}

#[test]
fn grid_too_small_for_rooms_stays_wall() {
    let mut rng = RandomNumberGenerator::seeded(1);
    let map = GameMap::generate(2, 2, 10, 1, 3, &mut rng);
    assert!(map.rooms.is_empty());
    assert!(map.tiles.iter().all(|t| *t == TileType::Wall));
}

#[test]
fn zero_or_negative_room_budget_places_nothing() {
    let mut rng = RandomNumberGenerator::seeded(1);
    let map = GameMap::generate(40, 30, 0, 4, 6, &mut rng);
    assert!(map.rooms.is_empty());
    let map = GameMap::generate(40, 30, -3, 4, 6, &mut rng);
    assert!(map.rooms.is_empty());
}

#[test]
fn default_map_uses_window_size() {
    let map = GameMap::new_map();
    assert_eq!((map.width, map.height), (WINDOW_WIDTH, WINDOW_HEIGHT));
    assert!(map.rooms.len() <= MAX_ROOMS as usize);
    assert!(!map.rooms.is_empty());
    for r in map.rooms.iter() {
        let w = r.lower_x - r.upper_x;
        assert!(w >= MIN_SIZE && w <= MAX_SIZE);
    }
    assert_dungeon_shape(&map);
}

#[test]
fn overlapping_room_is_rejected() {
    let mut map = GameMap::new(20, 20);
    assert!(map.fits(&Rectangle::new(1, 1, 5, 5)));
    assert!(map.try_add_room(Rectangle::new(1, 1, 5, 5), true));
    let before = map.tiles.clone();
    assert!(!map.fits(&Rectangle::new(4, 4, 5, 5)));
    assert!(!map.try_add_room(Rectangle::new(4, 4, 5, 5), false));
    assert_eq!(map.tiles, before);
    assert_eq!(map.rooms.len(), 1);
}

#[test]
fn placed_rooms_are_carved_and_joined() {
    let mut map = GameMap::new(20, 20);
    assert!(map.try_add_room(Rectangle::new(1, 1, 4, 4), true));
    assert!(floor(&map, 2, 2) && floor(&map, 5, 5));
    assert!(!floor(&map, 1, 1));
    assert!(!floor(&map, 6, 6));
    assert!(map.try_add_room(Rectangle::new(10, 12, 4, 4), true));
    assert_eq!(map.rooms.len(), 2);
    // Row first: along row 3 from column 3 to 12, then down column 12 to row 14.
    for x in 3..=12 {
        assert!(floor(&map, x, 3));
    }
    for y in 3..=14 {
        assert!(floor(&map, 12, y));
    }
    assert!(!floor(&map, 3, 10));
}

#[test]
fn column_first_corridor_turns_at_the_other_corner() {
    let mut map = GameMap::new(20, 20);
    assert!(map.try_add_room(Rectangle::new(1, 1, 4, 4), false));
    assert!(map.try_add_room(Rectangle::new(10, 12, 4, 4), false));
    for y in 3..=14 {
        assert!(floor(&map, 3, y));
    }
    for x in 3..=12 {
        assert!(floor(&map, x, 14));
    }
    assert!(!floor(&map, 8, 3));
}

#[test]
fn corridors_are_fully_floor_even_for_thin_rooms() {
    for seed in 0..10u64 {
        let mut rng = RandomNumberGenerator::seeded(seed);
        let map = GameMap::generate(50, 40, 8, 0, 5, &mut rng);
        for k in 1..map.rooms.len() {
            let (px, py) = map.rooms[k - 1].center();
            let (nx, ny) = map.rooms[k].center();
            let row_first = (px.min(nx)..=px.max(nx)).all(|x| floor(&map, x, py))
                && (py.min(ny)..=py.max(ny)).all(|y| floor(&map, nx, y));
            let column_first = (py.min(ny)..=py.max(ny)).all(|y| floor(&map, px, y))
                && (px.min(nx)..=px.max(nx)).all(|x| floor(&map, x, ny));
            assert!(row_first || column_first);
        }
        for r in map.rooms.iter() {
            assert!((0..=5).contains(&(r.lower_x - r.upper_x)));
            assert!((0..=5).contains(&(r.lower_y - r.upper_y)));
        }
    }
}

#[test]
fn rooms_never_touch_the_outer_ring() {
    for seed in 0..20u64 {
        let mut rng = RandomNumberGenerator::seeded(seed);
        let map = GameMap::generate(12, 9, 10, 0, 20, &mut rng);
        for r in map.rooms.iter() {
            assert!(r.upper_x >= 1 && r.upper_y >= 1);
            assert!(r.lower_x <= 10 && r.lower_y <= 7);
        }
        assert_dungeon_shape(&map);
    }
}
