use nqar::components::{Command, OccupiesTile, Position, World};
use nqar::map::{GameMap, TileType};
use nqar::map_indexing::MapIndexingSystem;
use nqar::monsters::{AiAction, MonsterAI};
use nqar::player::{try_move_player, DEFAULT_FOV};
use nqar::state::{RunState, State};
use nqar::visibility::{clip_to_sight, VisibilitySystem};
use rltk::{Algorithm2D, BaseMap, Point, SmallVec};

struct Grid<'a>(&'a GameMap);

impl<'a> BaseMap for Grid<'a> {
    fn is_opaque(&self, idx: usize) -> bool {
        self.0.is_opaque(idx)
    }

    fn get_available_exits(&self, idx: usize) -> SmallVec<[(usize, f32); 10]> {
        self.0.get_available_exits(idx).into_iter().map(|i| (i, 1.0)).collect()
    }

    fn get_pathing_distance(&self, idx1: usize, idx2: usize) -> f32 {
        (self.0.pathing_distance_sq(idx1, idx2) as f32).sqrt()
    }
}

impl<'a> Algorithm2D for Grid<'a> {
    fn dimensions(&self) -> Point {
        Point::new(self.0.width, self.0.height)
    }
}

fn open_map(width: i32, height: i32) -> GameMap {
    let mut map = GameMap::new(width, height);
    for t in map.tiles.iter_mut() {
        *t = TileType::Floor;
    }
    map
}

fn fov_of(map: &GameMap, world: &World) -> Vec<Vec<Position>> {
    (0..world.len())
        .map(|e| match (&world.positions[e], &world.viewsheds[e]) {
            (Some(p), Some(v)) => rltk::field_of_view(Point::new(p.x, p.y), v.range, &Grid(map))
                .into_iter()
                .map(|q| Position { x: q.x, y: q.y })
                .collect(),
            _ => Vec::new(),
        })
        .collect()
}

fn paths_of(map: &GameMap, world: &World) -> Vec<Vec<usize>> {
    let target = world.player_pos;
    (0..world.len())
        .map(|e| match world.positions[e] {
            Some(p) if map.in_bounds(p.x, p.y) && map.in_bounds(target.x, target.y) => {
                let path = rltk::a_star_search(
                    map.xy_idx(p.x, p.y),
                    map.xy_idx(target.x, target.y),
                    &Grid(map),
                );
                if path.success {
                    path.steps
                } else {
                    Vec::new()
                }
            }
            _ => Vec::new(),
        })
        .collect()
}

fn spawn_player(world: &mut World, x: i32, y: i32) -> usize {
    let e = world.create_entity();
    world.with_position(e, Position { x, y });
    world.with_viewshed(e, DEFAULT_FOV);
    world.with_player(e);
    world.player_pos = Position { x, y };
    e
}

fn spawn_monster(world: &mut World, x: i32, y: i32) -> usize {
    let e = world.create_entity();
    world.with_position(e, Position { x, y });
    world.with_viewshed(e, DEFAULT_FOV);
    world.with_monster(e, "Goblin".to_string());
    world.with_occupies_tile(e);
    e
}

fn sight(map: &mut GameMap, world: &mut World) {
    let fovs = fov_of(map, world);
    VisibilitySystem {}.run(map, world, &fovs);
}

#[test]
fn occupancy_marks_exactly_blocker_cells() {
    let mut map = open_map(6, 6);
    let mut world = World::new(Position { x: 0, y: 0 });
    let a = spawn_monster(&mut world, 1, 1);
    let b = spawn_monster(&mut world, 1, 1);
    let c = spawn_monster(&mut world, 4, 2);
    world.with_position(c, Position { x: 9, y: 9 });
    let free = world.create_entity();
    world.with_position(free, Position { x: 3, y: 3 });
    let d = spawn_monster(&mut world, 2, 5);
    map.occupied_tiles[0] = true;
    MapIndexingSystem {}.run(&mut map, &world);
    let marked: Vec<usize> = (0..36).filter(|i| map.occupied_tiles[*i]).collect();
    assert_eq!(marked, vec![map.xy_idx(1, 1), map.xy_idx(2, 5)]);
    assert!(a != b && d != free);
}

#[test]
fn clip_drops_cells_off_grid_and_beyond_range() {
    let map = open_map(10, 10);
    let cells = vec![
        Position { x: 5, y: 5 },
        Position { x: 8, y: 5 },
        Position { x: 7, y: 7 },
        Position { x: 9, y: 6 },
        Position { x: -1, y: 5 },
        Position { x: 5, y: 10 },
        Position { x: 3, y: 4 },
    ];
    let kept = clip_to_sight(&map, &cells, Position { x: 5, y: 5 }, 3);
    assert_eq!(
        kept,
        vec![Position { x: 5, y: 5 }, Position { x: 8, y: 5 }, Position { x: 7, y: 7 }, Position { x: 3, y: 4 }]
    );
}

#[test]
fn viewer_never_sees_beyond_its_range() {
    let mut map = open_map(30, 30);
    let mut world = World::new(Position { x: 15, y: 15 });
    let p = spawn_player(&mut world, 15, 15);
    sight(&mut map, &mut world);
    let seen = &world.viewsheds[p].as_ref().unwrap().visible_tiles;
    assert!(!seen.is_empty());
    for q in seen.iter() {
        let (dx, dy) = (q.x - 15, q.y - 15);
        assert!(dx * dx + dy * dy <= DEFAULT_FOV * DEFAULT_FOV);
    }
    assert!(seen.contains(&Position { x: 23, y: 15 }));
    assert!(!seen.contains(&Position { x: 23, y: 16 }));
}

#[test]
fn adjacent_wall_is_visible() {
    let mut map = open_map(12, 12);
    let wall = map.xy_idx(6, 5);
    map.tiles[wall] = TileType::Wall;
    let mut world = World::new(Position { x: 5, y: 5 });
    let p = spawn_player(&mut world, 5, 5);
    sight(&mut map, &mut world);
    let seen = &world.viewsheds[p].as_ref().unwrap().visible_tiles;
    assert!(seen.contains(&Position { x: 6, y: 5 }));
    assert!(map.visible_tiles[wall] && map.revealed_tiles[wall]);
}

#[test]
fn walls_hide_what_lies_behind_them() {
    let mut map = open_map(12, 12);
    for y in 0..12 {
        let idx = map.xy_idx(6, y);
        map.tiles[idx] = TileType::Wall;
    }
    let mut world = World::new(Position { x: 3, y: 5 });
    let p = spawn_player(&mut world, 3, 5);
    sight(&mut map, &mut world);
    let seen = &world.viewsheds[p].as_ref().unwrap().visible_tiles;
    assert!(seen.contains(&Position { x: 6, y: 5 }));
    assert!(!seen.contains(&Position { x: 8, y: 5 }));
    assert!(!map.revealed_tiles[map.xy_idx(8, 5)]);
}

#[test]
fn revealed_cells_stay_revealed() {
    let mut map = open_map(40, 10);
    let mut world = World::new(Position { x: 2, y: 5 });
    let p = spawn_player(&mut world, 2, 5);
    sight(&mut map, &mut world);
    let early = map.xy_idx(3, 5);
    assert!(map.visible_tiles[early] && map.revealed_tiles[early]);
    world.with_position(p, Position { x: 35, y: 5 });
    world.player_pos = Position { x: 35, y: 5 };
    sight(&mut map, &mut world);
    assert!(!map.visible_tiles[early]);
    assert!(map.revealed_tiles[early]);
    assert!(map.visible_tiles[map.xy_idx(35, 5)]);
}

#[test]
fn creatures_do_not_reveal_cells() {
    let mut map = open_map(10, 10);
    let mut world = World::new(Position { x: 0, y: 0 });
    let m = spawn_monster(&mut world, 5, 5);
    sight(&mut map, &mut world);
    assert!(!world.viewsheds[m].as_ref().unwrap().visible_tiles.is_empty());
    assert!(map.revealed_tiles.iter().all(|b| !*b));
    assert!(map.visible_tiles.iter().all(|b| !*b));
}

#[test]
fn adjacent_creature_attacks_and_stays() {
    let mut map = open_map(10, 10);
    let mut world = World::new(Position { x: 5, y: 5 });
    spawn_player(&mut world, 5, 5);
    let m = spawn_monster(&mut world, 6, 5);
    sight(&mut map, &mut world);
    let ai = MonsterAI {};
    assert_eq!(ai.decide(&world, m), AiAction::Attack);
    let paths = paths_of(&map, &world);
    let actions = MonsterAI {}.run(&map, &mut world, &paths);
    assert_eq!(actions[m], AiAction::Attack);
    assert_eq!(world.positions[m], Some(Position { x: 6, y: 5 }));
}

#[test]
fn diagonal_neighbour_counts_as_adjacent() {
    let mut map = open_map(10, 10);
    let mut world = World::new(Position { x: 5, y: 5 });
    spawn_player(&mut world, 5, 5);
    let m = spawn_monster(&mut world, 6, 6);
    sight(&mut map, &mut world);
    assert_eq!(MonsterAI {}.decide(&world, m), AiAction::Attack);
}

#[test]
fn creature_closes_in_one_step_per_tick() {
    let mut map = open_map(10, 10);
    let mut world = World::new(Position { x: 7, y: 5 });
    spawn_player(&mut world, 7, 5);
    let m = spawn_monster(&mut world, 2, 5);
    let mut last = 5;
    for _ in 0..4 {
        MapIndexingSystem {}.run(&mut map, &world);
        sight(&mut map, &mut world);
        let paths = paths_of(&map, &world);
        let actions = MonsterAI {}.run(&map, &mut world, &paths);
        assert_eq!(actions[m], AiAction::Chase);
        let p = world.positions[m].unwrap();
        let d = (p.x - 7).abs() + (p.y - 5).abs();
        assert_eq!(d, last - 1);
        assert!(world.viewsheds[m].as_ref().unwrap().dirty);
        last = d;
    }
    assert_eq!(last, 1);
    sight(&mut map, &mut world);
    assert_eq!(MonsterAI {}.decide(&world, m), AiAction::Attack);
}

#[test]
fn creature_that_cannot_see_the_player_idles() {
    let mut map = open_map(12, 12);
    for y in 0..12 {
        let idx = map.xy_idx(6, y);
        map.tiles[idx] = TileType::Wall;
    }
    let mut world = World::new(Position { x: 2, y: 5 });
    spawn_player(&mut world, 2, 5);
    let m = spawn_monster(&mut world, 9, 5);
    sight(&mut map, &mut world);
    let paths = paths_of(&map, &world);
    let actions = MonsterAI {}.run(&map, &mut world, &paths);
    assert_eq!(actions[m], AiAction::Idle);
    assert_eq!(world.positions[m], Some(Position { x: 9, y: 5 }));
}

#[test]
fn chasing_creature_without_path_waits() {
    let mut map = open_map(10, 10);
    let mut world = World::new(Position { x: 7, y: 5 });
    spawn_player(&mut world, 7, 5);
    let m = spawn_monster(&mut world, 2, 5);
    sight(&mut map, &mut world);
    let paths = vec![Vec::new(), vec![map.xy_idx(2, 5)]];
    let actions = MonsterAI {}.run(&map, &mut world, &paths);
    assert_eq!(actions[m], AiAction::Chase);
    assert_eq!(world.positions[m], Some(Position { x: 2, y: 5 }));
}

#[test]
fn player_blocked_by_wall_does_not_move() {
    let mut map = open_map(6, 6);
    let wall = map.xy_idx(3, 2);
    map.tiles[wall] = TileType::Wall;
    let mut world = World::new(Position { x: 2, y: 2 });
    let p = spawn_player(&mut world, 2, 2);
    world.viewsheds[p].as_mut().unwrap().dirty = false;
    assert!(!try_move_player(1, 0, &mut world, &map));
    assert_eq!(world.positions[p], Some(Position { x: 2, y: 2 }));
    assert_eq!(world.player_pos, Position { x: 2, y: 2 });
    assert!(!world.viewsheds[p].as_ref().unwrap().dirty);
}

#[test]
fn player_blocked_by_occupied_cell_does_not_move() {
    let mut map = open_map(6, 6);
    let mut world = World::new(Position { x: 2, y: 2 });
    let p = spawn_player(&mut world, 2, 2);
    spawn_monster(&mut world, 2, 3);
    MapIndexingSystem {}.run(&mut map, &world);
    assert!(!try_move_player(0, 1, &mut world, &map));
    assert_eq!(world.positions[p], Some(Position { x: 2, y: 2 }));
    assert_eq!(world.player_pos, Position { x: 2, y: 2 });
}

#[test]
fn player_cannot_leave_the_grid() {
    let map = open_map(4, 4);
    let mut world = World::new(Position { x: 0, y: 0 });
    let p = spawn_player(&mut world, 0, 0);
    assert!(!try_move_player(-1, -1, &mut world, &map));
    assert_eq!(world.positions[p], Some(Position { x: 0, y: 0 }));
}

#[test]
fn player_moves_onto_free_floor() {
    let map = open_map(6, 6);
    let mut world = World::new(Position { x: 2, y: 2 });
    let p = spawn_player(&mut world, 2, 2);
    world.viewsheds[p].as_mut().unwrap().dirty = false;
    assert!(try_move_player(1, 1, &mut world, &map));
    assert_eq!(world.positions[p], Some(Position { x: 3, y: 3 }));
    assert_eq!(world.player_pos, Position { x: 3, y: 3 });
    assert!(world.viewsheds[p].as_ref().unwrap().dirty);
}

#[test]
fn one_tick_runs_every_system() {
    let mut map = open_map(10, 10);
    let mut world = World::new(Position { x: 7, y: 5 });
    spawn_player(&mut world, 7, 5);
    let m = spawn_monster(&mut world, 2, 5);
    let fovs = fov_of(&map, &world);
    MapIndexingSystem {}.run(&mut map, &world);
    let paths = paths_of(&map, &world);
    let mut state = State { ecs: world, map, run_state: RunState::Running };
    let actions = state.run_systems(&fovs, &paths);
    assert_eq!(actions, vec![AiAction::Idle, AiAction::Chase]);
    assert!(state.map.occupied_tiles[state.map.xy_idx(2, 5)]);
    assert!(state.map.revealed_tiles[state.map.xy_idx(2, 5)]);
    assert_eq!(state.ecs.positions[m], Some(Position { x: 3, y: 5 }));
    assert_eq!(state.run_state, RunState::Running);
}

#[test]
fn clipped_view_keeps_each_cell_once() {
    let map = open_map(10, 10);
    let cells = vec![
        Position { x: 4, y: 4 },
        Position { x: 5, y: 5 },
        Position { x: 4, y: 4 },
        Position { x: 5, y: 5 },
        Position { x: 6, y: 5 },
    ];
    let kept = clip_to_sight(&map, &cells, Position { x: 5, y: 5 }, 3);
    assert_eq!(kept, vec![Position { x: 4, y: 4 }, Position { x: 5, y: 5 }, Position { x: 6, y: 5 }]);
}

#[test]
fn creature_ignores_a_path_step_that_is_not_an_exit() {
    let mut map = open_map(10, 10);
    let mut world = World::new(Position { x: 7, y: 5 });
    spawn_player(&mut world, 7, 5);
    let m = spawn_monster(&mut world, 2, 5);
    sight(&mut map, &mut world);
    let jump = vec![map.xy_idx(2, 5), map.xy_idx(4, 5)];
    let diagonal = vec![map.xy_idx(2, 5), map.xy_idx(3, 6)];
    for path in [jump, diagonal] {
        let paths = vec![Vec::new(), path];
        let actions = MonsterAI {}.run(&map, &mut world, &paths);
        assert_eq!(actions[m], AiAction::Chase);
        assert_eq!(world.positions[m], Some(Position { x: 2, y: 5 }));
    }
    let wall = map.xy_idx(3, 5);
    map.tiles[wall] = TileType::Wall;
    let paths = vec![Vec::new(), vec![map.xy_idx(2, 5), wall]];
    MonsterAI {}.run(&map, &mut world, &paths);
    assert_eq!(world.positions[m], Some(Position { x: 2, y: 5 }));
}

#[test]
fn one_tick_rebuilds_sight_before_creatures_decide() {
    let mut map = open_map(10, 10);
    let mut world = World::new(Position { x: 7, y: 5 });
    let p = spawn_player(&mut world, 7, 5);
    let m = spawn_monster(&mut world, 6, 5);
    assert_eq!(MonsterAI {}.decide(&world, m), AiAction::Idle);
    let fovs = fov_of(&map, &world);
    MapIndexingSystem {}.run(&mut map, &world);
    let paths = paths_of(&map, &world);
    let mut state = State { ecs: world, map, run_state: RunState::Paused };
    let actions = state.run_systems(&fovs, &paths);
    assert_eq!(actions, vec![AiAction::Idle, AiAction::Attack]);
    assert_eq!(state.ecs.positions[m], Some(Position { x: 6, y: 5 }));
    assert!(state.map.visible_tiles[state.map.xy_idx(7, 5)]);
    assert!(!state.ecs.viewsheds[p].as_ref().unwrap().visible_tiles.is_empty());
}

#[test]
fn maintain_applies_queued_commands_in_order() {
    let mut world = World::new(Position { x: 0, y: 0 });
    let a = spawn_monster(&mut world, 1, 1);
    world.enqueue(Command::Spawn);
    world.enqueue(Command::Place(1, Position { x: 4, y: 4 }));
    world.enqueue(Command::Block(1));
    world.enqueue(Command::Unblock(a));
    world.enqueue(Command::Place(a, Position { x: 2, y: 2 }));
    world.enqueue(Command::Clear(a));
    world.enqueue(Command::Place(7, Position { x: 9, y: 9 }));
    assert_eq!(world.len(), 1);
    world.maintain();
    assert!(world.pending.is_empty());
    assert_eq!(world.len(), 2);
    assert_eq!(world.positions[1], Some(Position { x: 4, y: 4 }));
    assert_eq!(world.occupiers[1], Some(OccupiesTile {}));
    assert_eq!(world.positions[a], None);
    assert!(world.viewsheds[a].is_none() && world.monsters[a].is_none());
    assert!(world.occupiers[a].is_none());
}

#[test]
fn tick_commits_queued_changes_after_the_systems() {
    let mut map = open_map(10, 10);
    let mut world = World::new(Position { x: 7, y: 5 });
    spawn_player(&mut world, 7, 5);
    let m = spawn_monster(&mut world, 2, 5);
    world.enqueue(Command::Place(m, Position { x: 1, y: 1 }));
    world.enqueue(Command::Spawn);
    let fovs = fov_of(&map, &world);
    MapIndexingSystem {}.run(&mut map, &world);
    let paths = paths_of(&map, &world);
    let mut state = State { ecs: world, map, run_state: RunState::Running };
    let actions = state.run_systems(&fovs, &paths);
    // The creature chased from its old cell; the queued placement comes after.
    assert_eq!(actions[m], AiAction::Chase);
    assert!(state.map.occupied_tiles[state.map.xy_idx(2, 5)]);
    assert_eq!(state.ecs.positions[m], Some(Position { x: 1, y: 1 }));
    assert_eq!(state.ecs.len(), 3);
    assert!(state.ecs.pending.is_empty());
}
