//! The occupancy index: which cells a blocking entity stands on.
use vstd::prelude::*;

use crate::components::World;
use crate::map::{GameMap, index_of};

verus! {

/// Entity `e` blocks movement and stands on the in-bounds cell with index
/// `i` of a grid of the given size.
pub open spec fn blocks_at(world: &World, width: int, height: int, e: int, i: int) -> bool {
    &&& world.occupiers@[e] is Some
    &&& world.positions@[e] is Some
    &&& 0 <= world.positions@[e]->Some_0.x < width
    &&& 0 <= world.positions@[e]->Some_0.y < height
    &&& index_of(
        world.positions@[e]->Some_0.x as int,
        world.positions@[e]->Some_0.y as int,
        width,
    ) == i
}

/// Some entity among the first `count` blocks cell index `i`.
pub open spec fn blocked_by_any(world: &World, width: int, height: int, i: int, count: int) -> bool {
    exists|e: int| 0 <= e < count && #[trigger] blocks_at(world, width, height, e, i)
}

/// Rebuilds the occupancy flags from the positions of blocking entities.
pub struct MapIndexingSystem {}

impl MapIndexingSystem {
    /// Clears every occupancy flag, then sets the flag of each cell on which
    /// an entity with both a position and the blocking marker stands.
    /// Positions off the grid are ignored.
    pub fn run(&mut self, map: &mut GameMap, world: &World)
        requires
            old(map).wf(),
            world.wf(),
        ensures
            final(map).wf(),
            final(map).width == old(map).width,
            final(map).height == old(map).height,
            final(map).tiles@ == old(map).tiles@,
            final(map).rooms@ == old(map).rooms@,
            final(map).revealed_tiles@ == old(map).revealed_tiles@,
            final(map).visible_tiles@ == old(map).visible_tiles@,
            forall|i: int|
                0 <= i < final(map).len_spec() ==> #[trigger] final(map).occupied_tiles@[i]
                    == blocked_by_any(
                    world,
                    old(map).width as int,
                    old(map).height as int,
                    i,
                    world.len_spec(),
                ),
    {
        map.populate_occupied();
        let ghost w = map.width as int;
        let ghost h = map.height as int;
        let mut k: usize = 0;
        while k < world.positions.len()
            invariant
                map.wf(),
                world.wf(),
                map.width == old(map).width,
                map.height == old(map).height,
                map.tiles@ == old(map).tiles@,
                map.rooms@ == old(map).rooms@,
                map.revealed_tiles@ == old(map).revealed_tiles@,
                map.visible_tiles@ == old(map).visible_tiles@,
                w == map.width,
                h == map.height,
                k <= world.len_spec(),
                forall|i: int|
                    0 <= i < map.len_spec() ==> #[trigger] map.occupied_tiles@[i]
                        == blocked_by_any(world, w, h, i, k as int),
            decreases world.len_spec() - k,
        {
            let ghost before = map.occupied_tiles@;
            if world.occupiers[k].is_some() {
                match world.positions[k] {
                    Some(p) => {
                        if map.in_bounds(p.x, p.y) {
                            let idx = map.xy_idx(p.x, p.y);
                            map.occupied_tiles.set(idx, true);
                            assert(blocks_at(world, w, h, k as int, idx as int));
                        }
                    },
                    None => {},
                }
            }
            proof {
                assert forall|i: int| 0 <= i < map.len_spec() implies #[trigger] map.occupied_tiles@[i]
                    == blocked_by_any(world, w, h, i, k + 1) by {
                    if blocks_at(world, w, h, k as int, i) {
                        assert(map.occupied_tiles@[i]);
                    } else {
                        assert(map.occupied_tiles@[i] == before[i]);
                        if blocked_by_any(world, w, h, i, k + 1) {
                            let e = choose|e: int| 0 <= e < k + 1 && #[trigger] blocks_at(world, w, h, e, i);
                            assert(e < k);
                        }
                    }
                }
            }
            k = k + 1;
        }
    }
}

} // verus!
