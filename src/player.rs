//! Moving the player's entity on a directional command.
use vstd::prelude::*;

use crate::components::{Position, Viewshed, World};
use crate::map::GameMap;

verus! {

/// Sight range of a new player character, in cells.
pub const DEFAULT_FOV: i32 = 8;

/// Entity `e` is a player with a position and a viewshed.
pub open spec fn is_mover(world: &World, e: int) -> bool {
    &&& world.players@[e] is Some
    &&& world.positions@[e] is Some
    &&& world.viewsheds@[e] is Some
}

/// The cell one step of `(dx, dy)` away from `p`.
pub open spec fn step_target(p: Position, dx: int, dy: int) -> (int, int) {
    (p.x + dx, p.y + dy)
}

/// Entity `e` is a player whose step lands on a cell it may enter.
pub open spec fn step_allowed(map: &GameMap, world: &World, e: int, dx: int, dy: int) -> bool {
    &&& is_mover(world, e)
    &&& {
        let t = step_target(world.positions@[e]->Some_0, dx, dy);
        map.exit_valid_spec(t.0, t.1)
    }
}

/// The position entity `e` takes after its step.
pub open spec fn stepped(world: &World, e: int, dx: int, dy: int) -> Position {
    let t = step_target(world.positions@[e]->Some_0, dx, dy);
    Position { x: t.0 as i32, y: t.1 as i32 }
}

/// Moves player entity `e` one step when it may; returns whether it moved.
fn move_one(delta_x: i32, delta_y: i32, world: &mut World, map: &GameMap, e: usize) -> (r: bool)
    requires
        map.wf(),
        old(world).wf(),
        e < old(world).len_spec(),
    ensures
        r == step_allowed(map, old(world), e as int, delta_x as int, delta_y as int),
        final(world).wf(),
        final(world).monsters@ == old(world).monsters@,
        final(world).occupiers@ == old(world).occupiers@,
        final(world).players@ == old(world).players@,
        final(world).pending@ == old(world).pending@,
        !r ==> final(world).positions@ == old(world).positions@ && final(world).viewsheds@ == old(
            world,
        ).viewsheds@ && final(world).player_pos == old(world).player_pos,
        r ==> {
            &&& final(world).positions@ == old(world).positions@.update(
                e as int,
                Some(stepped(old(world), e as int, delta_x as int, delta_y as int)),
            )
            &&& final(world).player_pos == stepped(
                old(world),
                e as int,
                delta_x as int,
                delta_y as int,
            )
            &&& final(world).viewsheds@.len() == old(world).viewsheds@.len()
            &&& forall|k: int|
                0 <= k < old(world).len_spec() && k != e ==> #[trigger] final(world).viewsheds@[k]
                    == old(world).viewsheds@[k]
            &&& final(world).viewsheds@[e as int] is Some
            &&& final(world).viewsheds@[e as int]->Some_0.visible_tiles@ == old(
                world,
            ).viewsheds@[e as int]->Some_0.visible_tiles@
            &&& final(world).viewsheds@[e as int]->Some_0.range == old(
                world,
            ).viewsheds@[e as int]->Some_0.range
            &&& final(world).viewsheds@[e as int]->Some_0.dirty
        },
{
    if world.players[e].is_none() || world.viewsheds[e].is_none() {
        return false;
    }
    let pos = match world.positions[e] {
        Some(p) => p,
        None => {
            return false;
        },
    };
    let tx: i64 = pos.x as i64 + delta_x as i64;
    let ty: i64 = pos.y as i64 + delta_y as i64;
    if tx < 0 || tx >= map.width as i64 || ty < 0 || ty >= map.height as i64 {
        return false;
    }
    if !map.is_exit_valid(tx as i32, ty as i32) {
        return false;
    }
    let target = Position { x: tx as i32, y: ty as i32 };
    let mut slot: Option<Viewshed> = None;
    world.viewsheds.set_and_swap(e, &mut slot);
    match slot {
        Some(v) => {
            let updated = Viewshed { visible_tiles: v.visible_tiles, range: v.range, dirty: true };
            world.viewsheds.set(e, Some(updated));
        },
        None => {},
    }
    world.positions.set(e, Some(target));
    world.player_pos = target;
    true
}

/// Moves every player entity by `(delta_x, delta_y)` when the destination
/// is on the grid, not a wall and not occupied: its position and the shared
/// player position take the new cell and its sight is marked stale. A
/// refused move changes nothing. Returns whether any player moved.
pub fn try_move_player(delta_x: i32, delta_y: i32, world: &mut World, map: &GameMap) -> (r: bool)
    requires
        map.wf(),
        old(world).wf(),
    ensures
        final(world).wf(),
        final(world).monsters@ == old(world).monsters@,
        final(world).occupiers@ == old(world).occupiers@,
        final(world).players@ == old(world).players@,
        final(world).pending@ == old(world).pending@,
        final(world).positions@.len() == old(world).positions@.len(),
        final(world).viewsheds@.len() == old(world).viewsheds@.len(),
        r == exists|e: int|
            0 <= e < old(world).len_spec() && #[trigger] step_allowed(
                map,
                old(world),
                e,
                delta_x as int,
                delta_y as int,
            ),
        !r ==> final(world).player_pos == old(world).player_pos,
        r ==> exists|e: int|
            0 <= e < old(world).len_spec() && #[trigger] step_allowed(
                map,
                old(world),
                e,
                delta_x as int,
                delta_y as int,
            ) && final(world).player_pos == stepped(old(world), e, delta_x as int, delta_y as int),
        forall|e: int|
            0 <= e < old(world).len_spec() && !step_allowed(
                map,
                old(world),
                e,
                delta_x as int,
                delta_y as int,
            ) ==> {
                &&& #[trigger] final(world).positions@[e] == old(world).positions@[e]
                &&& final(world).viewsheds@[e] == old(world).viewsheds@[e]
            },
        forall|e: int|
            0 <= e < old(world).len_spec() && step_allowed(
                map,
                old(world),
                e,
                delta_x as int,
                delta_y as int,
            ) ==> {
                &&& #[trigger] final(world).positions@[e] == Some(
                    stepped(old(world), e, delta_x as int, delta_y as int),
                )
                &&& final(world).viewsheds@[e] is Some
                &&& final(world).viewsheds@[e]->Some_0.visible_tiles@ == old(
                    world,
                ).viewsheds@[e]->Some_0.visible_tiles@
                &&& final(world).viewsheds@[e]->Some_0.range == old(
                    world,
                ).viewsheds@[e]->Some_0.range
                &&& final(world).viewsheds@[e]->Some_0.dirty
            },
{
    let ghost w0 = *old(world);
    let ghost dx = delta_x as int;
    let ghost dy = delta_y as int;
    let mut moved = false;
    let mut e: usize = 0;
    while e < world.positions.len()
        invariant
            map.wf(),
            w0 == *old(world),
            dx == delta_x,
            dy == delta_y,
            world.wf(),
            world.len_spec() == w0.len_spec(),
            world.viewsheds@.len() == w0.viewsheds@.len(),
            world.monsters@ == w0.monsters@,
            world.occupiers@ == w0.occupiers@,
            world.players@ == w0.players@,
            world.pending@ == w0.pending@,
            e <= world.len_spec(),
            moved == exists|k: int| 0 <= k < e && #[trigger] step_allowed(map, &w0, k, dx, dy),
            !moved ==> world.player_pos == w0.player_pos,
            moved ==> exists|k: int|
                0 <= k < e && #[trigger] step_allowed(map, &w0, k, dx, dy) && world.player_pos
                    == stepped(&w0, k, dx, dy),
            forall|k: int| e <= k < w0.len_spec() ==> #[trigger] world.positions@[k] == w0.positions@[k],
            forall|k: int| e <= k < w0.len_spec() ==> #[trigger] world.viewsheds@[k] == w0.viewsheds@[k],
            forall|k: int|
                0 <= k < e && !step_allowed(map, &w0, k, dx, dy) ==> {
                    &&& #[trigger] world.positions@[k] == w0.positions@[k]
                    &&& world.viewsheds@[k] == w0.viewsheds@[k]
                },
            forall|k: int|
                0 <= k < e && step_allowed(map, &w0, k, dx, dy) ==> {
                    &&& #[trigger] world.positions@[k] == Some(stepped(&w0, k, dx, dy))
                    &&& world.viewsheds@[k] is Some
                    &&& world.viewsheds@[k]->Some_0.visible_tiles@
                        == w0.viewsheds@[k]->Some_0.visible_tiles@
                    &&& world.viewsheds@[k]->Some_0.range == w0.viewsheds@[k]->Some_0.range
                    &&& world.viewsheds@[k]->Some_0.dirty
                },
        decreases w0.len_spec() - e,
    {
        let ghost pre = *world;
        proof {
            assert(pre.positions@[e as int] == w0.positions@[e as int]);
            assert(pre.viewsheds@[e as int] == w0.viewsheds@[e as int]);
            assert(step_allowed(map, &pre, e as int, dx, dy) == step_allowed(map, &w0, e as int, dx, dy));
            assert(stepped(&pre, e as int, dx, dy) == stepped(&w0, e as int, dx, dy));
        }
        let ghost moved_before = moved;
        let stepped_now = move_one(delta_x, delta_y, world, map, e);
        if stepped_now {
            moved = true;
        }
        let ghost eo = e as int;
        e = e + 1;
        proof {
            assert forall|k: int| 0 <= k < eo implies #[trigger] world.positions@[k]
                == pre.positions@[k] && world.viewsheds@[k] == pre.viewsheds@[k] by {}
            assert forall|k: int|
                0 <= k < e && !step_allowed(map, &w0, k, dx, dy) implies #[trigger] world.positions@[k]
                == w0.positions@[k] && world.viewsheds@[k] == w0.viewsheds@[k] by {
                if k < eo {
                    assert(pre.positions@[k] == w0.positions@[k]);
                }
            }
            assert forall|k: int| 0 <= k < e && step_allowed(map, &w0, k, dx, dy) implies {
                &&& #[trigger] world.positions@[k] == Some(stepped(&w0, k, dx, dy))
                &&& world.viewsheds@[k] is Some
                &&& world.viewsheds@[k]->Some_0.visible_tiles@ == w0.viewsheds@[k]->Some_0.visible_tiles@
                &&& world.viewsheds@[k]->Some_0.range == w0.viewsheds@[k]->Some_0.range
                &&& world.viewsheds@[k]->Some_0.dirty
            } by {
                if k < eo {
                    assert(world.positions@[k] == pre.positions@[k]);
                } else {
                    assert(stepped(&pre, k, dx, dy) == stepped(&w0, k, dx, dy));
                    assert(step_allowed(map, &pre, k, dx, dy));
                }
            }
            if moved {
                if stepped_now {
                    assert(step_allowed(map, &w0, eo, dx, dy));
                } else {
                    let k = choose|k: int|
                        0 <= k < eo && #[trigger] step_allowed(map, &w0, k, dx, dy) && pre.player_pos
                            == stepped(&w0, k, dx, dy);
                    assert(step_allowed(map, &w0, k, dx, dy));
                }
            } else {
                if exists|k: int| 0 <= k < e && #[trigger] step_allowed(map, &w0, k, dx, dy) {
                    let k = choose|k: int| 0 <= k < e && #[trigger] step_allowed(map, &w0, k, dx, dy);
                    assert(k < eo);
                }
            }
        }
    }
    moved
}

} // verus!
