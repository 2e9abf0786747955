//! Creature decisions: idle, attack when adjacent, or step along a path
//! toward the player.
use vstd::prelude::*;

use crate::components::{Position, Viewshed, World};
use crate::map::{GameMap, dist_sq, index_of, lemma_index_round_trip, lemma_index_split};
use crate::visibility::holds_cell;

verus! {

/// What a creature does this tick.
#[derive(Clone, Copy, Debug, PartialEq, Eq, Structural)]
pub enum AiAction {
    /// Not a creature that sees the player: nothing happens.
    Idle,
    /// The player is adjacent, diagonals included: attack, do not move.
    Attack,
    /// The player is in sight but farther: step toward the player.
    Chase,
}

/// Entity `e` is a creature with a viewshed and a position.
pub open spec fn is_creature(world: &World, e: int) -> bool {
    &&& world.monsters@[e] is Some
    &&& world.viewsheds@[e] is Some
    &&& world.positions@[e] is Some
}

/// The decision for entity `e` when it sees the cells `visible`.
/// Adjacency is a Euclidean distance under one and a half cells, which for
/// whole cells is a squared distance of at most two.
pub open spec fn decide_on(world: &World, e: int, visible: Seq<Position>) -> AiAction {
    if !is_creature(world, e) {
        AiAction::Idle
    } else if !visible.contains(world.player_pos) {
        AiAction::Idle
    } else {
        let p = world.positions@[e]->Some_0;
        if dist_sq(p.x as int, p.y as int, world.player_pos.x as int, world.player_pos.y as int)
            <= 2 {
            AiAction::Attack
        } else {
            AiAction::Chase
        }
    }
}

/// The decision for entity `e` from the cells its viewshed holds.
pub open spec fn decide_spec(world: &World, e: int) -> AiAction {
    decide_on(world, e, world.viewsheds@[e]->Some_0.visible_tiles@)
}

/// A creature standing on `p` takes a step along `path` when the path's
/// second cell is one of the exits of `p`: a cardinal neighbour that is on
/// the grid, floor and unoccupied.
pub open spec fn steps_along(map: &GameMap, p: Position, path: Seq<usize>) -> bool {
    &&& path.len() > 1
    &&& path[1] < map.len_spec()
    &&& map.in_bounds_spec(p.x as int, p.y as int)
    &&& map.exits_spec(map.idx_spec(p.x as int, p.y as int)).contains(path[1])
}

/// Index `v` is a cardinal neighbour of `(x, y)` that a step may enter.
pub open spec fn cardinal_exit(map: &GameMap, x: int, y: int, v: int) -> bool {
    ||| map.exit_valid_spec(x - 1, y) && v == map.idx_spec(x - 1, y)
    ||| map.exit_valid_spec(x + 1, y) && v == map.idx_spec(x + 1, y)
    ||| map.exit_valid_spec(x, y - 1) && v == map.idx_spec(x, y - 1)
    ||| map.exit_valid_spec(x, y + 1) && v == map.idx_spec(x, y + 1)
}

/// A step that `steps_along` allows lands on a cell that may be entered,
/// exactly one cardinal step from where the creature stands.
pub proof fn lemma_step_is_cardinal(map: &GameMap, p: Position, path: Seq<usize>)
    requires
        map.wf(),
        steps_along(map, p, path),
    ensures
        map.exit_valid_spec(path[1] as int % map.width as int, path[1] as int / map.width as int),
        dist_sq(
            path[1] as int % map.width as int,
            path[1] as int / map.width as int,
            p.x as int,
            p.y as int,
        ) == 1,
{
    let w = map.width as int;
    let h = map.height as int;
    let x = p.x as int;
    let y = p.y as int;
    let idx = map.idx_spec(x, y);
    lemma_index_round_trip(x, y, w, h);
    lemma_index_split(idx, w, h);
    assert(idx % w == x && idx / w == y);
    assert(idx - w == index_of(x, y - 1, w) && idx + w == index_of(x, y + 1, w)) by (nonlinear_arith)
        requires
            idx == index_of(x, y, w),
    ;
    let e = map.exits_spec(idx);
    assert forall|j: int| 0 <= j < e.len() implies cardinal_exit(map, x, y, #[trigger] e[j] as int) by {
    }
    let v = path[1];
    let j = choose|j: int| 0 <= j < e.len() && e[j] == v;
    assert(cardinal_exit(map, x, y, e[j] as int));
    if map.exit_valid_spec(x - 1, y) && v == map.idx_spec(x - 1, y) {
        lemma_index_round_trip(x - 1, y, w, h);
        assert((x - 1 - x) * (x - 1 - x) + (y - y) * (y - y) == 1) by (nonlinear_arith);
        assert(dist_sq(x - 1, y, x, y) == 1);
    } else if map.exit_valid_spec(x + 1, y) && v == map.idx_spec(x + 1, y) {
        lemma_index_round_trip(x + 1, y, w, h);
        assert((x + 1 - x) * (x + 1 - x) + (y - y) * (y - y) == 1) by (nonlinear_arith);
        assert(dist_sq(x + 1, y, x, y) == 1);
    } else if map.exit_valid_spec(x, y - 1) && v == map.idx_spec(x, y - 1) {
        lemma_index_round_trip(x, y - 1, w, h);
        assert((x - x) * (x - x) + (y - 1 - y) * (y - 1 - y) == 1) by (nonlinear_arith);
        assert(dist_sq(x, y - 1, x, y) == 1);
    } else {
        lemma_index_round_trip(x, y + 1, w, h);
        assert((x - x) * (x - x) + (y + 1 - y) * (y + 1 - y) == 1) by (nonlinear_arith);
        assert(dist_sq(x, y + 1, x, y) == 1);
    }
}

/// Whether `i` is among `v`.
fn has_index(v: &Vec<usize>, i: usize) -> (r: bool)
    ensures
        r == v@.contains(i),
{
    let mut k: usize = 0;
    while k < v.len()
        invariant
            k <= v@.len(),
            forall|j: int| 0 <= j < k ==> v@[j] != i,
        decreases v@.len() - k,
    {
        if v[k] == i {
            return true;
        }
        k = k + 1;
    }
    false
}

/// Creature behaviour, evaluated afresh every tick.
pub struct MonsterAI {}

impl MonsterAI {
    /// The decision for entity `e`: idle unless it is a creature that sees
    /// the player's cell; attack when the player is adjacent; else chase.
    pub fn decide(&self, world: &World, e: usize) -> (r: AiAction)
        requires
            world.wf(),
            e < world.len_spec(),
        ensures
            r == decide_spec(world, e as int),
    {
        if world.monsters[e].is_none() {
            return AiAction::Idle;
        }
        let pos = match world.positions[e] {
            Some(p) => p,
            None => {
                return AiAction::Idle;
            },
        };
        let seen = match &world.viewsheds[e] {
            Some(v) => holds_cell(&v.visible_tiles, world.player_pos),
            None => {
                return AiAction::Idle;
            },
        };
        if !seen {
            return AiAction::Idle;
        }
        let dx: i64 = pos.x as i64 - world.player_pos.x as i64;
        let dy: i64 = pos.y as i64 - world.player_pos.y as i64;
        if dx < -1 || dx > 1 || dy < -1 || dy > 1 {
            proof {
                assert(dx * dx + dy * dy > 2) by (nonlinear_arith)
                    requires
                        dx < -1 || dx > 1 || dy < -1 || dy > 1,
                ;
            }
            return AiAction::Chase;
        }
        proof {
            assert(dx * dx + dy * dy <= 2) by (nonlinear_arith)
                requires
                    -1 <= dx <= 1 && -1 <= dy <= 1,
            ;
        }
        AiAction::Attack
    }

    /// Decides for entity `e` and, when it chases and `path` has a second
    /// cell on the grid, moves it there and marks its sight stale.
    fn act(&self, map: &GameMap, world: &mut World, e: usize, path: &Vec<usize>) -> (r: AiAction)
        requires
            map.wf(),
            old(world).wf(),
            e < old(world).len_spec(),
        ensures
            r == decide_spec(old(world), e as int),
            final(world).wf(),
            final(world).monsters@ == old(world).monsters@,
            final(world).occupiers@ == old(world).occupiers@,
            final(world).players@ == old(world).players@,
            final(world).player_pos == old(world).player_pos,
            final(world).pending@ == old(world).pending@,
            !(r == AiAction::Chase && steps_along(map, old(world).positions@[e as int]->Some_0, path@)) ==> final(world).positions@ == old(
                world,
            ).positions@ && final(world).viewsheds@ == old(world).viewsheds@,
            r == AiAction::Chase && steps_along(map, old(world).positions@[e as int]->Some_0, path@) ==> {
                &&& final(world).positions@ == old(world).positions@.update(
                    e as int,
                    Some(
                        Position {
                            x: (path@[1] as int % map.width as int) as i32,
                            y: (path@[1] as int / map.width as int) as i32,
                        },
                    ),
                )
                &&& final(world).viewsheds@.len() == old(world).viewsheds@.len()
                &&& forall|k: int|
                    0 <= k < old(world).len_spec() && k != e ==> #[trigger] final(world).viewsheds@[k]
                        == old(world).viewsheds@[k]
                &&& final(world).viewsheds@[e as int] is Some
                &&& final(world).viewsheds@[e as int]->Some_0.visible_tiles@ == old(
                    world,
                ).viewsheds@[e as int]->Some_0.visible_tiles@
                &&& final(world).viewsheds@[e as int]->Some_0.range == old(
                    world,
                ).viewsheds@[e as int]->Some_0.range
                &&& final(world).viewsheds@[e as int]->Some_0.dirty
            },
    {
        let action = self.decide(world, e);
        if action != AiAction::Chase || path.len() <= 1 || path[1] >= map.tiles.len() {
            return action;
        }
        let pos = match world.positions[e] {
            Some(p) => p,
            None => {
                return action;
            },
        };
        if !map.in_bounds(pos.x, pos.y) {
            return action;
        }
        let exits = map.get_available_exits(map.xy_idx(pos.x, pos.y));
        if has_index(&exits, path[1]) {
            let (x, y) = map.idx_to_xy(path[1]);
            let mut slot: Option<Viewshed> = None;
            world.viewsheds.set_and_swap(e, &mut slot);
            match slot {
                Some(v) => {
                    let updated = Viewshed { visible_tiles: v.visible_tiles, range: v.range, dirty: true };
                    world.viewsheds.set(e, Some(updated));
                },
                None => {},
            }
            world.positions.set(e, Some(Position { x, y }));
        }
        action
    }

    /// Runs every creature's decision and returns the decisions, one per
    /// entity. A chasing creature whose path `paths[e]` (from its own cell to
    /// the player's) has a second cell on the grid moves there and marks its
    /// sight stale; every other entity is left as it was.
    pub fn run(&mut self, map: &GameMap, world: &mut World, paths: &Vec<Vec<usize>>) -> (r: Vec<
        AiAction,
    >)
        requires
            map.wf(),
            old(world).wf(),
            paths@.len() == old(world).len_spec(),
        ensures
            final(world).wf(),
            r@.len() == old(world).len_spec(),
            final(world).monsters@ == old(world).monsters@,
            final(world).occupiers@ == old(world).occupiers@,
            final(world).players@ == old(world).players@,
            final(world).player_pos == old(world).player_pos,
            final(world).pending@ == old(world).pending@,
            final(world).positions@.len() == old(world).positions@.len(),
            final(world).viewsheds@.len() == old(world).viewsheds@.len(),
            forall|e: int|
                0 <= e < old(world).len_spec() ==> #[trigger] r@[e] == decide_spec(old(world), e),
            forall|e: int|
                0 <= e < old(world).len_spec() && !(decide_spec(old(world), e) == AiAction::Chase
                    && steps_along(map, old(world).positions@[e]->Some_0, paths@[e]@)) ==> {
                    &&& #[trigger] final(world).positions@[e] == old(world).positions@[e]
                    &&& final(world).viewsheds@[e] == old(world).viewsheds@[e]
                },
            forall|e: int|
                0 <= e < old(world).len_spec() && decide_spec(old(world), e) == AiAction::Chase
                    && steps_along(map, old(world).positions@[e]->Some_0, paths@[e]@) ==> {
                    &&& #[trigger] final(world).positions@[e] == Some(
                        Position {
                            x: (paths@[e]@[1] as int % map.width as int) as i32,
                            y: (paths@[e]@[1] as int / map.width as int) as i32,
                        },
                    )
                    &&& final(world).viewsheds@[e] is Some
                    &&& final(world).viewsheds@[e]->Some_0.visible_tiles@ == old(
                        world,
                    ).viewsheds@[e]->Some_0.visible_tiles@
                    &&& final(world).viewsheds@[e]->Some_0.range == old(
                        world,
                    ).viewsheds@[e]->Some_0.range
                    &&& final(world).viewsheds@[e]->Some_0.dirty
                },
    {
        let ghost w0 = *old(world);
        let mut actions: Vec<AiAction> = Vec::new();
        let mut e: usize = 0;
        while e < world.positions.len()
            invariant
                map.wf(),
                w0 == *old(world),
                world.wf(),
                paths@.len() == world.len_spec(),
                world.len_spec() == w0.len_spec(),
                world.viewsheds@.len() == w0.viewsheds@.len(),
                world.monsters@ == w0.monsters@,
                world.occupiers@ == w0.occupiers@,
                world.players@ == w0.players@,
                world.player_pos == w0.player_pos,
                world.pending@ == w0.pending@,
                e <= world.len_spec(),
                actions@.len() == e,
                forall|k: int| 0 <= k < e ==> #[trigger] actions@[k] == decide_spec(&w0, k),
                forall|k: int|
                    e <= k < w0.len_spec() ==> #[trigger] world.positions@[k] == w0.positions@[k],
                forall|k: int|
                    e <= k < w0.len_spec() ==> #[trigger] world.viewsheds@[k] == w0.viewsheds@[k],
                forall|k: int|
                    0 <= k < e && !(decide_spec(&w0, k) == AiAction::Chase && steps_along(map, w0.positions@[k]->Some_0, paths@[k]@)) ==> {
                        &&& #[trigger] world.positions@[k] == w0.positions@[k]
                        &&& world.viewsheds@[k] == w0.viewsheds@[k]
                    },
                forall|k: int|
                    0 <= k < e && decide_spec(&w0, k) == AiAction::Chase && steps_along(map, w0.positions@[k]->Some_0, paths@[k]@) ==> {
                        &&& #[trigger] world.positions@[k] == Some(
                            Position {
                                x: (paths@[k]@[1] as int % map.width as int) as i32,
                                y: (paths@[k]@[1] as int / map.width as int) as i32,
                            },
                        )
                        &&& world.viewsheds@[k] is Some
                        &&& world.viewsheds@[k]->Some_0.visible_tiles@
                            == w0.viewsheds@[k]->Some_0.visible_tiles@
                        &&& world.viewsheds@[k]->Some_0.range == w0.viewsheds@[k]->Some_0.range
                        &&& world.viewsheds@[k]->Some_0.dirty
                    },
            decreases w0.len_spec() - e,
        {
            let ghost pre = *world;
            proof {
                assert(pre.positions@[e as int] == w0.positions@[e as int]);
                assert(pre.viewsheds@[e as int] == w0.viewsheds@[e as int]);
            }
            let action = self.act(map, world, e, &paths[e]);
            actions.push(action);
            let ghost eo = e as int;
            e = e + 1;
            proof {
                assert forall|k: int| 0 <= k < eo implies #[trigger] world.positions@[k]
                    == pre.positions@[k] && world.viewsheds@[k] == pre.viewsheds@[k] by {}
                assert forall|k: int|
                    0 <= k < e && !(decide_spec(&w0, k) == AiAction::Chase && steps_along(map, w0.positions@[k]->Some_0, paths@[k]@)) implies #[trigger] world.positions@[k] == w0.positions@[k]
                    && world.viewsheds@[k] == w0.viewsheds@[k] by {
                    if k < eo {
                        assert(pre.positions@[k] == w0.positions@[k]);
                    }
                }
                assert forall|k: int|
                    0 <= k < e && decide_spec(&w0, k) == AiAction::Chase && steps_along(map, w0.positions@[k]->Some_0, paths@[k]@) implies {
                    &&& #[trigger] world.positions@[k] == Some(
                        Position {
                            x: (paths@[k]@[1] as int % map.width as int) as i32,
                            y: (paths@[k]@[1] as int / map.width as int) as i32,
                        },
                    )
                    &&& world.viewsheds@[k] is Some
                    &&& world.viewsheds@[k]->Some_0.visible_tiles@
                        == w0.viewsheds@[k]->Some_0.visible_tiles@
                    &&& world.viewsheds@[k]->Some_0.range == w0.viewsheds@[k]->Some_0.range
                    &&& world.viewsheds@[k]->Some_0.dirty
                } by {
                    if k < eo {
                        assert(world.positions@[k] == pre.positions@[k]);
                    }
                }
            }
        }
        proof {
            assert forall|k: int|
                0 <= k < w0.len_spec() && !(decide_spec(old(world), k) == AiAction::Chase
                    && steps_along(map, old(world).positions@[k]->Some_0, paths@[k]@)) implies
                #[trigger] world.positions@[k] == old(world).positions@[k] && world.viewsheds@[k]
                == old(world).viewsheds@[k] by {
                assert(w0.positions@[k] == old(world).positions@[k]);
            }
            assert forall|k: int|
                0 <= k < w0.len_spec() && decide_spec(old(world), k) == AiAction::Chase
                    && steps_along(map, old(world).positions@[k]->Some_0, paths@[k]@) implies {
                &&& #[trigger] world.positions@[k] == Some(
                    Position {
                        x: (paths@[k]@[1] as int % map.width as int) as i32,
                        y: (paths@[k]@[1] as int / map.width as int) as i32,
                    },
                )
                &&& world.viewsheds@[k] is Some
                &&& world.viewsheds@[k]->Some_0.visible_tiles@
                    == old(world).viewsheds@[k]->Some_0.visible_tiles@
                &&& world.viewsheds@[k]->Some_0.range == old(world).viewsheds@[k]->Some_0.range
                &&& world.viewsheds@[k]->Some_0.dirty
            } by {
                assert(w0.positions@[k] == old(world).positions@[k]);
            }
        }
        actions
    }
}

} // verus!
