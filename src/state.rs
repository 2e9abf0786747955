//! The per-tick pipeline: occupancy, then sight, then creatures.
use vstd::prelude::*;

use crate::components::{Position, World, maintained};
use crate::map::GameMap;
use crate::map_indexing::{MapIndexingSystem, blocked_by_any};
use crate::monsters::{AiAction, MonsterAI, decide_on, steps_along};
use crate::visibility::{VisibilitySystem, fresh_view, is_viewer, seen_by_player};

verus! {

/// Whether the simulation waits for input or runs a step.
#[derive(Clone, Copy, Debug, PartialEq, Eq, Structural)]
pub enum RunState {
    Paused,
    Running,
}

/// The world: its entities, its grid and whether a step is due.
pub struct State {
    pub ecs: World,
    pub map: GameMap,
    pub run_state: RunState,
}

/// What entity `e` decides in a step: its decision over the view it gets
/// from `fovs` in that step.
pub open spec fn step_decision(world: &World, fovs: Seq<Vec<Position>>, e: int, width: int, height: int) -> AiAction {
    decide_on(world, e, fresh_view(world, fovs, e, width, height))
}

/// Entity `e` moves in a step: it chases and its path's second cell is an
/// exit of its cell on `map`.
pub open spec fn step_moves(
    world: &World,
    map: &GameMap,
    fovs: Seq<Vec<Position>>,
    paths: Seq<Vec<usize>>,
    e: int,
) -> bool {
    &&& step_decision(world, fovs, e, map.width as int, map.height as int) == AiAction::Chase
    &&& steps_along(map, world.positions@[e]->Some_0, paths[e]@)
}

/// What one step leaves behind before the commit: the occupancy index
/// rebuilt from the old positions, sight recomputed from `fovs`, and every
/// creature's decision made over its fresh view and its move taken along
/// `paths`; `r` holds the decisions.
pub open spec fn systems_ran(
    old: &State,
    new: &State,
    fovs: Seq<Vec<Position>>,
    paths: Seq<Vec<usize>>,
    r: Seq<AiAction>,
) -> bool {
    &&& new.wf()
    &&& r.len() == old.ecs.len_spec()
    &&& new.run_state == old.run_state
    &&& new.map.width == old.map.width
    &&& new.map.height == old.map.height
    &&& new.map.tiles@ == old.map.tiles@
    &&& new.map.rooms@ == old.map.rooms@
    &&& forall|i: int|
        0 <= i < new.map.len_spec() ==> #[trigger] new.map.occupied_tiles@[i]
            == blocked_by_any(
            &old.ecs,
            old.map.width as int,
            old.map.height as int,
            i,
            old.ecs.len_spec(),
        )
    &&& forall|i: int|
        0 <= i < new.map.len_spec() && old.map.revealed_tiles@[i]
            ==> #[trigger] new.map.revealed_tiles@[i]
    &&& forall|i: int|
        0 <= i < new.map.len_spec() ==> #[trigger] new.map.visible_tiles@[i]
            == seen_by_player(
            &old.ecs,
            fovs,
            old.map.width as int,
            old.map.height as int,
            i,
            old.ecs.len_spec(),
        )
    &&& forall|i: int|
        0 <= i < new.map.len_spec() ==> #[trigger] new.map.revealed_tiles@[i]
            == (old.map.revealed_tiles@[i] || new.map.visible_tiles@[i])
    &&& new.ecs.positions@.len() == old.ecs.positions@.len()
    &&& new.ecs.viewsheds@.len() == old.ecs.viewsheds@.len()
    &&& forall|e: int|
        0 <= e < old.ecs.len_spec() ==> #[trigger] r[e] == step_decision(
            &old.ecs,
            fovs,
            e,
            old.map.width as int,
            old.map.height as int,
        )
    &&& forall|e: int|
        0 <= e < old.ecs.len_spec() && !is_viewer(&old.ecs, e) ==> {
            &&& #[trigger] new.ecs.positions@[e] == old.ecs.positions@[e]
            &&& new.ecs.viewsheds@[e] == old.ecs.viewsheds@[e]
        }
    &&& forall|e: int|
        0 <= e < old.ecs.len_spec() && is_viewer(&old.ecs, e) ==> {
            &&& #[trigger] new.ecs.viewsheds@[e] is Some
            &&& new.ecs.viewsheds@[e]->Some_0.visible_tiles@ == fresh_view(
                &old.ecs,
                fovs,
                e,
                old.map.width as int,
                old.map.height as int,
            )
            &&& new.ecs.viewsheds@[e]->Some_0.range
                == old.ecs.viewsheds@[e]->Some_0.range
            &&& new.ecs.viewsheds@[e]->Some_0.dirty == (step_moves(
                &old.ecs,
                &new.map,
                fovs,
                paths,
                e,
            ) || old.ecs.viewsheds@[e]->Some_0.dirty)
            &&& new.ecs.positions@[e] == if step_moves(
                &old.ecs,
                &new.map,
                fovs,
                paths,
                e,
            ) {
                Some(
                    Position {
                        x: (paths[e]@[1] as int % old.map.width as int) as i32,
                        y: (paths[e]@[1] as int / old.map.width as int) as i32,
                    },
                )
            } else {
                old.ecs.positions@[e]
            }
        }
    &&& new.ecs.players@ == old.ecs.players@
    &&& new.ecs.monsters@ == old.ecs.monsters@
    &&& new.ecs.occupiers@ == old.ecs.occupiers@
    &&& new.ecs.player_pos == old.ecs.player_pos
}

impl State {
    pub open spec fn wf(&self) -> bool {
        self.ecs.wf() && self.map.wf()
    }

    /// Runs one step: rebuilds the occupancy index, recomputes sight from the
    /// raw fields of view `fovs` (one per entity), then runs every creature
    /// with its path `paths[e]` toward the player, and returns the creatures'
    /// decisions. No system starts before the previous one is done. Last,
    /// the commands queued in the entity store are applied, once.
    pub fn run_systems(&mut self, fovs: &Vec<Vec<Position>>, paths: &Vec<Vec<usize>>) -> (r: Vec<
        AiAction,
    >)
        requires
            old(self).wf(),
            fovs@.len() == old(self).ecs.len_spec(),
            paths@.len() == old(self).ecs.len_spec(),
        ensures
            final(self).wf(),
            final(self).run_state == old(self).run_state,
            exists|mid: State|
                #[trigger] systems_ran(old(self), &mid, fovs@, paths@, r@)
                    && mid.ecs.pending@ == old(self).ecs.pending@ && maintained(&mid.ecs, &final(self).ecs) && final(self).map.tiles@
                    == mid.map.tiles@ && final(self).map.revealed_tiles@ == mid.map.revealed_tiles@
                    && final(self).map.visible_tiles@ == mid.map.visible_tiles@
                    && final(self).map.occupied_tiles@ == mid.map.occupied_tiles@
                    && final(self).map.rooms@ == mid.map.rooms@ && final(self).map.width
                    == mid.map.width && final(self).map.height == mid.map.height,
    {
        let mut indexing = MapIndexingSystem {};
        indexing.run(&mut self.map, &self.ecs);
        let mut visibility = VisibilitySystem {};
        visibility.run(&mut self.map, &mut self.ecs, fovs);
        let ghost w1 = self.ecs;
        let mut mob = MonsterAI {};
        let r = mob.run(&self.map, &mut self.ecs, paths);
        proof {
            let w0 = old(self).ecs;
            let wd = old(self).map.width as int;
            let ht = old(self).map.height as int;
            assert forall|e: int| 0 <= e < w0.len_spec() implies #[trigger] crate::monsters::decide_spec(
                &w1,
                e,
            ) == step_decision(&w0, fovs@, e, wd, ht) by {
                assert(w1.positions@[e] == w0.positions@[e]);
                assert(w1.monsters@[e] == w0.monsters@[e]);
                if is_viewer(&w0, e) {
                    assert(w1.viewsheds@[e] is Some);
                } else {
                    assert(w1.viewsheds@[e] == w0.viewsheds@[e]);
                }
            }
            assert forall|e: int| 0 <= e < w0.len_spec() implies #[trigger] r@[e] == step_decision(
                &w0,
                fovs@,
                e,
                wd,
                ht,
            ) by {
                assert(crate::monsters::decide_spec(&w1, e) == step_decision(&w0, fovs@, e, wd, ht));
            }
            assert forall|e: int| 0 <= e < w0.len_spec() implies step_moves(
                &w0,
                &self.map,
                fovs@,
                paths@,
                e,
            ) == (crate::monsters::decide_spec(&w1, e) == AiAction::Chase && steps_along(
                &self.map,
                w1.positions@[e]->Some_0,
                paths@[e]@,
            )) by {
                assert(crate::monsters::decide_spec(&w1, e) == step_decision(&w0, fovs@, e, wd, ht));
                assert(w1.positions@[e] == w0.positions@[e]);
            }
            assert forall|e: int| 0 <= e < w0.len_spec() && !is_viewer(&w0, e) implies {
                &&& #[trigger] self.ecs.positions@[e] == w0.positions@[e]
                &&& self.ecs.viewsheds@[e] == w0.viewsheds@[e]
            } by {
                assert(w1.viewsheds@[e] == w0.viewsheds@[e]);
                assert(w1.positions@[e] == w0.positions@[e]);
                assert(crate::monsters::decide_spec(&w1, e) == AiAction::Idle);
                assert(self.ecs.positions@[e] == w1.positions@[e]);
                assert(self.ecs.viewsheds@[e] == w1.viewsheds@[e]);
            }
            assert forall|e: int| 0 <= e < w0.len_spec() && is_viewer(&w0, e) implies {
                &&& #[trigger] self.ecs.viewsheds@[e] is Some
                &&& self.ecs.viewsheds@[e]->Some_0.visible_tiles@ == fresh_view(&w0, fovs@, e, wd, ht)
                &&& self.ecs.viewsheds@[e]->Some_0.range == w0.viewsheds@[e]->Some_0.range
                &&& self.ecs.viewsheds@[e]->Some_0.dirty == (step_moves(
                    &w0,
                    &self.map,
                    fovs@,
                    paths@,
                    e,
                ) || w0.viewsheds@[e]->Some_0.dirty)
                &&& self.ecs.positions@[e] == if step_moves(&w0, &self.map, fovs@, paths@, e) {
                    Some(
                        Position {
                            x: (paths@[e]@[1] as int % wd) as i32,
                            y: (paths@[e]@[1] as int / wd) as i32,
                        },
                    )
                } else {
                    w0.positions@[e]
                }
            } by {
                assert(w1.viewsheds@[e] is Some);
                assert(w1.positions@[e] == w0.positions@[e]);
                if !step_moves(&w0, &self.map, fovs@, paths@, e) {
                    assert(self.ecs.positions@[e] == w1.positions@[e]);
                }
            }
        }
        let ghost mid = *self;
        proof {
            assert(systems_ran(old(self), &mid, fovs@, paths@, r@));
        }
        self.ecs.maintain();
        r
    }
}

} // verus!
