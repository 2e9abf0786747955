//! Sight: each viewer's visible cells, and the cells the player sees now or
//! has ever seen.
use vstd::prelude::*;

use crate::components::{Position, Viewshed, World};
use crate::map::{GameMap, dist_sq, index_of, lemma_index_round_trip};

verus! {

/// Cell `p` lies on the grid and no farther than `range` from `c`.
pub open spec fn within_sight(p: Position, c: Position, range: int, width: int, height: int) -> bool {
    &&& 0 <= p.x < width
    &&& 0 <= p.y < height
    &&& dist_sq(p.x as int, p.y as int, c.x as int, c.y as int) <= range * range
}

/// The cells of `s` that are within sight of `c`, each kept once, at its
/// first place.
pub open spec fn clip_view(
    s: Seq<Position>,
    c: Position,
    range: int,
    width: int,
    height: int,
) -> Seq<Position>
    decreases s.len(),
{
    if s.len() == 0 {
        Seq::empty()
    } else {
        let rest = clip_view(s.drop_last(), c, range, width, height);
        if within_sight(s.last(), c, range, width, height) && !rest.contains(s.last()) {
            rest.push(s.last())
        } else {
            rest
        }
    }
}

/// Some cell among the first `count` of `view` has index `i`.
pub open spec fn in_view(view: Seq<Position>, width: int, i: int, count: int) -> bool {
    exists|j: int|
        0 <= j < count && #[trigger] index_of(view[j].x as int, view[j].y as int, width) == i
}

/// Entity `e` has a viewshed and a position.
pub open spec fn is_viewer(world: &World, e: int) -> bool {
    world.viewsheds@[e] is Some && world.positions@[e] is Some
}

/// What entity `e` sees this tick: the raw field-of-view cells `fovs[e]`
/// clipped to the grid and to the viewer's range.
pub open spec fn fresh_view(
    world: &World,
    fovs: Seq<Vec<Position>>,
    e: int,
    width: int,
    height: int,
) -> Seq<Position> {
    clip_view(
        fovs[e]@,
        world.positions@[e]->Some_0,
        world.viewsheds@[e]->Some_0.range as int,
        width,
        height,
    )
}

/// Entity `e` is a viewing player whose fresh view holds cell index `i`.
pub open spec fn player_sees(
    world: &World,
    fovs: Seq<Vec<Position>>,
    width: int,
    height: int,
    e: int,
    i: int,
) -> bool {
    &&& is_viewer(world, e)
    &&& world.players@[e] is Some
    &&& {
        let v = fresh_view(world, fovs, e, width, height);
        in_view(v, width, i, v.len() as int)
    }
}

/// Some entity among the first `count` is a player that sees index `i`.
pub open spec fn seen_by_player(
    world: &World,
    fovs: Seq<Vec<Position>>,
    width: int,
    height: int,
    i: int,
    count: int,
) -> bool {
    exists|e: int| 0 <= e < count && #[trigger] player_sees(world, fovs, width, height, e, i)
}

/// A clipped view keeps only cells of the grid within range of the viewer.
pub proof fn lemma_clip_within_sight(
    s: Seq<Position>,
    c: Position,
    range: int,
    width: int,
    height: int,
)
    ensures
        forall|j: int|
            0 <= j < clip_view(s, c, range, width, height).len() ==> within_sight(
                #[trigger] clip_view(s, c, range, width, height)[j],
                c,
                range,
                width,
                height,
            ),
    decreases s.len(),
{
    if s.len() > 0 {
        lemma_clip_within_sight(s.drop_last(), c, range, width, height);
        let rest = clip_view(s.drop_last(), c, range, width, height);
        let all = clip_view(s, c, range, width, height);
        assert forall|j: int| 0 <= j < all.len() implies within_sight(
            #[trigger] all[j],
            c,
            range,
            width,
            height,
        ) by {
            if j < rest.len() {
                assert(all[j] == rest[j]);
            }
        }
    }
}

/// A clipped view holds no cell twice.
pub proof fn lemma_clip_no_duplicates(
    s: Seq<Position>,
    c: Position,
    range: int,
    width: int,
    height: int,
)
    ensures
        clip_view(s, c, range, width, height).no_duplicates(),
    decreases s.len(),
{
    if s.len() > 0 {
        lemma_clip_no_duplicates(s.drop_last(), c, range, width, height);
        let rest = clip_view(s.drop_last(), c, range, width, height);
        let all = clip_view(s, c, range, width, height);
        if within_sight(s.last(), c, range, width, height) && !rest.contains(s.last()) {
            assert forall|i: int, j: int|
                0 <= i < all.len() && 0 <= j < all.len() && i != j implies all[i] != all[j] by {
                if i < rest.len() && j < rest.len() {
                    assert(all[i] == rest[i] && all[j] == rest[j]);
                } else if i < rest.len() {
                    assert(all[i] == rest[i]);
                } else {
                    assert(all[j] == rest[j]);
                }
            }
        }
    }
}

/// Whether `p` is among `cells`.
pub(crate) fn holds_cell(cells: &Vec<Position>, p: Position) -> (r: bool)
    ensures
        r == cells@.contains(p),
{
    let mut k: usize = 0;
    while k < cells.len()
        invariant
            k <= cells@.len(),
            forall|j: int| 0 <= j < k ==> cells@[j] != p,
        decreases cells@.len() - k,
    {
        if cells[k] == p {
            return true;
        }
        k = k + 1;
    }
    false
}

/// The cells of `cells` that lie on the grid within `range` of `c`, in
/// their order, each kept once.
pub fn clip_to_sight(map: &GameMap, cells: &Vec<Position>, c: Position, range: i32) -> (r: Vec<
    Position,
>)
    requires
        map.wf(),
    ensures
        r@ == clip_view(cells@, c, range as int, map.width as int, map.height as int),
{
    let mut out: Vec<Position> = Vec::new();
    proof {
        assert(range * range <= 0x1_0000_0000 * 0x1_0000_0000) by (nonlinear_arith)
            requires
                -0x1_0000_0000 <= range <= 0x1_0000_0000,
        ;
        assert(0 <= range * range) by (nonlinear_arith);
    }
    let r2: i128 = range as i128 * range as i128;
    let mut k: usize = 0;
    while k < cells.len()
        invariant
            map.wf(),
            k <= cells@.len(),
            r2 == range * range,
            out@ == clip_view(
                cells@.subrange(0, k as int),
                c,
                range as int,
                map.width as int,
                map.height as int,
            ),
        decreases cells@.len() - k,
    {
        let p = cells[k];
        proof {
            assert(cells@.subrange(0, k + 1).drop_last() =~= cells@.subrange(0, k as int));
        }
        if map.in_bounds(p.x, p.y) {
            let dx: i128 = p.x as i128 - c.x as i128;
            let dy: i128 = p.y as i128 - c.y as i128;
            proof {
                assert(dx * dx <= 0x1_0000_0000 * 0x1_0000_0000) by (nonlinear_arith)
                    requires
                        -0x1_0000_0000 <= dx <= 0x1_0000_0000,
                ;
                assert(dy * dy <= 0x1_0000_0000 * 0x1_0000_0000) by (nonlinear_arith)
                    requires
                        -0x1_0000_0000 <= dy <= 0x1_0000_0000,
                ;
                assert(0 <= dx * dx) by (nonlinear_arith);
                assert(0 <= dy * dy) by (nonlinear_arith);
            }
            if dx * dx + dy * dy <= r2 && !holds_cell(&out, p) {
                out.push(p);
            }
        }
        k = k + 1;
    }
    proof {
        assert(cells@.subrange(0, cells@.len() as int) =~= cells@);
    }
    out
}

/// Sets the visible and revealed flags of every cell of `view`.
fn mark_seen(map: &mut GameMap, view: &Vec<Position>)
    requires
        old(map).wf(),
        forall|j: int|
            0 <= j < view@.len() ==> old(map).in_bounds_spec(
                #[trigger] view@[j].x as int,
                view@[j].y as int,
            ),
    ensures
        final(map).wf(),
        final(map).width == old(map).width,
        final(map).height == old(map).height,
        final(map).tiles@ == old(map).tiles@,
        final(map).rooms@ == old(map).rooms@,
        final(map).occupied_tiles@ == old(map).occupied_tiles@,
        forall|i: int|
            0 <= i < final(map).len_spec() ==> #[trigger] final(map).visible_tiles@[i] == (old(map).visible_tiles@[i] || in_view(view@, old(map).width as int, i, view@.len() as int)),
        forall|i: int|
            0 <= i < final(map).len_spec() ==> #[trigger] final(map).revealed_tiles@[i] == (old(map).revealed_tiles@[i] || in_view(view@, old(map).width as int, i, view@.len() as int)),
{
    let ghost w = map.width as int;
    let mut j: usize = 0;
    while j < view.len()
        invariant
            map.wf(),
            map.width == old(map).width,
            map.height == old(map).height,
            map.tiles@ == old(map).tiles@,
            map.rooms@ == old(map).rooms@,
            map.occupied_tiles@ == old(map).occupied_tiles@,
            w == map.width,
            j <= view@.len(),
            forall|jj: int|
                0 <= jj < view@.len() ==> map.in_bounds_spec(
                    #[trigger] view@[jj].x as int,
                    view@[jj].y as int,
                ),
            forall|i: int|
                0 <= i < map.len_spec() ==> #[trigger] map.visible_tiles@[i] == (old(map).visible_tiles@[i] || in_view(view@, w, i, j as int)),
            forall|i: int|
                0 <= i < map.len_spec() ==> #[trigger] map.revealed_tiles@[i] == (old(map).revealed_tiles@[i] || in_view(view@, w, i, j as int)),
        decreases view@.len() - j,
    {
        let p = view[j];
        let idx = map.xy_idx(p.x, p.y);
        let ghost vis0 = map.visible_tiles@;
        let ghost rev0 = map.revealed_tiles@;
        map.visible_tiles.set(idx, true);
        map.revealed_tiles.set(idx, true);
        proof {
            assert forall|i: int| 0 <= i < map.len_spec() implies in_view(view@, w, i, j + 1) == (
            in_view(view@, w, i, j as int) || i == idx) by {
                if i == idx {
                    assert(index_of(view@[j as int].x as int, view@[j as int].y as int, w) == i);
                }
                if in_view(view@, w, i, j + 1) {
                    let jj = choose|jj: int|
                        0 <= jj < j + 1 && #[trigger] index_of(
                            view@[jj].x as int,
                            view@[jj].y as int,
                            w,
                        ) == i;
                    if jj < j {
                        assert(in_view(view@, w, i, j as int));
                    }
                }
            }
        }
        j = j + 1;
    }
}

/// Recomputes what every viewer sees.
pub struct VisibilitySystem {}

impl VisibilitySystem {
    /// For every entity with a viewshed and a position, replaces its visible
    /// cells with its raw field of view `fovs[e]` clipped to the grid and to
    /// its range. The map's visible flags are rebuilt from what players see;
    /// a cell a player sees becomes revealed for good, and no other revealed
    /// flag changes.
    pub fn run(&mut self, map: &mut GameMap, world: &mut World, fovs: &Vec<Vec<Position>>)
        requires
            old(map).wf(),
            old(world).wf(),
            fovs@.len() == old(world).len_spec(),
        ensures
            final(map).wf(),
            final(map).width == old(map).width,
            final(map).height == old(map).height,
            final(map).tiles@ == old(map).tiles@,
            final(map).rooms@ == old(map).rooms@,
            final(map).occupied_tiles@ == old(map).occupied_tiles@,
            forall|i: int|
                0 <= i < final(map).len_spec() ==> #[trigger] final(map).visible_tiles@[i]
                    == seen_by_player(
                    old(world),
                    fovs@,
                    old(map).width as int,
                    old(map).height as int,
                    i,
                    old(world).len_spec(),
                ),
            forall|i: int|
                0 <= i < final(map).len_spec() ==> #[trigger] final(map).revealed_tiles@[i] == (old(map).revealed_tiles@[i] || final(map).visible_tiles@[i]),
            final(world).wf(),
            final(world).positions@ == old(world).positions@,
            final(world).monsters@ == old(world).monsters@,
            final(world).occupiers@ == old(world).occupiers@,
            final(world).players@ == old(world).players@,
            final(world).player_pos == old(world).player_pos,
            final(world).pending@ == old(world).pending@,
            forall|e: int|
                0 <= e < old(world).len_spec() && !is_viewer(old(world), e) ==> #[trigger] final(world).viewsheds@[e] == old(world).viewsheds@[e],
            forall|e: int|
                0 <= e < old(world).len_spec() && is_viewer(old(world), e) ==> {
                    &&& #[trigger] final(world).viewsheds@[e] is Some
                    &&& final(world).viewsheds@[e]->Some_0.visible_tiles@ == fresh_view(
                        old(world),
                        fovs@,
                        e,
                        old(map).width as int,
                        old(map).height as int,
                    )
                    &&& final(world).viewsheds@[e]->Some_0.range == old(world).viewsheds@[e]->Some_0.range
                    &&& final(world).viewsheds@[e]->Some_0.dirty == old(world).viewsheds@[e]->Some_0.dirty
                    &&& final(world).viewsheds@[e]->Some_0.visible_tiles@.no_duplicates()
                },
    {
        let ghost w = map.width as int;
        let ghost h = map.height as int;
        let ghost w0 = *old(world);
        let mut i: usize = 0;
        while i < map.visible_tiles.len()
            invariant
                map.wf(),
                map.width == old(map).width,
                map.height == old(map).height,
                map.tiles@ == old(map).tiles@,
                map.rooms@ == old(map).rooms@,
                map.occupied_tiles@ == old(map).occupied_tiles@,
                map.revealed_tiles@ == old(map).revealed_tiles@,
                i <= map.len_spec(),
                forall|k: int| 0 <= k < i ==> !map.visible_tiles@[k],
            decreases map.len_spec() - i,
        {
            map.visible_tiles.set(i, false);
            i = i + 1;
        }
        let mut e: usize = 0;
        while e < world.positions.len()
            invariant
                map.wf(),
                map.width == old(map).width,
                map.height == old(map).height,
                map.tiles@ == old(map).tiles@,
                map.rooms@ == old(map).rooms@,
                map.occupied_tiles@ == old(map).occupied_tiles@,
                w == map.width,
                h == map.height,
                w0 == *old(world),
                world.wf(),
                fovs@.len() == world.len_spec(),
                world.len_spec() == w0.len_spec(),
                world.positions@ == w0.positions@,
                world.monsters@ == w0.monsters@,
                world.occupiers@ == w0.occupiers@,
                world.players@ == w0.players@,
                world.player_pos == w0.player_pos,
                world.pending@ == w0.pending@,
                e <= world.len_spec(),
                forall|k: int|
                    e <= k < w0.len_spec() ==> #[trigger] world.viewsheds@[k] == w0.viewsheds@[k],
                forall|k: int|
                    0 <= k < e && !is_viewer(&w0, k) ==> #[trigger] world.viewsheds@[k]
                        == w0.viewsheds@[k],
                forall|k: int|
                    0 <= k < e && is_viewer(&w0, k) ==> {
                        &&& #[trigger] world.viewsheds@[k] is Some
                        &&& world.viewsheds@[k]->Some_0.visible_tiles@ == fresh_view(
                            &w0,
                            fovs@,
                            k,
                            w,
                            h,
                        )
                        &&& world.viewsheds@[k]->Some_0.range == w0.viewsheds@[k]->Some_0.range
                        &&& world.viewsheds@[k]->Some_0.dirty == w0.viewsheds@[k]->Some_0.dirty
                    },
                forall|k: int|
                    0 <= k < map.len_spec() ==> #[trigger] map.visible_tiles@[k] == seen_by_player(
                        &w0,
                        fovs@,
                        w,
                        h,
                        k,
                        e as int,
                    ),
                forall|k: int|
                    0 <= k < map.len_spec() ==> #[trigger] map.revealed_tiles@[k] == (old(map).revealed_tiles@[k] || map.visible_tiles@[k]),
            decreases w0.len_spec() - e,
        {
            let ghost vis0 = map.visible_tiles@;
            let viewer = match (&world.viewsheds[e], &world.positions[e]) {
                (Some(v), Some(p)) => Some((*p, v.range, v.dirty)),
                _ => None,
            };
            match viewer {
                Some((pos, range, dirty)) => {
                    let view = clip_to_sight(map, &fovs[e], pos, range);
                    proof {
                        lemma_clip_within_sight(fovs@[e as int]@, pos, range as int, w, h);
                    }
                    if world.players[e].is_some() {
                        mark_seen(map, &view);
                    }
                    world.viewsheds.set(e, Some(Viewshed { visible_tiles: view, range, dirty }));
                },
                None => {},
            }
            proof {
                assert forall|k: int| 0 <= k < map.len_spec() implies #[trigger] map.visible_tiles@[k]
                    == seen_by_player(&w0, fovs@, w, h, k, e + 1) by {
                    if seen_by_player(&w0, fovs@, w, h, k, e + 1) {
                        let ee = choose|ee: int|
                            0 <= ee < e + 1 && #[trigger] player_sees(&w0, fovs@, w, h, ee, k);
                        if ee < e {
                            assert(seen_by_player(&w0, fovs@, w, h, k, e as int));
                        }
                    }
                    if player_sees(&w0, fovs@, w, h, e as int, k) {
                        assert(seen_by_player(&w0, fovs@, w, h, k, e + 1));
                    }
                    if seen_by_player(&w0, fovs@, w, h, k, e as int) {
                        let ee = choose|ee: int|
                            0 <= ee < e && #[trigger] player_sees(&w0, fovs@, w, h, ee, k);
                        assert(player_sees(&w0, fovs@, w, h, ee, k));
                    }
                }
            }
            e = e + 1;
        }
        proof {
            assert forall|k: int| 0 <= k < w0.len_spec() && is_viewer(&w0, k) implies (
            #[trigger] world.viewsheds@[k])->Some_0.visible_tiles@.no_duplicates() by {
                lemma_clip_no_duplicates(
                    fovs@[k]@,
                    w0.positions@[k]->Some_0,
                    w0.viewsheds@[k]->Some_0.range as int,
                    w,
                    h,
                );
            }
        }
    }
}

} // verus!
