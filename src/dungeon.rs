//! Dungeon generation: rooms placed at random, carved to floor and joined
//! by L-shaped corridors.
use vstd::prelude::*;

use crate::map::{GameMap, TileType, lemma_index_round_trip, WINDOW_WIDTH, WINDOW_HEIGHT};
use crate::random::{draw_range, fresh_rng, roll_one_die};
use crate::rectangle::Rectangle;
use rltk::RandomNumberGenerator;

verus! {

/// Room attempts made by `GameMap::new_map`.
pub const MAX_ROOMS: i32 = 30;

/// Smallest room side drawn by `GameMap::new_map`.
pub const MIN_SIZE: i32 = 6;

/// Largest room side drawn by `GameMap::new_map`.
pub const MAX_SIZE: i32 = 10;

pub open spec fn min_int(a: int, b: int) -> int {
    if a <= b {
        a
    } else {
        b
    }
}

pub open spec fn max_int(a: int, b: int) -> int {
    if a <= b {
        b
    } else {
        a
    }
}

/// Cells strictly inside a room's outline: its carved floor.
pub open spec fn room_covers(r: Rectangle, a: int, b: int) -> bool {
    r.upper_x < a <= r.lower_x && r.upper_y < b <= r.lower_y
}

/// The room's outline lies strictly inside the outer ring of the grid,
/// with its corners ordered; so do the cells it covers and its center.
pub open spec fn room_inside(r: Rectangle, width: int, height: int) -> bool {
    &&& 1 <= r.upper_x <= r.lower_x <= width - 2
    &&& 1 <= r.upper_y <= r.lower_y <= height - 2
}

/// Cell `(a, b)` lies on row `y` between columns `x1` and `x2`.
pub open spec fn on_row(x1: int, x2: int, y: int, a: int, b: int) -> bool {
    b == y && min_int(x1, x2) <= a <= max_int(x1, x2)
}

/// Cell `(a, b)` lies on column `x` between rows `y1` and `y2`.
pub open spec fn on_column(y1: int, y2: int, x: int, a: int, b: int) -> bool {
    a == x && min_int(y1, y2) <= b <= max_int(y1, y2)
}

/// Cell `(a, b)` lies on the L-shaped corridor from the center of `prev` to
/// the center of `next`, going along the row first when `horizontal_first`.
pub open spec fn on_corridor(
    prev: Rectangle,
    next: Rectangle,
    horizontal_first: bool,
    a: int,
    b: int,
) -> bool {
    let (px, py) = prev.center_spec();
    let (nx, ny) = next.center_spec();
    if horizontal_first {
        on_row(px, nx, py, a, b) || on_column(py, ny, nx, a, b)
    } else {
        on_column(py, ny, px, a, b) || on_row(px, nx, ny, a, b)
    }
}

/// A requested room side clamped into `[0, span]`.
pub open spec fn side_lo(min_size: int, span: int) -> int {
    if min_size < 0 {
        0
    } else if min_size > span {
        span
    } else {
        min_size
    }
}

/// The largest side drawn: `max_size` clamped into `[side_lo, span]`.
pub open spec fn side_hi(min_size: int, max_size: int, span: int) -> int {
    let lo = side_lo(min_size, span);
    if max_size < lo {
        lo
    } else if max_size > span {
        span
    } else {
        max_size
    }
}

/// Both sides of `r` lie between the clamped bounds for a grid of the
/// given size.
pub open spec fn room_sized(r: Rectangle, min_size: int, max_size: int, width: int, height: int) -> bool {
    &&& side_lo(min_size, width - 3) <= r.lower_x - r.upper_x <= side_hi(min_size, max_size, width - 3)
    &&& side_lo(min_size, height - 3) <= r.lower_y - r.upper_y <= side_hi(min_size, max_size, height - 3)
}

/// A room inside the grid has its center off the outer ring.
pub proof fn lemma_center_interior(r: Rectangle, width: int, height: int)
    requires
        room_inside(r, width, height),
    ensures
        1 <= r.center_spec().0 < width - 1,
        1 <= r.center_spec().1 < height - 1,
{
}

impl GameMap {
    /// Every cell of the corridor is on the grid and floor.
    pub open spec fn corridor_full(&self, prev: Rectangle, next: Rectangle, h: bool) -> bool {
        forall|a: int, b: int|
            on_corridor(prev, next, h, a, b) ==> self.in_bounds_spec(a, b) && #[trigger] self.cell(a, b)
                == TileType::Floor
    }

    /// Everything but the tiles is as in `other`.
    pub open spec fn same_but_tiles(&self, other: &GameMap) -> bool {
        &&& self.width == other.width
        &&& self.height == other.height
        &&& self.rooms@ == other.rooms@
        &&& self.revealed_tiles@ == other.revealed_tiles@
        &&& self.visible_tiles@ == other.visible_tiles@
        &&& self.occupied_tiles@ == other.occupied_tiles@
        &&& self.tiles@.len() == other.tiles@.len()
    }

    /// Every cell of the outer ring is a wall.
    pub open spec fn border_walls(&self) -> bool {
        forall|a: int, b: int|
            self.in_bounds_spec(a, b) && !self.is_interior(a, b) ==> #[trigger] self.cell(a, b)
                == TileType::Wall
    }

    /// Every cell that the room covers is floor.
    pub open spec fn room_carved(&self, r: Rectangle) -> bool {
        forall|a: int, b: int|
            self.in_bounds_spec(a, b) && room_covers(r, a, b) ==> #[trigger] self.cell(a, b)
                == TileType::Floor
    }

    /// Every cell of the corridor that is on the grid is floor.
    pub open spec fn corridor_carved(&self, prev: Rectangle, next: Rectangle, h: bool) -> bool {
        forall|a: int, b: int|
            self.in_bounds_spec(a, b) && on_corridor(prev, next, h, a, b) ==> #[trigger] self.cell(a, b) == TileType::Floor
    }

    /// Cell `(a, b)` lies in room `k` or on the corridor (of either shape)
    /// that joins room `k - 1` to room `k`.
    pub open spec fn planned(&self, k: int, a: int, b: int) -> bool {
        room_covers(self.rooms@[k], a, b) || (k >= 1 && (on_corridor(
            self.rooms@[k - 1],
            self.rooms@[k],
            true,
            a,
            b,
        ) || on_corridor(self.rooms@[k - 1], self.rooms@[k], false, a, b)))
    }

    /// Every floor cell lies in a room or on a corridor between two rooms.
    pub open spec fn floors_planned(&self) -> bool {
        forall|a: int, b: int|
            self.in_bounds_spec(a, b) && #[trigger] self.cell(a, b) == TileType::Floor ==> exists|
                k: int,
            |
                0 <= k < self.rooms@.len() && #[trigger] self.planned(k, a, b)
    }

    /// The properties of a generated dungeon: rooms inside the grid, carved,
    /// pairwise disjoint and chained by corridors, and a solid outer ring.
    pub open spec fn dungeon_shape(&self) -> bool {
        &&& self.border_walls()
        &&& self.floors_planned()
        &&& forall|k: int|
            0 <= k < self.rooms@.len() ==> room_inside(
                #[trigger] self.rooms@[k],
                self.width as int,
                self.height as int,
            )
        &&& forall|k: int| 0 <= k < self.rooms@.len() ==> self.room_carved(#[trigger] self.rooms@[k])
        &&& forall|k: int|
            1 <= k < self.rooms@.len() ==> self.corridor_carved(
                self.rooms@[k - 1],
                #[trigger] self.rooms@[k],
                true,
            ) || self.corridor_carved(self.rooms@[k - 1], self.rooms@[k], false)
        &&& forall|j: int, k: int|
            0 <= j < k < self.rooms@.len() ==> !(#[trigger] self.rooms@[j]).intersects_spec(
                #[trigger] self.rooms@[k],
            )
    }

    /// Turns cell `(x, y)` to floor when it is on the grid; any other cell is
    /// left alone, and a cell off the grid is skipped.
    fn carve(&mut self, x: i64, y: i64)
        requires
            old(self).wf(),
        ensures
            final(self).wf(),
            final(self).same_but_tiles(old(self)),
            forall|a: int, b: int|
                #![trigger final(self).cell(a, b)]
                final(self).in_bounds_spec(a, b) ==> final(self).cell(a, b) == if a == x && b == y {
                    TileType::Floor
                } else {
                    old(self).cell(a, b)
                },
    {
        if 0 <= x && x < self.width as i64 && 0 <= y && y < self.height as i64 {
            let idx = self.xy_idx(x as i32, y as i32);
            self.tiles.set(idx, TileType::Floor);
            proof {
                let w = self.width as int;
                let hh = self.height as int;
                assert forall|a: int, b: int| #![trigger self.cell(a, b)]
                    self.in_bounds_spec(a, b) implies self.cell(a, b) == if a == x && b == y {
                    TileType::Floor
                } else {
                    old(self).cell(a, b)
                } by {
                    lemma_index_round_trip(a, b, w, hh);
                    lemma_index_round_trip(x as int, y as int, w, hh);
                }
            }
        }
    }
    /// Carves row `y` from column `x1` to column `x2`, both included, skipping
    /// cells off the grid.
    fn apply_horizontal_tunnel(&mut self, x1: i32, x2: i32, y: i32)
        requires
            old(self).wf(),
        ensures
            final(self).wf(),
            final(self).same_but_tiles(old(self)),
            forall|a: int, b: int|
                #![trigger final(self).cell(a, b)]
                final(self).in_bounds_spec(a, b) ==> final(self).cell(a, b) == if on_row(
                    x1 as int,
                    x2 as int,
                    y as int,
                    a,
                    b,
                ) {
                    TileType::Floor
                } else {
                    old(self).cell(a, b)
                },
    {
        let lo: i64 = if x1 <= x2 { x1 as i64 } else { x2 as i64 };
        let hi: i64 = if x1 <= x2 { x2 as i64 } else { x1 as i64 };
        let mut x: i64 = lo;
        while x <= hi
            invariant
                self.wf(),
                self.same_but_tiles(old(self)),
                lo == min_int(x1 as int, x2 as int),
                hi == max_int(x1 as int, x2 as int),
                lo <= x <= hi + 1,
                forall|a: int, b: int|
                    #![trigger self.cell(a, b)]
                    self.in_bounds_spec(a, b) ==> self.cell(a, b) == if b == y && lo <= a < x
                        {
                        TileType::Floor
                    } else {
                        old(self).cell(a, b)
                    },
            decreases hi + 1 - x,
        {
            self.carve(x, y as i64);
            x = x + 1;
        }
    }

    /// Carves column `x` from row `y1` to row `y2`, both included, skipping
    /// cells off the grid.
    fn apply_vertical_tunnel(&mut self, y1: i32, y2: i32, x: i32)
        requires
            old(self).wf(),
        ensures
            final(self).wf(),
            final(self).same_but_tiles(old(self)),
            forall|a: int, b: int|
                #![trigger final(self).cell(a, b)]
                final(self).in_bounds_spec(a, b) ==> final(self).cell(a, b) == if on_column(
                    y1 as int,
                    y2 as int,
                    x as int,
                    a,
                    b,
                ) {
                    TileType::Floor
                } else {
                    old(self).cell(a, b)
                },
    {
        let lo: i64 = if y1 <= y2 { y1 as i64 } else { y2 as i64 };
        let hi: i64 = if y1 <= y2 { y2 as i64 } else { y1 as i64 };
        let mut y: i64 = lo;
        while y <= hi
            invariant
                self.wf(),
                self.same_but_tiles(old(self)),
                lo == min_int(y1 as int, y2 as int),
                hi == max_int(y1 as int, y2 as int),
                lo <= y <= hi + 1,
                forall|a: int, b: int|
                    #![trigger self.cell(a, b)]
                    self.in_bounds_spec(a, b) ==> self.cell(a, b) == if a == x && lo <= b < y
                        {
                        TileType::Floor
                    } else {
                        old(self).cell(a, b)
                    },
            decreases hi + 1 - y,
        {
            self.carve(x as i64, y);
            y = y + 1;
        }
    }

    /// Carves the cells that the room covers, skipping cells off the grid.
    fn apply_room_to_map(&mut self, room: &Rectangle)
        requires
            old(self).wf(),
        ensures
            final(self).wf(),
            final(self).same_but_tiles(old(self)),
            forall|a: int, b: int|
                #![trigger final(self).cell(a, b)]
                final(self).in_bounds_spec(a, b) ==> final(self).cell(a, b) == if room_covers(
                    *room,
                    a,
                    b,
                ) {
                    TileType::Floor
                } else {
                    old(self).cell(a, b)
                },
    {
        let mut y: i64 = room.upper_y as i64 + 1;
        while y <= room.lower_y as i64
            invariant
                self.wf(),
                self.same_but_tiles(old(self)),
                room.upper_y + 1 <= y,
                y <= room.upper_y + 1 || y <= room.lower_y + 1,
                forall|a: int, b: int|
                    #![trigger self.cell(a, b)]
                    self.in_bounds_spec(a, b) ==> self.cell(a, b) == if room.upper_x < a
                        <= room.lower_x && room.upper_y < b < y {
                        TileType::Floor
                    } else {
                        old(self).cell(a, b)
                    },
            decreases room.lower_y + 1 - y,
        {
            let mut x: i64 = room.upper_x as i64 + 1;
            while x <= room.lower_x as i64
                invariant
                    self.wf(),
                    self.same_but_tiles(old(self)),
                    room.upper_y < y <= room.lower_y,
                    room.upper_x + 1 <= x,
                    x <= room.upper_x + 1 || x <= room.lower_x + 1,
                    forall|a: int, b: int|
                        #![trigger self.cell(a, b)]
                        self.in_bounds_spec(a, b) ==> self.cell(a, b) == if ((room.upper_x < a
                            <= room.lower_x && room.upper_y < b < y) || (b == y && room.upper_x
                            < a < x)) {
                            TileType::Floor
                        } else {
                            old(self).cell(a, b)
                        },
                decreases room.lower_x + 1 - x,
            {
                self.carve(x, y);
                x = x + 1;
            }
            y = y + 1;
        }
    }
    /// True when `room` overlaps none of the rooms placed so far.
    pub fn fits(&self, room: &Rectangle) -> (r: bool)
        ensures
            r == forall|k: int|
                0 <= k < self.rooms@.len() ==> !(#[trigger] self.rooms@[k]).intersects_spec(*room),
    {
        let mut k: usize = 0;
        while k < self.rooms.len()
            invariant
                k <= self.rooms@.len(),
                forall|j: int| 0 <= j < k ==> !(#[trigger] self.rooms@[j]).intersects_spec(*room),
            decreases self.rooms@.len() - k,
        {
            if self.rooms[k].intersect(room) {
                return false;
            }
            k = k + 1;
        }
        true
    }

    /// Places `room` unless it overlaps a room placed before: carves it, joins
    /// its center to the previous room's center by a corridor (along the row
    /// first when `horizontal_first`), and appends it to the room list.
    /// Returns whether the room was placed; a rejected room changes nothing.
    pub fn try_add_room(&mut self, room: Rectangle, horizontal_first: bool) -> (r: bool)
        requires
            old(self).wf(),
        ensures
            final(self).wf(),
            r == forall|k: int|
                0 <= k < old(self).rooms@.len() ==> !(#[trigger] old(self).rooms@[k]).intersects_spec(
                    room,
                ),
            !r ==> final(self).same_but_tiles(old(self)) && final(self).tiles@ == old(self).tiles@,
            r ==> final(self).rooms@ == old(self).rooms@.push(room),
            final(self).width == old(self).width,
            final(self).height == old(self).height,
            final(self).revealed_tiles@ == old(self).revealed_tiles@,
            final(self).visible_tiles@ == old(self).visible_tiles@,
            final(self).occupied_tiles@ == old(self).occupied_tiles@,
            r ==> forall|a: int, b: int|
                #![trigger final(self).cell(a, b)]
                final(self).in_bounds_spec(a, b) ==> final(self).cell(a, b) == if (room_covers(room, a, b) || (old(self).rooms@.len() > 0 && on_corridor(
                    old(self).rooms@.last(),
                    room,
                    horizontal_first,
                    a,
                    b,
                ))) {
                    TileType::Floor
                } else {
                    old(self).cell(a, b)
                },
            old(self).dungeon_shape() && room_inside(
                room,
                old(self).width as int,
                old(self).height as int,
            ) ==> final(self).dungeon_shape(),
    {
        if !self.fits(&room) {
            return false;
        }
        self.apply_room_to_map(&room);
        let ghost s1 = *self;
        if self.rooms.len() > 0 {
            let (nx, ny) = room.center();
            let (px, py) = self.rooms[self.rooms.len() - 1].center();
            if horizontal_first {
                self.apply_horizontal_tunnel(px, nx, py);
                let ghost s2 = *self;
                self.apply_vertical_tunnel(py, ny, nx);
                assert forall|a: int, b: int| #![trigger self.cell(a, b)]
                    self.in_bounds_spec(a, b) implies self.cell(a, b) == if on_corridor(s1.rooms@.last(), room, horizontal_first, a, b) {
                    TileType::Floor
                } else {
                    s1.cell(a, b)
                } by {
                    assert(s2.cell(a, b) == if on_row(px as int, nx as int, py as int, a, b) {
                        TileType::Floor
                    } else {
                        s1.cell(a, b)
                    });
                }
            } else {
                self.apply_vertical_tunnel(py, ny, px);
                let ghost s2 = *self;
                self.apply_horizontal_tunnel(px, nx, ny);
                assert forall|a: int, b: int| #![trigger self.cell(a, b)]
                    self.in_bounds_spec(a, b) implies self.cell(a, b) == if on_corridor(s1.rooms@.last(), room, horizontal_first, a, b) {
                    TileType::Floor
                } else {
                    s1.cell(a, b)
                } by {
                    assert(s2.cell(a, b) == if on_column(py as int, ny as int, px as int, a, b) {
                        TileType::Floor
                    } else {
                        s1.cell(a, b)
                    });
                }
            }
        }
        let ghost s3 = *self;
        self.rooms.push(room);
        proof {
            let o = old(self);
            assert forall|a: int, b: int| #![trigger self.cell(a, b)]
                self.in_bounds_spec(a, b) implies self.cell(a, b) == if (
                room_covers(room, a, b) || (o.rooms@.len() > 0 && on_corridor(
                    o.rooms@.last(),
                    room,
                    horizontal_first,
                    a,
                    b,
                ))) {
                TileType::Floor
            } else {
                o.cell(a, b)
            } by {
                assert(self.cell(a, b) == s3.cell(a, b));
                assert(s1.cell(a, b) == if room_covers(room, a, b) {
                    TileType::Floor
                } else {
                    o.cell(a, b)
                });
            }
            if o.dungeon_shape() && room_inside(room, o.width as int, o.height as int) {
                let n = o.rooms@.len() as int;
                let wd = o.width as int;
                let ht = o.height as int;
                lemma_center_interior(room, wd, ht);
                if n > 0 {
                    assert(room_inside(o.rooms@[n - 1], wd, ht));
                    lemma_center_interior(o.rooms@.last(), wd, ht);
                }
                assert forall|a: int, b: int|
                    self.in_bounds_spec(a, b) && !self.is_interior(a, b) implies #[trigger] self.cell(a, b)
                    == TileType::Wall by {
                    assert(!room_covers(room, a, b));
                    if n > 0 {
                        assert(!on_corridor(o.rooms@.last(), room, horizontal_first, a, b));
                    }
                    assert(o.cell(a, b) == TileType::Wall);
                }
                assert forall|k: int| 0 <= k < self.rooms@.len() implies self.room_carved(
                    #[trigger] self.rooms@[k],
                ) by {
                    let rk = self.rooms@[k];
                    assert forall|a: int, b: int|
                        self.in_bounds_spec(a, b) && room_covers(rk, a, b) implies #[trigger] self.cell(
                        a,
                        b,
                    ) == TileType::Floor by {
                        if k < n {
                            assert(o.room_carved(o.rooms@[k]));
                            assert(o.cell(a, b) == TileType::Floor);
                        }
                    }
                }
                assert forall|k: int| 1 <= k < self.rooms@.len() implies self.corridor_carved(
                    self.rooms@[k - 1],
                    #[trigger] self.rooms@[k],
                    true,
                ) || self.corridor_carved(self.rooms@[k - 1], self.rooms@[k], false) by {
                    if k < n {
                        assert(self.rooms@[k - 1] == o.rooms@[k - 1]);
                        let hk = o.corridor_carved(o.rooms@[k - 1], o.rooms@[k], true);
                        assert(o.corridor_carved(o.rooms@[k - 1], o.rooms@[k], hk));
                        assert forall|a: int, b: int|
                            self.in_bounds_spec(a, b) && on_corridor(
                                self.rooms@[k - 1],
                                self.rooms@[k],
                                hk,
                                a,
                                b,
                            ) implies #[trigger] self.cell(a, b) == TileType::Floor by {
                            assert(o.cell(a, b) == TileType::Floor);
                        }
                        assert(self.corridor_carved(self.rooms@[k - 1], self.rooms@[k], hk));
                    } else {
                        assert(self.rooms@[k - 1] == o.rooms@.last());
                        assert(self.corridor_carved(
                            self.rooms@[k - 1],
                            self.rooms@[k],
                            horizontal_first,
                        ));
                    }
                }
                assert forall|a: int, b: int|
                    self.in_bounds_spec(a, b) && #[trigger] self.cell(a, b) == TileType::Floor implies exists|
                    k: int,
                |
                    0 <= k < self.rooms@.len() && #[trigger] self.planned(k, a, b) by {
                    if o.cell(a, b) == TileType::Floor {
                        let k = choose|k: int| 0 <= k < n && #[trigger] o.planned(k, a, b);
                        assert(self.rooms@[k] == o.rooms@[k]);
                        if k >= 1 {
                            assert(self.rooms@[k - 1] == o.rooms@[k - 1]);
                        }
                        assert(self.planned(k, a, b));
                    } else {
                        assert(self.rooms@[n] == room);
                        if n >= 1 {
                            assert(self.rooms@[n - 1] == o.rooms@.last());
                        }
                        assert(self.planned(n, a, b));
                    }
                }
                assert forall|j: int, k: int|
                    0 <= j < k < self.rooms@.len() implies !(#[trigger] self.rooms@[j]).intersects_spec(
                    #[trigger] self.rooms@[k],
                ) by {
                    if k < n {
                        assert(self.rooms@[j] == o.rooms@[j]);
                        assert(self.rooms@[k] == o.rooms@[k]);
                    } else {
                        assert(!o.rooms@[j].intersects_spec(room));
                        crate::rectangle::lemma_intersect_symmetric(o.rooms@[j], room);
                    }
                }
            }
        }
        true
    }
}

/// Draws a room dimension: a value between `min_size` and `max_size`, both
/// included, after both are clamped into `[0, span]`.
fn sample_size(rng: &mut RandomNumberGenerator, min_size: i32, max_size: i32, span: i32) -> (r: i32)
    requires
        0 <= span < i32::MAX,
    ensures
        side_lo(min_size as int, span as int) <= r <= side_hi(min_size as int, max_size as int, span as int),
{
    let lo: i32 = if min_size < 0 {
        0
    } else if min_size > span {
        span
    } else {
        min_size
    };
    let hi: i32 = if max_size < lo {
        lo
    } else if max_size > span {
        span
    } else {
        max_size
    };
    draw_range(rng, lo, hi + 1)
}

impl GameMap {
    /// Generates a dungeon of the given size. Up to `max_rooms` candidate
    /// rooms are drawn, each dimension between `min_size` and `max_size`
    /// (clamped to what the grid can hold) with the room's outline inside the
    /// outer ring of walls. A candidate that overlaps an earlier room is
    /// dropped; the others are carved and joined by a corridor to the room
    /// placed before them. The first room is where the player starts.
    pub fn generate(
        width: i32,
        height: i32,
        max_rooms: i32,
        min_size: i32,
        max_size: i32,
        rng: &mut RandomNumberGenerator,
    ) -> (r: GameMap)
        requires
            0 < width,
            0 < height,
            width * height <= i32::MAX,
        ensures
            r.wf(),
            r.width == width,
            r.height == height,
            r.rooms@.len() <= max_int(max_rooms as int, 0),
            0 < max_rooms && 3 <= width && 3 <= height ==> r.rooms@.len() >= 1,
            r.dungeon_shape(),
            forall|k: int|
                0 <= k < r.rooms@.len() ==> room_sized(
                    #[trigger] r.rooms@[k],
                    min_size as int,
                    max_size as int,
                    width as int,
                    height as int,
                ),
            forall|k: int|
                1 <= k < r.rooms@.len() ==> r.corridor_full(r.rooms@[k - 1], #[trigger] r.rooms@[k], true)
                    || r.corridor_full(r.rooms@[k - 1], r.rooms@[k], false),
            forall|i: int| 0 <= i < r.len_spec() ==> !r.revealed_tiles@[i],
            forall|i: int| 0 <= i < r.len_spec() ==> !r.visible_tiles@[i],
            forall|i: int| 0 <= i < r.len_spec() ==> !r.occupied_tiles@[i],
    {
        let mut map = GameMap::new(width, height);
        proof {
            assert forall|a: int, b: int| map.in_bounds_spec(a, b) implies #[trigger] map.cell(a, b)
                == TileType::Wall by {
                lemma_index_round_trip(a, b, width as int, height as int);
            }
        }
        if width < 3 || height < 3 {
            return map;
        }
        let mut attempt: i32 = 0;
        while attempt < max_rooms
            invariant
                map.wf(),
                map.width == width,
                map.height == height,
                3 <= width,
                3 <= height,
                0 <= attempt,
                attempt <= max_rooms || attempt == 0,
                map.rooms@.len() <= attempt,
                0 < attempt ==> map.rooms@.len() >= 1,
                forall|k: int|
                    0 <= k < map.rooms@.len() ==> room_sized(
                        #[trigger] map.rooms@[k],
                        min_size as int,
                        max_size as int,
                        width as int,
                        height as int,
                    ),
                map.dungeon_shape(),
                forall|i: int| 0 <= i < map.len_spec() ==> !map.revealed_tiles@[i],
                forall|i: int| 0 <= i < map.len_spec() ==> !map.visible_tiles@[i],
                forall|i: int| 0 <= i < map.len_spec() ==> !map.occupied_tiles@[i],
            decreases max_rooms - attempt,
        {
            let w = sample_size(rng, min_size, max_size, width - 3);
            let h = sample_size(rng, min_size, max_size, height - 3);
            let x = roll_one_die(rng, width - w - 2);
            let y = roll_one_die(rng, height - h - 2);
            let room = Rectangle::new(x, y, w, h);
            if map.fits(&room) {
                let horizontal_first = if map.rooms.len() > 0 {
                    draw_range(rng, 0, 2) == 1
                } else {
                    false
                };
                map.try_add_room(room, horizontal_first);
            }
            attempt = attempt + 1;
        }
        proof {
            {
                assert forall|k: int| 1 <= k < map.rooms@.len() implies map.corridor_full(
                    map.rooms@[k - 1],
                    #[trigger] map.rooms@[k],
                    true,
                ) || map.corridor_full(map.rooms@[k - 1], map.rooms@[k], false) by {
                    let p = map.rooms@[k - 1];
                    let q = map.rooms@[k];
                    assert(room_sized(p, min_size as int, max_size as int, width as int, height as int));
                    assert(room_inside(p, width as int, height as int));
                    lemma_center_interior(p, width as int, height as int);
                    lemma_center_interior(q, width as int, height as int);
                    let hk = map.corridor_carved(p, q, true);
                    assert(map.corridor_carved(p, q, hk));
                    assert forall|a: int, b: int| on_corridor(p, q, hk, a, b) implies map.in_bounds_spec(a, b)
                        && #[trigger] map.cell(a, b) == TileType::Floor by {
                        assert(map.is_interior(a, b));
                    }
                    assert(map.corridor_full(p, q, hk));
                }
            }
        }
        map
    }

    /// A dungeon of the default size with up to thirty rooms of six to ten
    /// cells a side, drawn from a freshly seeded generator.
    pub fn new_map() -> (r: GameMap)
        ensures
            r.wf(),
            r.width == WINDOW_WIDTH,
            r.height == WINDOW_HEIGHT,
            r.rooms@.len() <= MAX_ROOMS,
            r.rooms@.len() >= 1,
            r.dungeon_shape(),
            forall|k: int|
                0 <= k < r.rooms@.len() ==> room_sized(
                    #[trigger] r.rooms@[k],
                    MIN_SIZE as int,
                    MAX_SIZE as int,
                    WINDOW_WIDTH as int,
                    WINDOW_HEIGHT as int,
                ),
            forall|k: int|
                1 <= k < r.rooms@.len() ==> r.corridor_full(r.rooms@[k - 1], #[trigger] r.rooms@[k], true)
                    || r.corridor_full(r.rooms@[k - 1], r.rooms@[k], false),
    {
        let mut rng = fresh_rng();
        GameMap::generate(WINDOW_WIDTH, WINDOW_HEIGHT, MAX_ROOMS, MIN_SIZE, MAX_SIZE, &mut rng)
    }
}

} // verus!
