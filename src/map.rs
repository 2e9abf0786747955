//! The dungeon grid: tiles, coordinate mapping, per-tile flags and the
//! movement oracle used by pathfinding.
use vstd::prelude::*;
use vstd::arithmetic::div_mod::lemma_fundamental_div_mod_converse;

use crate::rectangle::Rectangle;

verus! {

/// Default grid width.
pub const WINDOW_WIDTH: i32 = 79;

/// Default grid height.
pub const WINDOW_HEIGHT: i32 = 49;

#[derive(Clone, Copy, Debug, PartialEq, Eq, Structural)]
pub enum TileType {
    Floor,
    Wall,
}

/// The grid, row-major: cell `(x, y)` sits at index `y * width + x`.
pub struct GameMap {
    pub tiles: Vec<TileType>,
    pub revealed_tiles: Vec<bool>,
    pub visible_tiles: Vec<bool>,
    pub occupied_tiles: Vec<bool>,
    pub rooms: Vec<Rectangle>,
    pub width: i32,
    pub height: i32,
}

/// Row-major index of `(x, y)` in a grid of the given width.
pub open spec fn index_of(x: int, y: int, width: int) -> int {
    y * width + x
}

/// Squared Euclidean distance between two cells.
pub open spec fn dist_sq(x1: int, y1: int, x2: int, y2: int) -> int {
    (x1 - x2) * (x1 - x2) + (y1 - y2) * (y1 - y2)
}

/// An in-bounds cell has an index inside the grid, and that index maps back
/// to the cell.
pub proof fn lemma_index_round_trip(x: int, y: int, width: int, height: int)
    requires
        0 < width,
        0 <= x < width,
        0 <= y < height,
    ensures
        0 <= index_of(x, y, width) < width * height,
        index_of(x, y, width) % width == x,
        index_of(x, y, width) / width == y,
{
    assert(0 <= y * width + x < width * height) by (nonlinear_arith)
        requires
            0 < width,
            0 <= x < width,
            0 <= y < height,
    ;
    lemma_fundamental_div_mod_converse(y * width + x, width, y, x);
}

/// An index inside the grid is the index of an in-bounds cell.
pub proof fn lemma_index_split(i: int, width: int, height: int)
    requires
        0 < width,
        0 <= i < width * height,
    ensures
        0 <= i % width < width,
        0 <= i / width < height,
        index_of(i % width, i / width, width) == i,
{
    assert(0 <= i / width < height) by (nonlinear_arith)
        requires
            0 < width,
            0 <= i < width * height,
    ;
    vstd::arithmetic::div_mod::lemma_fundamental_div_mod(i, width);
    assert((i / width) * width == width * (i / width)) by (nonlinear_arith);
}

impl GameMap {
    pub open spec fn len_spec(&self) -> int {
        self.width * self.height
    }

    /// Dimensions are positive, every index fits an `i32`, and each per-tile
    /// array holds one entry per cell.
    pub open spec fn wf(&self) -> bool {
        &&& 0 < self.width
        &&& 0 < self.height
        &&& self.width * self.height <= i32::MAX
        &&& self.tiles@.len() == self.len_spec()
        &&& self.revealed_tiles@.len() == self.len_spec()
        &&& self.visible_tiles@.len() == self.len_spec()
        &&& self.occupied_tiles@.len() == self.len_spec()
    }

    pub open spec fn in_bounds_spec(&self, x: int, y: int) -> bool {
        0 <= x < self.width && 0 <= y < self.height
    }

    pub open spec fn idx_spec(&self, x: int, y: int) -> int {
        index_of(x, y, self.width as int)
    }

    /// The tile at an in-bounds cell.
    pub open spec fn cell(&self, x: int, y: int) -> TileType {
        self.tiles@[self.idx_spec(x, y)]
    }

    /// A cell off the outer ring of the grid.
    pub open spec fn is_interior(&self, x: int, y: int) -> bool {
        1 <= x < self.width - 1 && 1 <= y < self.height - 1
    }

    /// Whether a cell can be entered: in bounds, not a wall, not occupied.
    pub open spec fn exit_valid_spec(&self, x: int, y: int) -> bool {
        &&& self.in_bounds_spec(x, y)
        &&& self.tiles@[self.idx_spec(x, y)] == TileType::Floor
        &&& !self.occupied_tiles@[self.idx_spec(x, y)]
    }

    /// A grid of the given size that is all wall, with no room and every
    /// flag cleared.
    pub fn new(width: i32, height: i32) -> (r: GameMap)
        requires
            0 < width,
            0 < height,
            width * height <= i32::MAX,
        ensures
            r.wf(),
            r.width == width,
            r.height == height,
            r.rooms@.len() == 0,
            forall|i: int| 0 <= i < r.len_spec() ==> r.tiles@[i] == TileType::Wall,
            forall|i: int| 0 <= i < r.len_spec() ==> !r.revealed_tiles@[i],
            forall|i: int| 0 <= i < r.len_spec() ==> !r.visible_tiles@[i],
            forall|i: int| 0 <= i < r.len_spec() ==> !r.occupied_tiles@[i],
    {
        assert(0 < width * height) by (nonlinear_arith)
            requires
                0 < width,
                0 < height,
        ;
        let length: usize = (width * height) as usize;
        GameMap {
            tiles: vec![TileType::Wall; length],
            revealed_tiles: vec![false; length],
            visible_tiles: vec![false; length],
            occupied_tiles: vec![false; length],
            rooms: Vec::new(),
            width,
            height,
        }
    }

    /// Whether `(x, y)` lies on the grid.
    pub fn in_bounds(&self, x: i32, y: i32) -> (r: bool)
        ensures
            r == self.in_bounds_spec(x as int, y as int),
    {
        0 <= x && x < self.width && 0 <= y && y < self.height
    }

    /// Row-major index of an in-bounds cell.
    pub fn xy_idx(&self, x: i32, y: i32) -> (r: usize)
        requires
            self.wf(),
            self.in_bounds_spec(x as int, y as int),
        ensures
            r == self.idx_spec(x as int, y as int),
            r < self.len_spec(),
    {
        proof {
            lemma_index_round_trip(x as int, y as int, self.width as int, self.height as int);
        }
        (y * self.width + x) as usize
    }

    /// The cell at an index inside the grid.
    pub fn idx_to_xy(&self, idx: usize) -> (r: (i32, i32))
        requires
            self.wf(),
            idx < self.len_spec(),
        ensures
            r.0 == idx as int % self.width as int,
            r.1 == idx as int / self.width as int,
            self.in_bounds_spec(r.0 as int, r.1 as int),
            self.idx_spec(r.0 as int, r.1 as int) == idx,
    {
        proof {
            lemma_index_split(idx as int, self.width as int, self.height as int);
        }
        let w: usize = self.width as usize;
        ((idx % w) as i32, (idx / w) as i32)
    }

    /// Walls block sight; an index off the grid counts as opaque.
    pub fn is_opaque(&self, idx: usize) -> (r: bool)
        requires
            self.wf(),
        ensures
            r == (idx >= self.len_spec() || self.tiles@[idx as int] == TileType::Wall),
    {
        idx >= self.tiles.len() || self.tiles[idx] == TileType::Wall
    }

    /// Occupied cells block movement; an index off the grid counts as
    /// blocked.
    pub fn is_blocked(&self, idx: usize) -> (r: bool)
        requires
            self.wf(),
        ensures
            r == (idx >= self.len_spec() || self.occupied_tiles@[idx as int]),
    {
        idx >= self.occupied_tiles.len() || self.occupied_tiles[idx]
    }

    /// Whether a step into `(x, y)` is allowed.
    pub fn is_exit_valid(&self, x: i32, y: i32) -> (r: bool)
        requires
            self.wf(),
        ensures
            r == self.exit_valid_spec(x as int, y as int),
    {
        if !self.in_bounds(x, y) {
            return false;
        }
        let idx = self.xy_idx(x, y);
        self.tiles[idx] == TileType::Floor && !self.occupied_tiles[idx]
    }
}

impl GameMap {
    /// The cells a step from index `idx` may enter, in the order west, east,
    /// north, south, each present only when `exit_valid_spec` holds of it.
    pub open spec fn exits_spec(&self, idx: int) -> Seq<usize> {
        let w = self.width as int;
        let x = idx % w;
        let y = idx / w;
        let s0 = Seq::<usize>::empty();
        let s1 = if self.exit_valid_spec(x - 1, y) {
            s0.push((idx - 1) as usize)
        } else {
            s0
        };
        let s2 = if self.exit_valid_spec(x + 1, y) {
            s1.push((idx + 1) as usize)
        } else {
            s1
        };
        let s3 = if self.exit_valid_spec(x, y - 1) {
            s2.push((idx - w) as usize)
        } else {
            s2
        };
        if self.exit_valid_spec(x, y + 1) {
            s3.push((idx + w) as usize)
        } else {
            s3
        }
    }

    /// The cardinal neighbours of index `idx` that a step may enter: in
    /// bounds, floor and unoccupied. Each step costs one.
    /// An index off the grid has no exit.
    pub fn get_available_exits(&self, idx: usize) -> (r: Vec<usize>)
        requires
            self.wf(),
        ensures
            idx < self.len_spec() ==> r@ == self.exits_spec(idx as int),
            idx >= self.len_spec() ==> r@.len() == 0,
    {
        if idx >= self.tiles.len() {
            return Vec::new();
        }
        let (x, y) = self.idx_to_xy(idx);
        let width: usize = self.width as usize;
        let mut exits: Vec<usize> = Vec::new();
        proof {
            lemma_index_split(idx as int, self.width as int, self.height as int);
            lemma_index_round_trip(x as int, y as int, self.width as int, self.height as int);
        }
        if self.is_exit_valid(x - 1, y) {
            exits.push(idx - 1);
        }
        if self.is_exit_valid(x + 1, y) {
            exits.push(idx + 1);
        }
        if self.is_exit_valid(x, y - 1) {
            proof {
                assert(idx as int - width as int == index_of(x as int, y - 1, width as int))
                    by (nonlinear_arith)
                    requires
                        idx as int == index_of(x as int, y as int, width as int),
                ;
                lemma_index_round_trip(x as int, y - 1, self.width as int, self.height as int);
            }
            exits.push(idx - width);
        }
        if self.is_exit_valid(x, y + 1) {
            proof {
                assert(idx as int + width as int == index_of(x as int, y + 1, width as int))
                    by (nonlinear_arith)
                    requires
                        idx as int == index_of(x as int, y as int, width as int),
                ;
                lemma_index_round_trip(x as int, y + 1, self.width as int, self.height as int);
            }
            exits.push(idx + width);
        }
        exits
    }

    /// Squared Euclidean distance between the cells at two indices; its
    /// square root is the straight-line distance used as the search estimate.
    /// An index off the grid is as far as can be: `u64::MAX`.
    pub fn pathing_distance_sq(&self, idx1: usize, idx2: usize) -> (r: u64)
        requires
            self.wf(),
        ensures
            idx1 >= self.len_spec() || idx2 >= self.len_spec() ==> r == u64::MAX,
            idx1 < self.len_spec() && idx2 < self.len_spec() ==> r == dist_sq(
                idx1 as int % self.width as int,
                idx1 as int / self.width as int,
                idx2 as int % self.width as int,
                idx2 as int / self.width as int,
            ),
    {
        if idx1 >= self.tiles.len() || idx2 >= self.tiles.len() {
            return u64::MAX;
        }
        let (x1, y1) = self.idx_to_xy(idx1);
        let (x2, y2) = self.idx_to_xy(idx2);
        let dx: i64 = x1 as i64 - x2 as i64;
        let dy: i64 = y1 as i64 - y2 as i64;
        proof {
            assert(dx * dx <= 0x7fff_ffff * 0x7fff_ffff) by (nonlinear_arith)
                requires
                    -0x7fff_ffff <= dx <= 0x7fff_ffff,
            ;
            assert(dy * dy <= 0x7fff_ffff * 0x7fff_ffff) by (nonlinear_arith)
                requires
                    -0x7fff_ffff <= dy <= 0x7fff_ffff,
            ;
            assert(0 <= dx * dx) by (nonlinear_arith);
            assert(0 <= dy * dy) by (nonlinear_arith);
        }
        (dx * dx + dy * dy) as u64
    }

    /// Clears every occupancy flag, leaving everything else as it was.
    pub fn populate_occupied(&mut self)
        requires
            old(self).wf(),
        ensures
            final(self).wf(),
            final(self).width == old(self).width,
            final(self).height == old(self).height,
            final(self).tiles@ == old(self).tiles@,
            final(self).rooms@ == old(self).rooms@,
            final(self).revealed_tiles@ == old(self).revealed_tiles@,
            final(self).visible_tiles@ == old(self).visible_tiles@,
            forall|i: int| 0 <= i < final(self).len_spec() ==> !final(self).occupied_tiles@[i],
    {
        let mut i: usize = 0;
        while i < self.occupied_tiles.len()
            invariant
                self.wf(),
                self.width == old(self).width,
                self.height == old(self).height,
                self.tiles@ == old(self).tiles@,
                self.rooms@ == old(self).rooms@,
                self.revealed_tiles@ == old(self).revealed_tiles@,
                self.visible_tiles@ == old(self).visible_tiles@,
                i <= self.occupied_tiles@.len(),
                forall|j: int| 0 <= j < i ==> !self.occupied_tiles@[j],
            decreases self.occupied_tiles@.len() - i,
        {
            self.occupied_tiles.set(i, false);
            i = i + 1;
        }
    }
}

/// The index-to-cell mapping inverts the cell-to-index mapping.
pub proof fn lemma_xy_idx_inverse(m: GameMap, x: int, y: int)
    requires
        m.wf(),
        m.in_bounds_spec(x, y),
    ensures
        0 <= m.idx_spec(x, y) < m.len_spec(),
        m.idx_spec(x, y) % (m.width as int) == x,
        m.idx_spec(x, y) / (m.width as int) == y,
{
    lemma_index_round_trip(x, y, m.width as int, m.height as int);
}

} // verus!
