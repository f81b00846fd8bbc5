//! The dungeon grid: a dense `width x height` array of tiles with the
//! per-turn indices derived from it (revealed, visible, blocked, occupants).

use vstd::prelude::*;

use crate::entity::EntityId;
use crate::rect::Rect;
use crate::rng::Rng;

verus! {

/// Terrain of a single cell.
#[derive(Clone, Copy, PartialEq, Eq, Structural, Debug)]
pub enum TileType {
    Wall,
    Floor,
}

impl TileType {
    /// Walls block sight; floors do not.
    pub open spec fn is_opaque_spec(self) -> bool {
        self == TileType::Wall
    }

    pub fn is_opaque(&self) -> (r: bool)
        ensures
            r == self.is_opaque_spec(),
    {
        match self {
            TileType::Wall => true,
            TileType::Floor => false,
        }
    }
}

/// One straight-or-L-shaped corridor carved between the centers of two
/// consecutively accepted rooms. Kept as ghost data so that contracts can
/// say exactly which cells generation turned into floor.
pub struct Corridor {
    /// Center of the previously accepted room.
    pub from: (int, int),
    /// Center of the newly accepted room.
    pub to: (int, int),
    /// True: horizontal leg at `from.1`, then vertical leg at `to.0`.
    /// False: vertical leg at `from.0`, then horizontal leg at `to.1`.
    pub horizontal_first: bool,
}

impl Corridor {
    /// Does the corridor pass through cell `(x, y)`?
    pub open spec fn covers(self, x: int, y: int) -> bool {
        let (fx, fy) = self.from;
        let (tx, ty) = self.to;
        if self.horizontal_first {
            (y == fy && min_int(fx, tx) <= x <= max_int(fx, tx)) || (x == tx && min_int(fy, ty)
                <= y <= max_int(fy, ty))
        } else {
            (x == fx && min_int(fy, ty) <= y <= max_int(fy, ty)) || (y == ty && min_int(fx, tx)
                <= x <= max_int(fx, tx))
        }
    }
}

pub open spec fn min_int(a: int, b: int) -> int {
    if a <= b {
        a
    } else {
        b
    }
}

pub open spec fn max_int(a: int, b: int) -> int {
    if a <= b {
        b
    } else {
        a
    }
}

/// The dungeon map: terrain plus the derived per-cell state, all stored in
/// dense row-major arrays of length `width * height`.
pub struct TileMap {
    pub tiles: Vec<TileType>,
    pub rooms: Vec<Rect>,
    pub width: i32,
    pub height: i32,
    /// Sticky per-cell "the player has ever seen this" flag.
    pub revealed_tiles: Vec<bool>,
    /// Transient per-cell "currently in the player's view" flag.
    pub visible_tiles: Vec<bool>,
    /// Per-cell "cannot be entered" flag, rebuilt every indexing pass.
    pub blocked_tiles: Vec<bool>,
    /// Per-cell occupant list, rebuilt every indexing pass.
    pub tile_content: Vec<Vec<EntityId>>,
    /// Ghost record of the corridors carved during generation.
    pub corridors: Ghost<Seq<Corridor>>,
}

impl TileMap {
    /// Upper bound on each dimension; keeps all index arithmetic far away
    /// from any machine limit.
    pub open spec fn dimension_limit() -> int {
        10000
    }

    /// Basic shape invariant: positive bounded dimensions and all five
    /// per-cell arrays of length `width * height`.
    pub open spec fn wf(self) -> bool {
        &&& 1 <= self.width <= Self::dimension_limit()
        &&& 1 <= self.height <= Self::dimension_limit()
        &&& self.tiles@.len() == self.width * self.height
        &&& self.revealed_tiles@.len() == self.width * self.height
        &&& self.visible_tiles@.len() == self.width * self.height
        &&& self.blocked_tiles@.len() == self.width * self.height
        &&& self.tile_content@.len() == self.width * self.height
    }

    pub open spec fn area(self) -> int {
        self.width * self.height
    }

    pub open spec fn in_bounds(self, x: int, y: int) -> bool {
        0 <= x < self.width && 0 <= y < self.height
    }

    /// Row-major index of cell `(x, y)`.
    pub open spec fn index_of(self, x: int, y: int) -> int {
        y * self.width + x
    }

    pub open spec fn tile_at(self, x: int, y: int) -> TileType
        recommends
            self.wf(),
            self.in_bounds(x, y),
    {
        self.tiles@[self.index_of(x, y)]
    }

    /// Out-of-bounds cells fail closed: they count as blocked.
    pub open spec fn blocked_at(self, x: int, y: int) -> bool {
        if self.in_bounds(x, y) {
            self.blocked_tiles@[self.index_of(x, y)]
        } else {
            true
        }
    }

    /// Out-of-bounds cells fail closed: they count as not visible.
    pub open spec fn visible_at(self, x: int, y: int) -> bool {
        if self.in_bounds(x, y) {
            self.visible_tiles@[self.index_of(x, y)]
        } else {
            false
        }
    }

    /// An in-bounds cell's index lies within the backing arrays.
    pub proof fn lemma_index_in_range(self, x: int, y: int)
        requires
            self.wf(),
            self.in_bounds(x, y),
        ensures
            0 <= y * self.width <= self.index_of(x, y) < self.area(),
            self.area() <= 100000000,
    {
        assert(0 <= y * self.width <= y * self.width + x < self.width * self.height <= 100000000)
            by (nonlinear_arith)
            requires
                0 <= x < self.width,
                0 <= y < self.height,
                self.width <= 10000,
                self.height <= 10000,
        ;
    }

    /// `index_of` and the `(i % width, i / width)` decomposition are
    /// mutually inverse; this is the heart of the `get_index` /
    /// `get_coords` round-trip property.
    pub proof fn lemma_index_coords_inverse(self, x: int, y: int)
        requires
            self.wf(),
            self.in_bounds(x, y),
        ensures
            self.index_of(x, y) % (self.width as int) == x,
            self.index_of(x, y) / (self.width as int) == y,
    {
        assert((y * self.width + x) % (self.width as int) == x && (y * self.width + x) / (
        self.width as int) == y) by (nonlinear_arith)
            requires
                0 <= x < self.width,
                0 <= y,
        ;
    }

    /// The reverse direction: decomposing any in-range index gives an
    /// in-bounds cell that maps back to the same index.
    pub proof fn lemma_coords_index_inverse(self, i: int)
        requires
            self.wf(),
            0 <= i < self.area(),
        ensures
            self.in_bounds(i % (self.width as int), i / (self.width as int)),
            self.index_of(i % (self.width as int), i / (self.width as int)) == i,
    {
        let w = self.width as int;
        let h = self.height as int;
        assert(0 <= i % w < w && 0 <= i / w < h && (i / w) * w + i % w == i) by (nonlinear_arith)
            requires
                0 < w,
                0 < h,
                0 <= i < w * h,
        ;
    }

    /// Distinct in-bounds cells have distinct indices.
    pub proof fn lemma_index_injective(self, x1: int, y1: int, x2: int, y2: int)
        requires
            self.wf(),
            self.in_bounds(x1, y1),
            self.in_bounds(x2, y2),
            self.index_of(x1, y1) == self.index_of(x2, y2),
        ensures
            x1 == x2 && y1 == y2,
    {
        self.lemma_index_coords_inverse(x1, y1);
        self.lemma_index_coords_inverse(x2, y2);
    }

    pub fn get_width(&self) -> (r: i32)
        ensures
            r == self.width,
    {
        self.width
    }

    pub fn get_height(&self) -> (r: i32)
        ensures
            r == self.height,
    {
        self.height
    }

    pub fn get_rooms(&self) -> (r: &Vec<Rect>)
        ensures
            r@ == self.rooms@,
    {
        &self.rooms
    }

    /// The player starts at the center of the first accepted room, or at
    /// the grid center if generation accepted no room at all.
    pub fn get_player_starting_position(&self) -> (r: (i32, i32))
        requires
            self.wf(),
            forall|i: int|
                0 <= i < self.rooms@.len() ==> {
                    let room = #[trigger] self.rooms@[i];
                    0 <= room.x1 + room.x2 <= i32::MAX && 0 <= room.y1 + room.y2 <= i32::MAX
                },
        ensures
            self.rooms@.len() > 0 ==> (r.0 as int, r.1 as int) == self.rooms@[0].center_spec(),
            self.rooms@.len() == 0 ==> r.0 == self.width as int / 2 && r.1 == self.height as int
                / 2,
    {
        if self.rooms.len() > 0 {
            self.rooms[0].center()
        } else {
            (self.width / 2, self.height / 2)
        }
    }

    /// Row-major index of `(x, y)`, or `None` when out of bounds.
    pub fn get_index(&self, x: i32, y: i32) -> (r: Option<usize>)
        requires
            self.wf(),
        ensures
            match r {
                Some(i) => self.in_bounds(x as int, y as int) && i == self.index_of(
                    x as int,
                    y as int,
                ) && i < self.tiles@.len(),
                None => !self.in_bounds(x as int, y as int),
            },
    {
        if x < 0 || x >= self.width || y < 0 || y >= self.height {
            return None;
        }
        proof {
            self.lemma_index_in_range(x as int, y as int);
        }
        let index = (y as usize * self.width as usize) + x as usize;
        Some(index)
    }

    /// Coordinates of an in-range row-major index.
    pub fn get_coords(&self, index: usize) -> (r: (i32, i32))
        requires
            self.wf(),
            index < self.tiles@.len(),
        ensures
            r.0 == index as int % (self.width as int),
            r.1 == index as int / (self.width as int),
            self.in_bounds(r.0 as int, r.1 as int),
            self.index_of(r.0 as int, r.1 as int) == index,
    {
        proof {
            self.lemma_coords_index_inverse(index as int);
        }
        let x = (index % self.width as usize) as i32;
        let y = (index / self.width as usize) as i32;
        (x, y)
    }

    pub fn get_tile(&self, x: i32, y: i32) -> (r: Option<&TileType>)
        requires
            self.wf(),
        ensures
            match r {
                Some(t) => self.in_bounds(x as int, y as int) && *t == self.tile_at(
                    x as int,
                    y as int,
                ),
                None => !self.in_bounds(x as int, y as int),
            },
    {
        match self.get_index(x, y) {
            Some(index) => Some(&self.tiles[index]),
            None => None,
        }
    }

    /// True iff the cell is in bounds and currently marked visible.
    pub fn is_tile_visible(&self, x: i32, y: i32) -> (r: bool)
        requires
            self.wf(),
        ensures
            r == self.visible_at(x as int, y as int),
    {
        match self.get_index(x, y) {
            Some(index) => self.visible_tiles[index],
            None => false,
        }
    }

    /// True iff the cell is out of bounds or currently marked blocked.
    pub fn is_tile_blocked(&self, x: i32, y: i32) -> (r: bool)
        requires
            self.wf(),
        ensures
            r == self.blocked_at(x as int, y as int),
    {
        match self.get_index(x, y) {
            Some(index) => self.blocked_tiles[index],
            None => true,
        }
    }

    /// Occupants of the cell, empty for out-of-bounds queries.
    pub open spec fn content_at(self, x: int, y: int) -> Seq<EntityId> {
        if self.in_bounds(x, y) {
            self.tile_content@[self.index_of(x, y)]@
        } else {
            Seq::empty()
        }
    }

    /// All fields except `revealed_tiles` agree.
    pub open spec fn same_except_revealed(a: TileMap, b: TileMap) -> bool {
        &&& b.width == a.width
        &&& b.height == a.height
        &&& b.tiles@ == a.tiles@
        &&& b.rooms@ == a.rooms@
        &&& b.visible_tiles@ == a.visible_tiles@
        &&& b.blocked_tiles@ == a.blocked_tiles@
        &&& b.tile_content@ == a.tile_content@
        &&& b.corridors@ == a.corridors@
    }

    /// All fields except `visible_tiles` agree.
    pub open spec fn same_except_visible(a: TileMap, b: TileMap) -> bool {
        &&& b.width == a.width
        &&& b.height == a.height
        &&& b.tiles@ == a.tiles@
        &&& b.rooms@ == a.rooms@
        &&& b.revealed_tiles@ == a.revealed_tiles@
        &&& b.blocked_tiles@ == a.blocked_tiles@
        &&& b.tile_content@ == a.tile_content@
        &&& b.corridors@ == a.corridors@
    }

    /// All fields except `blocked_tiles` agree.
    pub open spec fn same_except_blocked(a: TileMap, b: TileMap) -> bool {
        &&& b.width == a.width
        &&& b.height == a.height
        &&& b.tiles@ == a.tiles@
        &&& b.rooms@ == a.rooms@
        &&& b.revealed_tiles@ == a.revealed_tiles@
        &&& b.visible_tiles@ == a.visible_tiles@
        &&& b.tile_content@ == a.tile_content@
        &&& b.corridors@ == a.corridors@
    }

    /// All fields except `tile_content` agree.
    pub open spec fn same_except_content(a: TileMap, b: TileMap) -> bool {
        &&& b.width == a.width
        &&& b.height == a.height
        &&& b.tiles@ == a.tiles@
        &&& b.rooms@ == a.rooms@
        &&& b.revealed_tiles@ == a.revealed_tiles@
        &&& b.visible_tiles@ == a.visible_tiles@
        &&& b.blocked_tiles@ == a.blocked_tiles@
        &&& b.corridors@ == a.corridors@
    }

    /// All fields except `tiles` agree.
    pub open spec fn same_except_tiles(a: TileMap, b: TileMap) -> bool {
        &&& b.width == a.width
        &&& b.height == a.height
        &&& b.rooms@ == a.rooms@
        &&& b.revealed_tiles@ == a.revealed_tiles@
        &&& b.visible_tiles@ == a.visible_tiles@
        &&& b.blocked_tiles@ == a.blocked_tiles@
        &&& b.tile_content@ == a.tile_content@
        &&& b.corridors@ == a.corridors@
    }

    /// Mark a cell as having been seen by the player; out-of-bounds
    /// coordinates are ignored.
    pub fn set_tile_revealed(&mut self, x: i32, y: i32)
        requires
            old(self).wf(),
        ensures
            final(self).wf(),
            Self::same_except_revealed(*old(self), *final(self)),
            final(self).revealed_tiles@ == if old(self).in_bounds(x as int, y as int) {
                old(self).revealed_tiles@.update(old(self).index_of(x as int, y as int), true)
            } else {
                old(self).revealed_tiles@
            },
    {
        if let Some(index) = self.get_index(x, y) {
            self.revealed_tiles[index] = true;
        }
    }

    /// Mark a cell as currently visible; out-of-bounds coordinates are
    /// ignored.
    pub fn set_tile_visible(&mut self, x: i32, y: i32)
        requires
            old(self).wf(),
        ensures
            final(self).wf(),
            Self::same_except_visible(*old(self), *final(self)),
            final(self).visible_tiles@ == if old(self).in_bounds(x as int, y as int) {
                old(self).visible_tiles@.update(old(self).index_of(x as int, y as int), true)
            } else {
                old(self).visible_tiles@
            },
    {
        if let Some(index) = self.get_index(x, y) {
            self.visible_tiles[index] = true;
        }
    }

    /// Reset the transient visibility flags of every cell.
    pub fn clear_visible_tiles(&mut self)
        requires
            old(self).wf(),
        ensures
            final(self).wf(),
            Self::same_except_visible(*old(self), *final(self)),
            final(self).visible_tiles@.len() == old(self).visible_tiles@.len(),
            forall|i: int|
                0 <= i < final(self).visible_tiles@.len() ==> !final(self).visible_tiles@[i],
    {
        let n = self.visible_tiles.len();
        let mut i: usize = 0;
        while i < n
            invariant
                n == self.visible_tiles@.len(),
                i <= n,
                Self::same_except_visible(*old(self), *self),
                forall|j: int| 0 <= j < i ==> !self.visible_tiles@[j],
            decreases n - i,
        {
            self.visible_tiles[i] = false;
            i = i + 1;
        }
    }

    /// Set or clear the blocked flag of one cell; out-of-bounds
    /// coordinates are ignored.
    pub fn set_tile_blocked(&mut self, x: i32, y: i32, is_blocked: bool)
        requires
            old(self).wf(),
        ensures
            final(self).wf(),
            Self::same_except_blocked(*old(self), *final(self)),
            final(self).blocked_tiles@ == if old(self).in_bounds(x as int, y as int) {
                old(self).blocked_tiles@.update(old(self).index_of(x as int, y as int), is_blocked)
            } else {
                old(self).blocked_tiles@
            },
    {
        if let Some(index) = self.get_index(x, y) {
            self.blocked_tiles[index] = is_blocked;
        }
    }

    /// Reset every cell's blocked flag to mirror the terrain alone:
    /// walls blocked, floors free.
    pub fn reset_blocked_tiles(&mut self)
        requires
            old(self).wf(),
        ensures
            final(self).wf(),
            Self::same_except_blocked(*old(self), *final(self)),
            final(self).blocked_tiles@.len() == old(self).blocked_tiles@.len(),
            forall|i: int|
                0 <= i < final(self).blocked_tiles@.len() ==> final(self).blocked_tiles@[i] == (
                old(self).tiles@[i] == TileType::Wall),
    {
        let n = self.blocked_tiles.len();
        let mut i: usize = 0;
        while i < n
            invariant
                old(self).wf(),
                n == self.blocked_tiles@.len(),
                n == self.tiles@.len(),
                i <= n,
                Self::same_except_blocked(*old(self), *self),
                forall|j: int|
                    0 <= j < i ==> self.blocked_tiles@[j] == (old(self).tiles@[j]
                        == TileType::Wall),
            decreases n - i,
        {
            self.blocked_tiles[i] = match self.tiles[i] {
                TileType::Wall => true,
                TileType::Floor => false,
            };
            i = i + 1;
        }
    }

    /// The entities standing on a cell; empty for out-of-bounds queries.
    pub fn get_entities_on_tile(&self, x: i32, y: i32) -> (r: &[EntityId])
        requires
            self.wf(),
        ensures
            r@ == self.content_at(x as int, y as int),
    {
        match self.get_index(x, y) {
            Some(index) => self.tile_content[index].as_slice(),
            None => &[],
        }
    }

    /// Append an entity to a cell's occupant list; out-of-bounds
    /// coordinates are ignored.
    pub fn add_entity_to_tile_content(&mut self, x: i32, y: i32, entity: EntityId)
        requires
            old(self).wf(),
        ensures
            final(self).wf(),
            Self::same_except_content(*old(self), *final(self)),
            final(self).tile_content@.len() == old(self).tile_content@.len(),
            old(self).in_bounds(x as int, y as int) ==> {
                let idx = old(self).index_of(x as int, y as int);
                &&& final(self).tile_content@[idx]@ == old(self).tile_content@[idx]@.push(entity)
                &&& forall|j: int|
                    0 <= j < old(self).tile_content@.len() && j != idx ==> final(self).tile_content@[j] == old(self).tile_content@[j]
            },
            !old(self).in_bounds(x as int, y as int) ==> final(self).tile_content@ == old(self).tile_content@,
    {
        if let Some(index) = self.get_index(x, y) {
            self.tile_content[index].push(entity);
        }
    }

    /// Empty every cell's occupant list.
    pub fn clear_content_index(&mut self)
        requires
            old(self).wf(),
        ensures
            final(self).wf(),
            Self::same_except_content(*old(self), *final(self)),
            final(self).tile_content@.len() == old(self).tile_content@.len(),
            forall|i: int|
                0 <= i < final(self).tile_content@.len() ==> #[trigger] final(self).tile_content@[i]@ == Seq::<EntityId>::empty(),
    {
        let n = self.tile_content.len();
        let mut i: usize = 0;
        while i < n
            invariant
                n == self.tile_content@.len(),
                i <= n,
                Self::same_except_content(*old(self), *self),
                forall|j: int|
                    0 <= j < i ==> #[trigger] self.tile_content@[j]@ == Seq::<EntityId>::empty(),
            decreases n - i,
        {
            self.tile_content[i].clear();
            i = i + 1;
        }
    }

    /// A room that fits inside the grid with at least one cell of border
    /// on the high sides and a non-empty interior.
    pub open spec fn room_in_bounds(self, r: Rect) -> bool {
        &&& 0 <= r.x1 < r.x2 <= self.width - 2
        &&& 0 <= r.y1 < r.y2 <= self.height - 2
    }

    pub open spec fn rooms_wf(self) -> bool {
        forall|i: int|
            0 <= i < self.rooms@.len() ==> self.room_in_bounds(#[trigger] self.rooms@[i])
    }

    /// Accepted rooms never intersect pairwise, by the inclusive-bound
    /// rectangle test.
    pub open spec fn rooms_disjoint(self) -> bool {
        forall|i: int, j: int|
            0 <= i < j < self.rooms@.len() ==> !#[trigger] self.rooms@[i].overlaps(
                #[trigger] self.rooms@[j],
            )
    }

    /// Each recorded corridor joins the centers of two consecutively
    /// accepted rooms, and there is one corridor for every accepted room
    /// after the first.
    pub open spec fn corridors_connect(self) -> bool {
        &&& self.corridors@.len() == if self.rooms@.len() == 0 {
            0int
        } else {
            self.rooms@.len() - 1
        }
        &&& forall|i: int|
            0 <= i < self.corridors@.len() ==> {
                &&& (#[trigger] self.corridors@[i]).from == self.rooms@[i].center_spec()
                &&& self.corridors@[i].to == self.rooms@[i + 1].center_spec()
            }
    }

    /// A cell was carved by generation: it lies in some accepted room's
    /// interior or on some recorded corridor.
    pub open spec fn carved(self, x: int, y: int) -> bool {
        ||| exists|i: int|
            0 <= i < self.rooms@.len() && (#[trigger] self.rooms@[i]).interior_contains(x, y)
        ||| exists|i: int| 0 <= i < self.corridors@.len() && (#[trigger] self.corridors@[i]).covers(x, y)
    }

    /// Terrain is floor exactly on the carved cells; everything else
    /// remains wall.
    pub open spec fn floor_iff_carved(self) -> bool {
        forall|x: int, y: int|
            self.in_bounds(x, y) ==> ((#[trigger] self.tile_at(x, y)) == TileType::Floor
                <==> self.carved(x, y))
    }

    /// Every cell of a recorded corridor is carved floor: consecutive
    /// room centers really are joined by a walkable L of floor cells.
    pub proof fn lemma_corridor_cells_are_floor(self, i: int, x: int, y: int)
        requires
            self.wf(),
            self.floor_iff_carved(),
            0 <= i < self.corridors@.len(),
            self.corridors@[i].covers(x, y),
            self.in_bounds(x, y),
        ensures
            self.tile_at(x, y) == TileType::Floor,
    {
        assert(self.carved(x, y));
    }

    /// Every cell of an accepted room's interior is carved floor.
    pub proof fn lemma_room_interior_is_floor(self, i: int, x: int, y: int)
        requires
            self.wf(),
            self.floor_iff_carved(),
            0 <= i < self.rooms@.len(),
            self.rooms@[i].interior_contains(x, y),
            self.in_bounds(x, y),
        ensures
            self.tile_at(x, y) == TileType::Floor,
    {
        assert(self.carved(x, y));
    }

    /// An all-`tile_type` map with empty indices and no rooms.
    pub fn blank(width: i32, height: i32, tile_type: TileType) -> (r: TileMap)
        requires
            1 <= width <= Self::dimension_limit(),
            1 <= height <= Self::dimension_limit(),
        ensures
            r.wf(),
            r.width == width,
            r.height == height,
            r.rooms@.len() == 0,
            r.corridors@.len() == 0,
            forall|i: int| 0 <= i < r.tiles@.len() ==> r.tiles@[i] == tile_type,
            forall|i: int| 0 <= i < r.revealed_tiles@.len() ==> !r.revealed_tiles@[i],
            forall|i: int| 0 <= i < r.visible_tiles@.len() ==> !r.visible_tiles@[i],
            forall|i: int| 0 <= i < r.blocked_tiles@.len() ==> !r.blocked_tiles@[i],
            forall|i: int|
                0 <= i < r.tile_content@.len() ==> #[trigger] r.tile_content@[i]@ == Seq::<
                    EntityId,
                >::empty(),
    {
        proof {
            assert(0 < width * height <= 100000000) by (nonlinear_arith)
                requires
                    1 <= width <= 10000,
                    1 <= height <= 10000,
            ;
        }
        let num_tiles: usize = width as usize * height as usize;

        let mut tiles: Vec<TileType> = Vec::new();
        let mut revealed: Vec<bool> = Vec::new();
        let mut visible: Vec<bool> = Vec::new();
        let mut blocked: Vec<bool> = Vec::new();
        let mut content: Vec<Vec<EntityId>> = Vec::new();
        let mut i: usize = 0;
        while i < num_tiles
            invariant
                i <= num_tiles,
                tiles@.len() == i,
                revealed@.len() == i,
                visible@.len() == i,
                blocked@.len() == i,
                content@.len() == i,
                forall|j: int| 0 <= j < i ==> tiles@[j] == tile_type,
                forall|j: int| 0 <= j < i ==> !revealed@[j],
                forall|j: int| 0 <= j < i ==> !visible@[j],
                forall|j: int| 0 <= j < i ==> !blocked@[j],
                forall|j: int| 0 <= j < i ==> #[trigger] content@[j]@ == Seq::<EntityId>::empty(),
            decreases num_tiles - i,
        {
            tiles.push(tile_type);
            revealed.push(false);
            visible.push(false);
            blocked.push(false);
            content.push(Vec::new());
            i = i + 1;
        }

        TileMap {
            tiles,
            rooms: Vec::new(),
            width,
            height,
            revealed_tiles: revealed,
            visible_tiles: visible,
            blocked_tiles: blocked,
            tile_content: content,
            corridors: Ghost(Seq::empty()),
        }
    }

    /// Does a candidate room intersect any already accepted room?
    fn intersects_any(rooms: &Vec<Rect>, candidate: &Rect) -> (r: bool)
        ensures
            r == exists|i: int|
                0 <= i < rooms@.len() && (#[trigger] rooms@[i]).overlaps(*candidate),
    {
        let n = rooms.len();
        let mut i: usize = 0;
        while i < n
            invariant
                i <= n,
                n == rooms@.len(),
                forall|j: int| 0 <= j < i ==> !(#[trigger] rooms@[j]).overlaps(*candidate),
            decreases n - i,
        {
            if candidate.intersect(&rooms[i]) {
                return true;
            }
            i = i + 1;
        }
        false
    }

    /// Generate a dungeon: run a fixed number of room placement attempts
    /// over an all-wall grid; accept each candidate room that intersects
    /// no previously accepted room, carve its interior to floor, and join
    /// it to the previously accepted room with an L-shaped corridor whose
    /// leg order is chosen by a coin flip.
    pub fn rooms_and_cooridors(width: i32, height: i32, rng: &mut Rng) -> (r: TileMap)
        requires
            11 <= width <= Self::dimension_limit(),
            11 <= height <= Self::dimension_limit(),
        ensures
            r.wf(),
            r.width == width,
            r.height == height,
            r.rooms@.len() >= 1,
            r.rooms_wf(),
            r.rooms_disjoint(),
            r.corridors_connect(),
            r.floor_iff_carved(),
            forall|i: int| 0 <= i < r.revealed_tiles@.len() ==> !r.revealed_tiles@[i],
            forall|i: int| 0 <= i < r.visible_tiles@.len() ==> !r.visible_tiles@[i],
            forall|i: int| 0 <= i < r.blocked_tiles@.len() ==> !r.blocked_tiles@[i],
            forall|i: int|
                0 <= i < r.tile_content@.len() ==> #[trigger] r.tile_content@[i]@ == Seq::<
                    EntityId,
                >::empty(),
    {
        let mut map = Self::blank(width, height, TileType::Wall);
        proof {
            assert forall|x: int, y: int| map.in_bounds(x, y) implies #[trigger] map.tile_at(x, y)
                == TileType::Wall by {
                map.lemma_index_in_range(x, y);
            }
        }

        let max_rooms: i32 = 30;
        let min_size: i32 = 6;
        let max_size: i32 = 10;

        let mut attempt: i32 = 0;
        while attempt < max_rooms
            invariant
                map.wf(),
                map.width == width,
                map.height == height,
                11 <= width <= Self::dimension_limit(),
                11 <= height <= Self::dimension_limit(),
                map.rooms_wf(),
                map.rooms_disjoint(),
                map.corridors_connect(),
                map.floor_iff_carved(),
                attempt >= 1 ==> map.rooms@.len() >= 1,
                0 <= attempt <= max_rooms,
                max_rooms == 30,
                min_size == 6,
                max_size == 10,
                forall|i: int| 0 <= i < map.revealed_tiles@.len() ==> !map.revealed_tiles@[i],
                forall|i: int| 0 <= i < map.visible_tiles@.len() ==> !map.visible_tiles@[i],
                forall|i: int| 0 <= i < map.blocked_tiles@.len() ==> !map.blocked_tiles@[i],
                forall|i: int|
                    0 <= i < map.tile_content@.len() ==> #[trigger] map.tile_content@[i]@ == Seq::<
                        EntityId,
                    >::empty(),
            decreases max_rooms - attempt,
        {
            let w = rng.range(min_size, max_size);
            let h = rng.range(min_size, max_size);
            let x = rng.roll_dice(1, width - w - 1) - 1;
            let y = rng.roll_dice(1, height - h - 1) - 1;
            let new_room = Rect::new(x, y, w, h);

            let accepted = !Self::intersects_any(&map.rooms, &new_room);
            let first_room = map.rooms.len() == 0;

            if accepted && !first_room {
                let ghost pre = map;
                let prev_room = map.rooms[map.rooms.len() - 1];
                proof {
                    new_room.lemma_center_in_range();
                    prev_room.lemma_center_in_range();
                }
                map.apply_rect(&new_room, TileType::Floor);
                let ghost m1 = map;
                let (new_x, new_y) = new_room.center();
                let (prev_x, prev_y) = prev_room.center();

                let horizontal_first = rng.range(0, 2) == 1;
                let ghost corridor = Corridor {
                    from: (prev_x as int, prev_y as int),
                    to: (new_x as int, new_y as int),
                    horizontal_first,
                };
                if horizontal_first {
                    map.apply_horizontal_line(prev_x, new_x, prev_y, TileType::Floor);
                    let ghost m2 = map;
                    map.apply_vertical_line(prev_y, new_y, new_x, TileType::Floor);
                    proof {
                        assert forall|x2: int, y2: int| m1.in_bounds(x2, y2) implies ((
                        #[trigger] map.tile_at(x2, y2)) == TileType::Floor <==> (m1.tile_at(x2, y2)
                            == TileType::Floor || corridor.covers(x2, y2))) by {
                            assert(m2.tile_at(x2, y2) == (if y2 == prev_y as int && min_int(
                                prev_x as int,
                                new_x as int,
                            ) <= x2 <= max_int(prev_x as int, new_x as int) {
                                TileType::Floor
                            } else {
                                m1.tile_at(x2, y2)
                            }));
                            assert(map.tile_at(x2, y2) == (if x2 == new_x as int && min_int(
                                prev_y as int,
                                new_y as int,
                            ) <= y2 <= max_int(prev_y as int, new_y as int) {
                                TileType::Floor
                            } else {
                                m2.tile_at(x2, y2)
                            }));
                        }
                    }
                } else {
                    map.apply_vertical_line(prev_y, new_y, prev_x, TileType::Floor);
                    let ghost m2 = map;
                    map.apply_horizontal_line(prev_x, new_x, new_y, TileType::Floor);
                    proof {
                        assert forall|x2: int, y2: int| m1.in_bounds(x2, y2) implies ((
                        #[trigger] map.tile_at(x2, y2)) == TileType::Floor <==> (m1.tile_at(x2, y2)
                            == TileType::Floor || corridor.covers(x2, y2))) by {
                            assert(m2.tile_at(x2, y2) == (if x2 == prev_x as int && min_int(
                                prev_y as int,
                                new_y as int,
                            ) <= y2 <= max_int(prev_y as int, new_y as int) {
                                TileType::Floor
                            } else {
                                m1.tile_at(x2, y2)
                            }));
                            assert(map.tile_at(x2, y2) == (if y2 == new_y as int && min_int(
                                prev_x as int,
                                new_x as int,
                            ) <= x2 <= max_int(prev_x as int, new_x as int) {
                                TileType::Floor
                            } else {
                                m2.tile_at(x2, y2)
                            }));
                        }
                    }
                }
                let ghost m3 = map;
                map.corridors = Ghost(pre.corridors@.push(corridor));
                map.rooms.push(new_room);
                proof {
                    let rlen = map.rooms@.len() as int;
                    let clen = map.corridors@.len() as int;
                    assert(map.rooms@[rlen - 1] == new_room);
                    assert(map.corridors@[clen - 1] == corridor);
                    assert(corridor.from == prev_room.center_spec());
                    assert(corridor.to == new_room.center_spec());
                    assert(map.rooms_wf()) by {
                        assert(forall|i: int|
                            0 <= i < rlen - 1 ==> map.rooms@[i] == pre.rooms@[i]);
                    }
                    assert(map.rooms_disjoint()) by {
                        assert(forall|i: int|
                            0 <= i < rlen - 1 ==> map.rooms@[i] == pre.rooms@[i]);
                    }
                    assert(map.corridors_connect()) by {
                        assert(pre.rooms@[rlen - 2] == prev_room);
                        assert(forall|i: int|
                            0 <= i < rlen - 1 ==> map.rooms@[i] == pre.rooms@[i]);
                        assert(forall|i: int|
                            0 <= i < clen - 1 ==> map.corridors@[i] == pre.corridors@[i]);
                    }
                    assert forall|x2: int, y2: int| map.in_bounds(x2, y2) implies ((
                    #[trigger] map.tile_at(x2, y2)) == TileType::Floor <==> map.carved(
                        x2,
                        y2,
                    )) by {
                        assert(map.tile_at(x2, y2) == m3.tile_at(x2, y2));
                        assert(m3.tile_at(x2, y2) == TileType::Floor <==> (m1.tile_at(x2, y2)
                            == TileType::Floor || corridor.covers(x2, y2)));
                        assert(m1.tile_at(x2, y2) == (if new_room.interior_contains(x2, y2) {
                            TileType::Floor
                        } else {
                            pre.tile_at(x2, y2)
                        }));
                        if map.tile_at(x2, y2) == TileType::Floor {
                            if new_room.interior_contains(x2, y2) {
                                assert(map.rooms@[rlen - 1].interior_contains(x2, y2));
                            } else if corridor.covers(x2, y2) {
                                assert(map.corridors@[clen - 1].covers(x2, y2));
                            } else {
                                assert(pre.carved(x2, y2));
                                if exists|i: int|
                                    0 <= i < pre.rooms@.len() && (
                                    #[trigger] pre.rooms@[i]).interior_contains(x2, y2) {
                                    let i = choose|i: int|
                                        0 <= i < pre.rooms@.len() && (
                                        #[trigger] pre.rooms@[i]).interior_contains(x2, y2);
                                    assert(map.rooms@[i].interior_contains(x2, y2));
                                } else {
                                    let i = choose|i: int|
                                        0 <= i < pre.corridors@.len() && (
                                        #[trigger] pre.corridors@[i]).covers(x2, y2);
                                    assert(map.corridors@[i].covers(x2, y2));
                                }
                            }
                            assert(map.carved(x2, y2));
                        }
                        if map.carved(x2, y2) {
                            if exists|i: int|
                                0 <= i < map.rooms@.len() && (
                                #[trigger] map.rooms@[i]).interior_contains(x2, y2) {
                                let i = choose|i: int|
                                    0 <= i < map.rooms@.len() && (
                                    #[trigger] map.rooms@[i]).interior_contains(x2, y2);
                                if i < rlen - 1 {
                                    assert(pre.rooms@[i].interior_contains(x2, y2));
                                    assert(pre.carved(x2, y2));
                                }
                            } else {
                                let i = choose|i: int|
                                    0 <= i < map.corridors@.len() && (
                                    #[trigger] map.corridors@[i]).covers(x2, y2);
                                if i < clen - 1 {
                                    assert(pre.corridors@[i].covers(x2, y2));
                                    assert(pre.carved(x2, y2));
                                }
                            }
                            assert(map.tile_at(x2, y2) == TileType::Floor);
                        }
                    }
                }
            } else if accepted {
                let ghost pre = map;
                map.apply_rect(&new_room, TileType::Floor);
                let ghost m1 = map;
                map.rooms.push(new_room);
                proof {
                    let rlen = map.rooms@.len() as int;
                    assert(rlen == 1);
                    assert(map.rooms@[0] == new_room);
                    assert(map.corridors@.len() == 0);
                    assert forall|x2: int, y2: int| map.in_bounds(x2, y2) implies ((
                    #[trigger] map.tile_at(x2, y2)) == TileType::Floor <==> map.carved(
                        x2,
                        y2,
                    )) by {
                        assert(map.tile_at(x2, y2) == m1.tile_at(x2, y2));
                        assert(m1.tile_at(x2, y2) == (if new_room.interior_contains(x2, y2) {
                            TileType::Floor
                        } else {
                            pre.tile_at(x2, y2)
                        }));
                        if map.tile_at(x2, y2) == TileType::Floor {
                            assert(new_room.interior_contains(x2, y2)) by {
                                if pre.tile_at(x2, y2) == TileType::Floor {
                                    assert(pre.carved(x2, y2));
                                    assert(false);
                                }
                            }
                            assert(map.rooms@[0].interior_contains(x2, y2));
                        }
                        if map.carved(x2, y2) {
                            assert(exists|i: int|
                                0 <= i < map.rooms@.len() && (
                                #[trigger] map.rooms@[i]).interior_contains(x2, y2));
                            let i = choose|i: int|
                                0 <= i < map.rooms@.len() && (
                                #[trigger] map.rooms@[i]).interior_contains(x2, y2);
                            assert(i == 0);
                            assert(map.tile_at(x2, y2) == TileType::Floor);
                        }
                    }
                }
            }
            attempt = attempt + 1;
        }
        map
    }

    /// Set one cell's terrain; out-of-bounds coordinates are ignored.
    pub fn apply_tile(&mut self, x: i32, y: i32, tile_type: TileType)
        requires
            old(self).wf(),
        ensures
            final(self).wf(),
            Self::same_except_tiles(*old(self), *final(self)),
            final(self).tiles@.len() == old(self).tiles@.len(),
            old(self).in_bounds(x as int, y as int) ==> forall|x2: int, y2: int|
                old(self).in_bounds(x2, y2) ==> #[trigger] final(self).tile_at(x2, y2) == if x2
                    == x as int && y2 == y as int {
                    tile_type
                } else {
                    old(self).tile_at(x2, y2)
                },
            !old(self).in_bounds(x as int, y as int) ==> final(self).tiles@ == old(self).tiles@,
    {
        if let Some(i) = self.get_index(x, y) {
            self.tiles[i] = tile_type;
            proof {
                assert forall|x2: int, y2: int| old(self).in_bounds(x2, y2) implies #[trigger] self
                    .tile_at(x2, y2) == if x2 == x as int && y2 == y as int {
                    tile_type
                } else {
                    old(self).tile_at(x2, y2)
                } by {
                    old(self).lemma_index_in_range(x2, y2);
                    if old(self).index_of(x2, y2) == old(self).index_of(x as int, y as int) {
                        old(self).lemma_index_injective(x2, y2, x as int, y as int);
                    }
                }
            }
        }
    }

    /// Carve the interior of a rectangle (exclusive of its boundary on the
    /// low sides) to the given terrain.
    pub fn apply_rect(&mut self, rect: &Rect, tile_type: TileType)
        requires
            old(self).wf(),
            0 <= rect.x1 <= rect.x2,
            rect.x2 < old(self).width,
            0 <= rect.y1 <= rect.y2,
            rect.y2 < old(self).height,
        ensures
            final(self).wf(),
            Self::same_except_tiles(*old(self), *final(self)),
            final(self).tiles@.len() == old(self).tiles@.len(),
            forall|x: int, y: int|
                old(self).in_bounds(x, y) ==> #[trigger] final(self).tile_at(x, y)
                    == if rect.interior_contains(x, y) {
                    tile_type
                } else {
                    old(self).tile_at(x, y)
                },
    {
        let mut y = rect.y1 + 1;
        while y <= rect.y2
            invariant
                self.wf(),
                old(self).wf(),
                rect.y1 < y,
                y <= rect.y2 + 1 || y == rect.y1 + 1,
                0 <= rect.x1 <= rect.x2,
                rect.x2 < self.width,
                0 <= rect.y1 <= rect.y2,
                rect.y2 < self.height,
                Self::same_except_tiles(*old(self), *self),
                self.tiles@.len() == old(self).tiles@.len(),
                forall|x2: int, y2: int|
                    old(self).in_bounds(x2, y2) ==> #[trigger] self.tile_at(x2, y2)
                        == if rect.interior_contains(x2, y2) && y2 < y {
                        tile_type
                    } else {
                        old(self).tile_at(x2, y2)
                    },
            decreases rect.y2 + 1 - y,
        {
            let mut x = rect.x1 + 1;
            while x <= rect.x2
                invariant
                    self.wf(),
                    old(self).wf(),
                    rect.x1 < x,
                    x <= rect.x2 + 1 || x == rect.x1 + 1,
                    rect.y1 < y <= rect.y2,
                    0 <= rect.x1,
                    rect.x2 < self.width,
                    0 <= rect.y1,
                    rect.y2 < self.height,
                    Self::same_except_tiles(*old(self), *self),
                    self.tiles@.len() == old(self).tiles@.len(),
                    forall|x2: int, y2: int|
                        old(self).in_bounds(x2, y2) ==> #[trigger] self.tile_at(x2, y2)
                            == if rect.interior_contains(x2, y2) && (y2 < y || (y2 == y && x2 < x))
                        {
                            tile_type
                        } else {
                            old(self).tile_at(x2, y2)
                        },
                decreases rect.x2 + 1 - x,
            {
                self.apply_tile(x, y, tile_type);
                x = x + 1;
            }
            y = y + 1;
        }
    }

    /// Carve a horizontal line of terrain between two x coordinates
    /// (inclusive at both ends) at height `y`.
    pub fn apply_horizontal_line(&mut self, x1: i32, x2: i32, y: i32, tile_type: TileType)
        requires
            old(self).wf(),
            0 <= min_int(x1 as int, x2 as int),
            max_int(x1 as int, x2 as int) < old(self).width,
            0 <= y < old(self).height,
        ensures
            final(self).wf(),
            Self::same_except_tiles(*old(self), *final(self)),
            final(self).tiles@.len() == old(self).tiles@.len(),
            forall|x2_: int, y2: int|
                old(self).in_bounds(x2_, y2) ==> #[trigger] final(self).tile_at(x2_, y2) == if y2
                    == y as int && min_int(x1 as int, x2 as int) <= x2_ <= max_int(
                    x1 as int,
                    x2 as int,
                ) {
                    tile_type
                } else {
                    old(self).tile_at(x2_, y2)
                },
    {
        let lo = if x1 < x2 {
            x1
        } else {
            x2
        };
        let hi = if x1 < x2 {
            x2
        } else {
            x1
        };
        let mut x = lo;
        while x <= hi
            invariant
                self.wf(),
                old(self).wf(),
                lo == min_int(x1 as int, x2 as int),
                hi == max_int(x1 as int, x2 as int),
                lo <= x,
                x <= hi + 1,
                0 <= lo,
                hi < self.width,
                0 <= y < self.height,
                Self::same_except_tiles(*old(self), *self),
                self.tiles@.len() == old(self).tiles@.len(),
                forall|x2_: int, y2: int|
                    old(self).in_bounds(x2_, y2) ==> #[trigger] self.tile_at(x2_, y2) == if y2
                        == y as int && lo <= x2_ < x {
                        tile_type
                    } else {
                        old(self).tile_at(x2_, y2)
                    },
            decreases hi + 1 - x,
        {
            self.apply_tile(x, y, tile_type);
            x = x + 1;
        }
    }

    /// Carve a vertical line of terrain between two y coordinates
    /// (inclusive at both ends) at column `x`.
    pub fn apply_vertical_line(&mut self, y1: i32, y2: i32, x: i32, tile_type: TileType)
        requires
            old(self).wf(),
            0 <= min_int(y1 as int, y2 as int),
            max_int(y1 as int, y2 as int) < old(self).height,
            0 <= x < old(self).width,
        ensures
            final(self).wf(),
            Self::same_except_tiles(*old(self), *final(self)),
            final(self).tiles@.len() == old(self).tiles@.len(),
            forall|x2: int, y2_: int|
                old(self).in_bounds(x2, y2_) ==> #[trigger] final(self).tile_at(x2, y2_) == if x2
                    == x as int && min_int(y1 as int, y2 as int) <= y2_ <= max_int(
                    y1 as int,
                    y2 as int,
                ) {
                    tile_type
                } else {
                    old(self).tile_at(x2, y2_)
                },
    {
        let lo = if y1 < y2 {
            y1
        } else {
            y2
        };
        let hi = if y1 < y2 {
            y2
        } else {
            y1
        };
        let mut y = lo;
        while y <= hi
            invariant
                self.wf(),
                old(self).wf(),
                lo == min_int(y1 as int, y2 as int),
                hi == max_int(y1 as int, y2 as int),
                lo <= y,
                y <= hi + 1,
                0 <= lo,
                hi < self.height,
                0 <= x < self.width,
                Self::same_except_tiles(*old(self), *self),
                self.tiles@.len() == old(self).tiles@.len(),
                forall|x2: int, y2_: int|
                    old(self).in_bounds(x2, y2_) ==> #[trigger] self.tile_at(x2, y2_) == if x2
                        == x as int && lo <= y2_ < y {
                        tile_type
                    } else {
                        old(self).tile_at(x2, y2_)
                    },
            decreases hi + 1 - y,
        {
            self.apply_tile(x, y, tile_type);
            y = y + 1;
        }
    }
}

} // verus!
