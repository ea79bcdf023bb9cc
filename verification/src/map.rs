use vstd::math::max;
use vstd::math::min;
use vstd::prelude::*;

use crate::components::Entity;
use crate::rng::rng_coin;
use crate::rng::rng_range;
use crate::rng::rng_roll_dice;

verus! {

/// Width of the dungeon grid in tiles.
pub const WIDTH: usize = 80;
/// Height of the dungeon grid in tiles.
pub const HEIGHT: usize = 50;
/// How many random room placements the generator attempts.
pub const MAX_ROOMS: usize = 30;
/// Smallest room side the generator samples (exclusive of walls).
pub const MIN_ROOM_SIZE: usize = 6;
/// Largest room side the generator samples, exclusive.
pub const MAX_ROOM_SIZE: usize = 10;

/// The column a flat tile index lies in.
pub open spec fn col(i: int) -> int {
    i % (WIDTH as int)
}

/// The row a flat tile index lies in.
pub open spec fn row(i: int) -> int {
    i / (WIDTH as int)
}

/// The flat tile index of a coordinate pair.
pub open spec fn idx_of(x: int, y: int) -> int {
    y * (WIDTH as int) + x
}

#[derive(PartialEq, Eq, Structural, Clone, Copy, Debug)]
pub enum TileType {
    Wall,
    Floor,
}

/// An axis-aligned rectangle with inclusive bounds on both axes.
#[derive(Clone, Copy, Debug)]
pub struct Rect {
    pub x1: usize,
    pub y1: usize,
    pub x2: usize,
    pub y2: usize,
}

impl Rect {
    /// A room at (x, y) extending w tiles right and h tiles down.
    pub fn new(x: usize, y: usize, h: usize, w: usize) -> (r: Rect)
        requires
            x + w <= usize::MAX,
            y + h <= usize::MAX,
        ensures
            r.x1 == x,
            r.y1 == y,
            r.x2 == x + w,
            r.y2 == y + h,
    {
        Rect { x1: x, y1: y, x2: x + w, y2: y + h }
    }

    pub open spec fn spec_intersects(self, other: Rect) -> bool {
        self.x1 <= other.x2 && other.x1 <= self.x2 && self.y1 <= other.y2 && other.y1 <= self.y2
    }

    /// Inclusive-bounds overlap test on both axes.
    pub fn intersects(&self, other: &Rect) -> (r: bool)
        ensures
            r == self.spec_intersects(*other),
    {
        self.x1 <= other.x2 && other.x1 <= self.x2 && self.y1 <= other.y2 && other.y1 <= self.y2
    }

    pub fn center(&self) -> (c: (usize, usize))
        requires
            self.x1 + self.x2 <= usize::MAX,
            self.y1 + self.y2 <= usize::MAX,
        ensures
            c.0 == (self.x1 + self.x2) / 2,
            c.1 == (self.y1 + self.y2) / 2,
    {
        ((self.x1 + self.x2) / 2, (self.y1 + self.y2) / 2)
    }
}

/// The column of a room's center tile.
pub open spec fn center_x(r: Rect) -> int {
    (r.x1 + r.x2) / 2
}

/// The row of a room's center tile.
pub open spec fn center_y(r: Rect) -> int {
    (r.y1 + r.y2) / 2
}

/// Intersection testing is symmetric: a intersects b iff b intersects a.
pub proof fn lemma_intersects_symmetric(a: Rect, b: Rect)
    ensures
        a.spec_intersects(b) == b.spec_intersects(a),
{
}

/// Two rectangles sharing any point are reported as intersecting.
pub proof fn lemma_shared_point_intersects(a: Rect, b: Rect, px: int, py: int)
    requires
        a.x1 <= px <= a.x2,
        a.y1 <= py <= a.y2,
        b.x1 <= px <= b.x2,
        b.y1 <= py <= b.y2,
    ensures
        a.spec_intersects(b),
{
}

/// Two rectangles separated by at least one empty tile on some axis are not
/// reported as intersecting.
pub proof fn lemma_separated_no_intersect(a: Rect, b: Rect)
    requires
        a.x2 + 1 < b.x1 || b.x2 + 1 < a.x1 || a.y2 + 1 < b.y1 || b.y2 + 1 < a.y1,
    ensures
        !a.spec_intersects(b),
{
}

/// A room that fits on the grid with its one-tile wall border on the left and
/// top edges.
pub open spec fn room_in_bounds(r: Rect) -> bool {
    r.x1 <= r.x2 < WIDTH && r.y1 <= r.y2 < HEIGHT
}

/// The tiles a room occupies: exclusive of its x1/y1 edge, inclusive of
/// x2/y2, as the carving loops walk them.
pub open spec fn in_room_interior(r: Rect, x: int, y: int) -> bool {
    r.x1 < x <= r.x2 && r.y1 < y <= r.y2
}

pub(crate) fn fill<T: Copy>(n: usize, t: T) -> (v: Vec<T>)
    ensures
        v@.len() == n,
        forall|i: int| 0 <= i < n ==> v@[i] == t,
{
    let mut v: Vec<T> = Vec::new();
    let mut k: usize = 0;
    while k < n
        invariant
            k <= n,
            v@.len() == k,
            forall|i: int| 0 <= i < k ==> v@[i] == t,
        decreases n - k,
    {
        v.push(t);
        k = k + 1;
    }
    v
}

pub(crate) fn fill_content(n: usize) -> (v: Vec<Vec<Entity>>)
    ensures
        v@.len() == n,
        forall|i: int| 0 <= i < n ==> v@[i]@.len() == 0,
{
    let mut v: Vec<Vec<Entity>> = Vec::new();
    let mut k: usize = 0;
    while k < n
        invariant
            k <= n,
            v@.len() == k,
            forall|i: int| 0 <= i < k ==> v@[i]@.len() == 0,
        decreases n - k,
    {
        v.push(Vec::new());
        k = k + 1;
    }
    v
}

/// The dungeon map: the tile grid, the generated rooms, and the per-tile
/// caches the systems rebuild or update each turn.
pub struct GameMap {
    pub tiles: Vec<TileType>,
    pub width: usize,
    pub height: usize,
    pub rooms: Vec<Rect>,
    pub revealed_tiles: Vec<bool>,
    pub visible_tiles: Vec<bool>,
    pub blocked: Vec<bool>,
    pub tile_content: Vec<Vec<Entity>>,
}

impl GameMap {
    pub open spec fn wf(self) -> bool {
        &&& self.width == WIDTH
        &&& self.height == HEIGHT
        &&& self.tiles.len() == WIDTH * HEIGHT
        &&& self.revealed_tiles.len() == WIDTH * HEIGHT
        &&& self.visible_tiles.len() == WIDTH * HEIGHT
        &&& self.blocked.len() == WIDTH * HEIGHT
        &&& self.tile_content.len() == WIDTH * HEIGHT
        &&& forall|i: int| 0 <= i < self.rooms.len() ==> room_in_bounds(#[trigger] self.rooms[i])
    }

    /// An all-wall map with no rooms and empty per-tile caches.
    pub fn new(width: usize, height: usize) -> (map: GameMap)
        requires
            width == WIDTH,
            height == HEIGHT,
        ensures
            map.wf(),
            map.rooms@.len() == 0,
            forall|i: int| 0 <= i < WIDTH * HEIGHT ==> map.tiles[i] == TileType::Wall,
            forall|i: int| 0 <= i < WIDTH * HEIGHT ==> !map.revealed_tiles[i],
            forall|i: int| 0 <= i < WIDTH * HEIGHT ==> !map.visible_tiles[i],
            forall|i: int| 0 <= i < WIDTH * HEIGHT ==> !map.blocked[i],
            forall|i: int| 0 <= i < WIDTH * HEIGHT ==> map.tile_content[i]@.len() == 0,
    {
        GameMap {
            width,
            height,
            tiles: fill(width * height, TileType::Wall),
            rooms: Vec::new(),
            revealed_tiles: fill(width * height, false),
            visible_tiles: fill(width * height, false),
            blocked: fill(width * height, false),
            tile_content: fill_content(width * height),
        }
    }

    pub fn xy_idx(&self, x: usize, y: usize) -> (idx: usize)
        requires
            self.wf(),
            x < self.width,
            y < self.height,
        ensures
            idx == idx_of(x as int, y as int),
            idx < WIDTH * HEIGHT,
    {
        (y * self.width) + x
    }

    pub fn idx_xy(&self, idx: usize) -> (xy: (usize, usize))
        requires
            self.wf(),
            idx < WIDTH * HEIGHT,
        ensures
            xy.0 == col(idx as int),
            xy.1 == row(idx as int),
            xy.0 < WIDTH,
            xy.1 < HEIGHT,
            idx_of(xy.0 as int, xy.1 as int) == idx,
    {
        proof {
            lemma_flat_roundtrip(idx as int);
        }
        let y = idx / self.width;
        let x = idx % self.width;
        (x, y)
    }

    /// Carve a room's tiles to floor, leaving the rest of the grid alone.
    pub fn apply_room(&mut self, room: &Rect)
        requires
            old(self).wf(),
            room_in_bounds(*room),
        ensures
            final(self).wf(),
            forall|i: int|
                0 <= i < WIDTH * HEIGHT ==> final(self).tiles[i] == (if in_room_interior(
                    *room,
                    col(i),
                    row(i),
                ) {
                    TileType::Floor
                } else {
                    old(self).tiles[i]
                }),
            final(self).rooms == old(self).rooms,
            final(self).revealed_tiles == old(self).revealed_tiles,
            final(self).visible_tiles == old(self).visible_tiles,
            final(self).blocked == old(self).blocked,
            final(self).tile_content == old(self).tile_content,
            final(self).width == old(self).width,
            final(self).height == old(self).height,
    {
        let ghost orig = self.tiles@;
        let mut x = room.x1 + 1;
        while x <= room.x2
            invariant
                self.wf(),
                room_in_bounds(*room),
                room.x1 < x <= room.x2 + 1,
                forall|i: int|
                    0 <= i < WIDTH * HEIGHT ==> self.tiles[i] == (if room.x1 < col(i) < x
                        && room.y1 < row(i) <= room.y2 {
                        TileType::Floor
                    } else {
                        orig[i]
                    }),
                self.rooms == old(self).rooms,
                self.revealed_tiles == old(self).revealed_tiles,
                self.visible_tiles == old(self).visible_tiles,
                self.blocked == old(self).blocked,
                self.tile_content == old(self).tile_content,
                self.width == old(self).width,
                self.height == old(self).height,
            decreases room.x2 + 1 - x,
        {
            let mut y = room.y1 + 1;
            while y <= room.y2
                invariant
                    self.wf(),
                    room_in_bounds(*room),
                    room.x1 < x <= room.x2,
                    room.y1 < y <= room.y2 + 1,
                    forall|i: int|
                        0 <= i < WIDTH * HEIGHT ==> self.tiles[i] == (if (room.x1 < col(i) < x
                            && room.y1 < row(i) <= room.y2) || (col(i) == x && room.y1 < row(i)
                            < y) {
                            TileType::Floor
                        } else {
                            orig[i]
                        }),
                    self.rooms == old(self).rooms,
                    self.revealed_tiles == old(self).revealed_tiles,
                    self.visible_tiles == old(self).visible_tiles,
                    self.blocked == old(self).blocked,
                    self.tile_content == old(self).tile_content,
                    self.width == old(self).width,
                    self.height == old(self).height,
                decreases room.y2 + 1 - y,
            {
                let idx = self.xy_idx(x, y);
                self.tiles[idx] = TileType::Floor;
                proof {
                    lemma_xy_idx_roundtrip(x as int, y as int);
                    assert forall|i: int| 0 <= i < WIDTH * HEIGHT && i != idx implies col(i) != x
                        || row(i) != y as int by {
                        lemma_flat_roundtrip(i);
                    }
                }
                y = y + 1;
            }
            x = x + 1;
        }
    }

    /// Carve a straight horizontal corridor to floor, endpoints inclusive.
    pub fn apply_horizontal_tunnel(&mut self, x1: usize, x2: usize, y: usize)
        requires
            old(self).wf(),
            x1 < WIDTH,
            x2 < WIDTH,
            y < HEIGHT,
        ensures
            final(self).wf(),
            forall|i: int|
                #![trigger final(self).tiles@[i]]
                0 <= i < WIDTH * HEIGHT ==> final(self).tiles[i] == (if row(i) == y && min(
                    x1 as int,
                    x2 as int,
                ) <= col(i) <= max(x1 as int, x2 as int) {
                    TileType::Floor
                } else {
                    old(self).tiles[i]
                }),
            final(self).rooms == old(self).rooms,
            final(self).revealed_tiles == old(self).revealed_tiles,
            final(self).visible_tiles == old(self).visible_tiles,
            final(self).blocked == old(self).blocked,
            final(self).tile_content == old(self).tile_content,
            final(self).width == old(self).width,
            final(self).height == old(self).height,
    {
        let ghost orig = self.tiles@;
        let lo = if x1 < x2 {
            x1
        } else {
            x2
        };
        let hi = if x1 < x2 {
            x2
        } else {
            x1
        };
        let mut x = lo;
        while x <= hi
            invariant
                self.wf(),
                lo == min(x1 as int, x2 as int),
                hi == max(x1 as int, x2 as int),
                hi < WIDTH,
                y < HEIGHT,
                lo <= x <= hi + 1,
                forall|i: int|
                    #![trigger self.tiles@[i]]
                    0 <= i < WIDTH * HEIGHT ==> self.tiles[i] == (if row(i) == y && lo <= col(i)
                        < x {
                        TileType::Floor
                    } else {
                        orig[i]
                    }),
                self.rooms == old(self).rooms,
                self.revealed_tiles == old(self).revealed_tiles,
                self.visible_tiles == old(self).visible_tiles,
                self.blocked == old(self).blocked,
                self.tile_content == old(self).tile_content,
                self.width == old(self).width,
                self.height == old(self).height,
            decreases hi + 1 - x,
        {
            let idx = self.xy_idx(x, y);
            self.tiles[idx] = TileType::Floor;
            proof {
                lemma_xy_idx_roundtrip(x as int, y as int);
                assert forall|i: int| 0 <= i < WIDTH * HEIGHT && i != idx implies col(i)
                    != x as int || row(i) != y as int by {
                    lemma_flat_roundtrip(i);
                }
            }
            x = x + 1;
        }
    }

    /// Carve a straight vertical corridor to floor, endpoints inclusive.
    pub fn apply_vertical_tunnel(&mut self, y1: usize, y2: usize, x: usize)
        requires
            old(self).wf(),
            y1 < HEIGHT,
            y2 < HEIGHT,
            x < WIDTH,
        ensures
            final(self).wf(),
            forall|i: int|
                #![trigger final(self).tiles@[i]]
                0 <= i < WIDTH * HEIGHT ==> final(self).tiles[i] == (if col(i) == x && min(
                    y1 as int,
                    y2 as int,
                ) <= row(i) <= max(y1 as int, y2 as int) {
                    TileType::Floor
                } else {
                    old(self).tiles[i]
                }),
            final(self).rooms == old(self).rooms,
            final(self).revealed_tiles == old(self).revealed_tiles,
            final(self).visible_tiles == old(self).visible_tiles,
            final(self).blocked == old(self).blocked,
            final(self).tile_content == old(self).tile_content,
            final(self).width == old(self).width,
            final(self).height == old(self).height,
    {
        let ghost orig = self.tiles@;
        let lo = if y1 < y2 {
            y1
        } else {
            y2
        };
        let hi = if y1 < y2 {
            y2
        } else {
            y1
        };
        let mut y = lo;
        while y <= hi
            invariant
                self.wf(),
                lo == min(y1 as int, y2 as int),
                hi == max(y1 as int, y2 as int),
                hi < HEIGHT,
                x < WIDTH,
                lo <= y <= hi + 1,
                forall|i: int|
                    #![trigger self.tiles@[i]]
                    0 <= i < WIDTH * HEIGHT ==> self.tiles[i] == (if col(i) == x && lo <= row(i)
                        < y {
                        TileType::Floor
                    } else {
                        orig[i]
                    }),
                self.rooms == old(self).rooms,
                self.revealed_tiles == old(self).revealed_tiles,
                self.visible_tiles == old(self).visible_tiles,
                self.blocked == old(self).blocked,
                self.tile_content == old(self).tile_content,
                self.width == old(self).width,
                self.height == old(self).height,
            decreases hi + 1 - y,
        {
            let idx = self.xy_idx(x, y);
            self.tiles[idx] = TileType::Floor;
            proof {
                lemma_xy_idx_roundtrip(x as int, y as int);
                assert forall|i: int| 0 <= i < WIDTH * HEIGHT && i != idx implies col(i)
                    != x as int || row(i) != y as int by {
                    lemma_flat_roundtrip(i);
                }
            }
            y = y + 1;
        }
    }

    /// Seed the blocked cache from the walls alone.
    pub fn populate_blocked(&mut self)
        requires
            old(self).wf(),
        ensures
            final(self).wf(),
            forall|i: int|
                0 <= i < WIDTH * HEIGHT ==> final(self).blocked[i] == (old(self).tiles[i]
                    == TileType::Wall),
            final(self).tiles == old(self).tiles,
            final(self).rooms == old(self).rooms,
            final(self).revealed_tiles == old(self).revealed_tiles,
            final(self).visible_tiles == old(self).visible_tiles,
            final(self).tile_content == old(self).tile_content,
            final(self).width == old(self).width,
            final(self).height == old(self).height,
    {
        let mut i: usize = 0;
        let n = self.tiles.len();
        while i < n
            invariant
                self.wf(),
                n == WIDTH * HEIGHT,
                i <= n,
                forall|j: int|
                    0 <= j < i ==> self.blocked[j] == (self.tiles[j] == TileType::Wall),
                self.tiles == old(self).tiles,
                self.rooms == old(self).rooms,
                self.revealed_tiles == old(self).revealed_tiles,
                self.visible_tiles == old(self).visible_tiles,
                self.tile_content == old(self).tile_content,
                self.width == old(self).width,
                self.height == old(self).height,
            decreases n - i,
        {
            let is_wall = self.tiles[i] == TileType::Wall;
            self.blocked[i] = is_wall;
            i = i + 1;
        }
    }

    /// Empty every tile's occupant list.
    pub fn clear_content_index(&mut self)
        requires
            old(self).wf(),
        ensures
            final(self).wf(),
            forall|i: int| 0 <= i < WIDTH * HEIGHT ==> final(self).tile_content[i]@.len() == 0,
            final(self).tiles == old(self).tiles,
            final(self).rooms == old(self).rooms,
            final(self).revealed_tiles == old(self).revealed_tiles,
            final(self).visible_tiles == old(self).visible_tiles,
            final(self).blocked == old(self).blocked,
            final(self).width == old(self).width,
            final(self).height == old(self).height,
    {
        let mut i: usize = 0;
        let n = self.tile_content.len();
        while i < n
            invariant
                self.wf(),
                n == WIDTH * HEIGHT,
                i <= n,
                forall|j: int| 0 <= j < i ==> self.tile_content[j]@.len() == 0,
                self.tiles == old(self).tiles,
                self.rooms == old(self).rooms,
                self.revealed_tiles == old(self).revealed_tiles,
                self.visible_tiles == old(self).visible_tiles,
                self.blocked == old(self).blocked,
                self.width == old(self).width,
                self.height == old(self).height,
            decreases n - i,
        {
            self.tile_content[i] = Vec::new();
            i = i + 1;
        }
    }

    /// A tile a pathfinding step may enter: inside the grid's interior border
    /// and not blocked.
    pub open spec fn spec_exit_valid(self, x: int, y: int) -> bool {
        1 <= x < WIDTH && 1 <= y < HEIGHT && !self.blocked[idx_of(x, y)]
    }

    pub fn is_exit_valid(&self, x: i32, y: i32) -> (r: bool)
        requires
            self.wf(),
        ensures
            r == self.spec_exit_valid(x as int, y as int),
    {
        if x < 1 || x >= self.width as i32 || y < 1 || y >= self.height as i32 {
            return false;
        }
        let idx = self.xy_idx(x as usize, y as usize);
        !self.blocked[idx]
    }
}

/// No two generated rooms overlap, with inclusive-bounds intersection.
pub open spec fn rooms_disjoint(rooms: Seq<Rect>) -> bool {
    forall|i: int, j: int|
        0 <= i < j < rooms.len() ==> !(#[trigger] rooms[i].spec_intersects(rooms[j]))
}

/// Every accepted room's tiles are carved to floor.
pub open spec fn rooms_carved(map: GameMap) -> bool {
    forall|k: int, i: int|
        #![trigger map.rooms@[k], map.tiles@[i]]
        0 <= k < map.rooms.len() && 0 <= i < WIDTH * HEIGHT && in_room_interior(
            map.rooms[k],
            col(i),
            row(i),
        ) ==> map.tiles[i] == TileType::Floor
}

/// Every tile of the horizontal run at row `y` between columns `x1` and `x2`
/// (endpoints inclusive, in either order) is floor.
pub open spec fn htunnel_floor(tiles: Seq<TileType>, x1: int, x2: int, y: int) -> bool {
    forall|x: int|
        min(x1, x2) <= x <= max(x1, x2) ==> tiles[#[trigger] idx_of(x, y)] == TileType::Floor
}

/// Every tile of the vertical run at column `x` between rows `y1` and `y2`
/// (endpoints inclusive, in either order) is floor.
pub open spec fn vtunnel_floor(tiles: Seq<TileType>, y1: int, y2: int, x: int) -> bool {
    forall|y: int|
        min(y1, y2) <= y <= max(y1, y2) ==> tiles[#[trigger] idx_of(x, y)] == TileType::Floor
}

/// An L-shaped corridor of floor joins the centers of rooms `a` and `b`: one
/// of the two elbows (horizontal then vertical, or vertical then horizontal)
/// is fully carved.
pub open spec fn elbow_carved(tiles: Seq<TileType>, a: Rect, b: Rect) -> bool {
    let ax = center_x(a);
    let ay = center_y(a);
    let bx = center_x(b);
    let by = center_y(b);
    ||| (htunnel_floor(tiles, ax, bx, ay) && vtunnel_floor(tiles, ay, by, bx))
    ||| (htunnel_floor(tiles, ax, bx, by) && vtunnel_floor(tiles, ay, by, ax))
}

/// Each generated room is joined to the previous one by a carved corridor,
/// so consecutive room centers are connected through floor tiles.
pub open spec fn rooms_connected(map: GameMap) -> bool {
    forall|k: int|
        1 <= k < map.rooms@.len() ==> elbow_carved(
            map.tiles@,
            map.rooms@[k - 1],
            #[trigger] map.rooms@[k],
        )
}

/// Everything the dungeon generator guarantees of the map it hands back: the
/// fixed shape, at least one and at most MAX_ROOMS pairwise disjoint rooms of
/// the sampled size range, each carved to floor and joined to its predecessor
/// by an L-shaped corridor, and all per-tile caches in their initial state.
pub open spec fn generated(map: GameMap) -> bool {
    &&& map.wf()
    &&& 1 <= map.rooms@.len() <= MAX_ROOMS
    &&& rooms_disjoint(map.rooms@)
    &&& rooms_carved(map)
    &&& rooms_connected(map)
    &&& forall|i: int|
        0 <= i < map.rooms@.len() ==> ((#[trigger] map.rooms@[i]).x1 + MIN_ROOM_SIZE
            <= map.rooms@[i].x2 && map.rooms@[i].y1 + MIN_ROOM_SIZE <= map.rooms@[i].y2)
    &&& forall|i: int| 0 <= i < WIDTH * HEIGHT ==> !(#[trigger] map.revealed_tiles[i])
    &&& forall|i: int| 0 <= i < WIDTH * HEIGHT ==> !(#[trigger] map.visible_tiles[i])
    &&& forall|i: int| 0 <= i < WIDTH * HEIGHT ==> !(#[trigger] map.blocked[i])
    &&& forall|i: int| 0 <= i < WIDTH * HEIGHT ==> (#[trigger] map.tile_content[i])@.len() == 0
}

fn intersects_any(rooms: &Vec<Rect>, room: &Rect) -> (r: bool)
    ensures
        r == exists|k: int| 0 <= k < rooms.len() && (#[trigger] rooms[k]).spec_intersects(*room),
{
    let mut k: usize = 0;
    while k < rooms.len()
        invariant
            k <= rooms.len(),
            forall|j: int| 0 <= j < k ==> !(#[trigger] rooms[j]).spec_intersects(*room),
        decreases rooms.len() - k,
    {
        if rooms[k].intersects(room) {
            return true;
        }
        k = k + 1;
    }
    false
}

/// A floor tile stays floor under any of the carving operations, so a
/// horizontal corridor run survives later carving.
proof fn lemma_htunnel_persists(t0: Seq<TileType>, t1: Seq<TileType>, x1: int, x2: int, y: int)
    requires
        0 <= x1 < WIDTH,
        0 <= x2 < WIDTH,
        0 <= y < HEIGHT,
        forall|i: int|
            0 <= i < WIDTH * HEIGHT && t0[i] == TileType::Floor ==> t1[i] == TileType::Floor,
        htunnel_floor(t0, x1, x2, y),
    ensures
        htunnel_floor(t1, x1, x2, y),
{
    assert forall|x: int| min(x1, x2) <= x <= max(x1, x2) implies t1[#[trigger] idx_of(x, y)]
        == TileType::Floor by {
        assert(t0[idx_of(x, y)] == TileType::Floor);
        assert(0 <= idx_of(x, y) < WIDTH * HEIGHT);
    }
}

/// A vertical corridor run survives later carving.
proof fn lemma_vtunnel_persists(t0: Seq<TileType>, t1: Seq<TileType>, y1: int, y2: int, x: int)
    requires
        0 <= y1 < HEIGHT,
        0 <= y2 < HEIGHT,
        0 <= x < WIDTH,
        forall|i: int|
            0 <= i < WIDTH * HEIGHT && t0[i] == TileType::Floor ==> t1[i] == TileType::Floor,
        vtunnel_floor(t0, y1, y2, x),
    ensures
        vtunnel_floor(t1, y1, y2, x),
{
    assert forall|y: int| min(y1, y2) <= y <= max(y1, y2) implies t1[#[trigger] idx_of(x, y)]
        == TileType::Floor by {
        assert(t0[idx_of(x, y)] == TileType::Floor);
        assert(0 <= idx_of(x, y) < WIDTH * HEIGHT);
    }
}

/// Carving only ever turns wall into floor, so every corridor that already
/// joins consecutive rooms keeps joining them.
proof fn lemma_connected_persists(rooms: Seq<Rect>, t0: Seq<TileType>, t1: Seq<TileType>)
    requires
        forall|i: int| 0 <= i < rooms.len() ==> room_in_bounds(#[trigger] rooms[i]),
        forall|i: int|
            0 <= i < WIDTH * HEIGHT && t0[i] == TileType::Floor ==> t1[i] == TileType::Floor,
        forall|k: int| 1 <= k < rooms.len() ==> elbow_carved(t0, rooms[k - 1], #[trigger] rooms[k]),
    ensures
        forall|k: int| 1 <= k < rooms.len() ==> elbow_carved(t1, rooms[k - 1], #[trigger] rooms[k]),
{
    assert forall|k: int| 1 <= k < rooms.len() implies elbow_carved(
        t1,
        rooms[k - 1],
        #[trigger] rooms[k],
    ) by {
        let a = rooms[k - 1];
        let b = rooms[k];
        assert(room_in_bounds(a) && room_in_bounds(b));
        assert(elbow_carved(t0, a, b));
        if htunnel_floor(t0, center_x(a), center_x(b), center_y(a)) && vtunnel_floor(
            t0,
            center_y(a),
            center_y(b),
            center_x(b),
        ) {
            lemma_htunnel_persists(t0, t1, center_x(a), center_x(b), center_y(a));
            lemma_vtunnel_persists(t0, t1, center_y(a), center_y(b), center_x(b));
        } else {
            lemma_htunnel_persists(t0, t1, center_x(a), center_x(b), center_y(b));
            lemma_vtunnel_persists(t0, t1, center_y(a), center_y(b), center_x(a));
        }
    }
}

/// Generate a dungeon: up to MAX_ROOMS random rectangles, each kept only if
/// it overlaps no earlier room, carved to floor and joined to the previous
/// room's center by an L-shaped corridor. The first sample never collides,
/// so at least one room always exists.
pub fn new_map(rng: &mut rltk::RandomNumberGenerator) -> (map: GameMap)
    ensures
        generated(map),
{
    let mut map = GameMap::new(WIDTH, HEIGHT);

    let mut attempt: usize = 0;
    while attempt < MAX_ROOMS
        invariant
            map.wf(),
            attempt <= MAX_ROOMS,
            map.rooms@.len() <= attempt,
            attempt > 0 ==> map.rooms@.len() >= 1,
            rooms_disjoint(map.rooms@),
            rooms_carved(map),
            rooms_connected(map),
            forall|i: int|
                0 <= i < map.rooms@.len() ==> ((#[trigger] map.rooms@[i]).x1 + MIN_ROOM_SIZE
                    <= map.rooms@[i].x2 && map.rooms@[i].y1 + MIN_ROOM_SIZE <= map.rooms@[i].y2),
            forall|i: int| 0 <= i < WIDTH * HEIGHT ==> !map.revealed_tiles[i],
            forall|i: int| 0 <= i < WIDTH * HEIGHT ==> !map.visible_tiles[i],
            forall|i: int| 0 <= i < WIDTH * HEIGHT ==> !map.blocked[i],
            forall|i: int| 0 <= i < WIDTH * HEIGHT ==> map.tile_content[i]@.len() == 0,
        decreases MAX_ROOMS - attempt,
    {
        let w = rng_range(rng, MIN_ROOM_SIZE as i32, MAX_ROOM_SIZE as i32);
        let h = rng_range(rng, MIN_ROOM_SIZE as i32, MAX_ROOM_SIZE as i32);
        let x = rng_roll_dice(rng, 1, WIDTH as i32 - w - 1) - 1;
        let y = rng_roll_dice(rng, 1, HEIGHT as i32 - h - 1) - 1;

        let room = Rect::new(x as usize, y as usize, h as usize, w as usize);

        if !intersects_any(&map.rooms, &room) {
            let ghost t0 = map.tiles@;
            map.apply_room(&room);
            proof {
                assert forall|k: int, i: int|
                    #![trigger map.rooms@[k], map.tiles@[i]]
                    0 <= k < map.rooms.len() && 0 <= i < WIDTH * HEIGHT && in_room_interior(
                        map.rooms[k],
                        col(i),
                        row(i),
                    ) implies map.tiles[i] == TileType::Floor by {}
            }
            if map.rooms.len() != 0 {
                let prev = map.rooms[map.rooms.len() - 1];
                let (last_x, last_y) = prev.center();
                let (new_x, new_y) = room.center();

                if rng_coin(rng) {
                    map.apply_horizontal_tunnel(last_x, new_x, last_y);
                    let ghost th = map.tiles@;
                    map.apply_vertical_tunnel(last_y, new_y, new_x);
                    proof {
                        assert forall|x: int|
                            min(last_x as int, new_x as int) <= x <= max(
                                last_x as int,
                                new_x as int,
                            ) implies th[#[trigger] idx_of(x, last_y as int)]
                            == TileType::Floor by {
                            lemma_xy_idx_roundtrip(x, last_y as int);
                        }
                        lemma_htunnel_persists(
                            th,
                            map.tiles@,
                            last_x as int,
                            new_x as int,
                            last_y as int,
                        );
                        assert forall|y: int|
                            min(last_y as int, new_y as int) <= y <= max(
                                last_y as int,
                                new_y as int,
                            ) implies map.tiles@[#[trigger] idx_of(new_x as int, y)]
                            == TileType::Floor by {
                            lemma_xy_idx_roundtrip(new_x as int, y);
                        }
                        assert(elbow_carved(map.tiles@, prev, room));
                    }
                } else {
                    map.apply_horizontal_tunnel(last_x, new_x, new_y);
                    let ghost th = map.tiles@;
                    map.apply_vertical_tunnel(last_y, new_y, last_x);
                    proof {
                        assert forall|x: int|
                            min(last_x as int, new_x as int) <= x <= max(
                                last_x as int,
                                new_x as int,
                            ) implies th[#[trigger] idx_of(x, new_y as int)]
                            == TileType::Floor by {
                            lemma_xy_idx_roundtrip(x, new_y as int);
                        }
                        lemma_htunnel_persists(
                            th,
                            map.tiles@,
                            last_x as int,
                            new_x as int,
                            new_y as int,
                        );
                        assert forall|y: int|
                            min(last_y as int, new_y as int) <= y <= max(
                                last_y as int,
                                new_y as int,
                            ) implies map.tiles@[#[trigger] idx_of(last_x as int, y)]
                            == TileType::Floor by {
                            lemma_xy_idx_roundtrip(last_x as int, y);
                        }
                        assert(elbow_carved(map.tiles@, prev, room));
                    }
                }
                proof {
                    assert forall|k: int, i: int|
                        0 <= k < map.rooms.len() && 0 <= i < WIDTH * HEIGHT && #[trigger]
                    in_room_interior(map.rooms[k], col(i), row(i)) implies map.tiles[i]
                        == TileType::Floor by {}
                }
            }
            proof {
                assert forall|i: int|
                    0 <= i < WIDTH * HEIGHT && t0[i] == TileType::Floor implies map.tiles@[i]
                    == TileType::Floor by {}
                lemma_connected_persists(map.rooms@, t0, map.tiles@);
            }
            let ghost rooms0 = map.rooms@;
            map.rooms.push(room);
            proof {
                assert forall|k: int| 1 <= k < map.rooms@.len() implies elbow_carved(
                    map.tiles@,
                    map.rooms@[k - 1],
                    #[trigger] map.rooms@[k],
                ) by {
                    if k < map.rooms@.len() - 1 {
                        assert(map.rooms@[k] == rooms0[k] && map.rooms@[k - 1] == rooms0[k - 1]);
                        assert(elbow_carved(map.tiles@, rooms0[k - 1], rooms0[k]));
                    } else {
                        assert(map.rooms@[k] == room);
                        assert(map.rooms@[k - 1] == rooms0[rooms0.len() - 1]);
                    }
                }
            }
        }
        attempt = attempt + 1;
    }

    map
}

/// A test arena: an all-floor grid with walled borders and 400 random wall
/// tiles, the grid's midpoint at (40, 25) left open.
pub fn new_map_test(rng: &mut rltk::RandomNumberGenerator) -> (tiles: Vec<TileType>)
    ensures
        tiles@.len() == WIDTH * HEIGHT,
        forall|i: int|
            #![trigger tiles@[i]]
            0 <= i < WIDTH * HEIGHT && (col(i) == 0 || col(i) == WIDTH - 1 || row(i) == 0 || row(i)
                == HEIGHT - 1) ==> tiles[i] == TileType::Wall,
        tiles[idx_of(40, 25)] == TileType::Floor,
{
    let mut tiles = fill(WIDTH * HEIGHT, TileType::Floor);

    let mut x: i32 = 0;
    while x < WIDTH as i32
        invariant
            0 <= x <= WIDTH,
            tiles@.len() == WIDTH * HEIGHT,
            forall|i: int|
                #![trigger tiles@[i]]
                0 <= i < WIDTH * HEIGHT ==> tiles[i] == (if (row(i) == 0 || row(i) == HEIGHT - 1)
                    && col(i) < x {
                    TileType::Wall
                } else {
                    TileType::Floor
                }),
        decreases WIDTH - x,
    {
        let top = xy_idx(x, 0);
        tiles[top] = TileType::Wall;
        let bottom = xy_idx(x, HEIGHT as i32 - 1);
        tiles[bottom] = TileType::Wall;
        proof {
            lemma_xy_idx_roundtrip(x as int, 0);
            lemma_xy_idx_roundtrip(x as int, (HEIGHT - 1) as int);
            assert forall|i: int|
                0 <= i < WIDTH * HEIGHT && i != top && i != bottom implies col(i) != x as int
                || (row(i) != 0 && row(i) != HEIGHT - 1) by {
                lemma_flat_roundtrip(i);
            }
        }
        x = x + 1;
    }

    let mut y: i32 = 0;
    while y < HEIGHT as i32
        invariant
            0 <= y <= HEIGHT,
            tiles@.len() == WIDTH * HEIGHT,
            forall|i: int|
                #![trigger tiles@[i]]
                0 <= i < WIDTH * HEIGHT ==> tiles[i] == (if (row(i) == 0 || row(i) == HEIGHT - 1)
                    || ((col(i) == 0 || col(i) == WIDTH - 1) && row(i) < y) {
                    TileType::Wall
                } else {
                    TileType::Floor
                }),
        decreases HEIGHT - y,
    {
        let left = xy_idx(0, y);
        tiles[left] = TileType::Wall;
        let right = xy_idx(WIDTH as i32 - 1, y);
        tiles[right] = TileType::Wall;
        proof {
            lemma_xy_idx_roundtrip(0, y as int);
            lemma_xy_idx_roundtrip((WIDTH - 1) as int, y as int);
            assert forall|i: int|
                0 <= i < WIDTH * HEIGHT && i != left && i != right implies row(i) != y as int
                || (col(i) != 0 && col(i) != WIDTH - 1) by {
                lemma_flat_roundtrip(i);
            }
        }
        y = y + 1;
    }

    let center_idx = xy_idx(40, 25);
    let mut draw: usize = 0;
    while draw < 400
        invariant
            tiles@.len() == WIDTH * HEIGHT,
            center_idx == idx_of(40, 25),
            forall|i: int|
                #![trigger tiles@[i]]
                0 <= i < WIDTH * HEIGHT && (col(i) == 0 || col(i) == WIDTH - 1 || row(i) == 0 || row(
                    i,
                ) == HEIGHT - 1) ==> tiles[i] == TileType::Wall,
            tiles[idx_of(40, 25)] == TileType::Floor,
        decreases 400 - draw,
    {
        let rx = rng_roll_dice(rng, 1, WIDTH as i32 - 1);
        let ry = rng_roll_dice(rng, 1, HEIGHT as i32 - 1);
        let idx = xy_idx(rx, ry);
        if idx != center_idx {
            tiles[idx] = TileType::Wall;
        }
        draw = draw + 1;
    }

    tiles
}

pub fn xy_idx(x: i32, y: i32) -> (idx: usize)
    requires
        0 <= x < WIDTH,
        0 <= y < HEIGHT,
    ensures
        idx == y * WIDTH + x,
        idx < WIDTH * HEIGHT,
{
    (y as usize * WIDTH) + x as usize
}

pub fn idx_xy(idx: usize) -> (xy: (i32, i32))
    requires
        idx < WIDTH * HEIGHT,
    ensures
        xy.0 == (idx as int) % (WIDTH as int),
        xy.1 == (idx as int) / (WIDTH as int),
        0 <= xy.0 < WIDTH,
        0 <= xy.1 < HEIGHT,
{
    let y = idx / WIDTH;
    let x = idx % WIDTH;
    (x as i32, y as i32)
}

/// A flat index in range decomposes into its row and column.
pub proof fn lemma_flat_roundtrip(i: int)
    requires
        0 <= i < WIDTH * HEIGHT,
    ensures
        idx_of(col(i), row(i)) == i,
        0 <= col(i) < WIDTH,
        0 <= row(i) < HEIGHT,
{
    let w = WIDTH as int;
    assert(w * (i / w) + i % w == i && 0 <= i % w < w && 0 <= i / w < HEIGHT) by (nonlinear_arith)
        requires
            0 <= i < WIDTH * HEIGHT,
            w == WIDTH as int,
    {
    }
}

/// Converting in-bounds coordinates to a tile index and back yields them again.
pub proof fn lemma_xy_idx_roundtrip(x: int, y: int)
    requires
        0 <= x < WIDTH,
        0 <= y < HEIGHT,
    ensures
        (y * WIDTH + x) % (WIDTH as int) == x,
        (y * WIDTH + x) / (WIDTH as int) == y,
{
    let w = WIDTH as int;
    assert((y * w + x) % w == x && (y * w + x) / w == y) by (nonlinear_arith)
        requires
            0 <= x < w,
            0 <= y,
            w > 0,
    {
    }
}

} // verus!
