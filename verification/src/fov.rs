use vstd::math::abs;
use vstd::prelude::*;

use crate::components::Point;
use crate::map::HEIGHT;
use crate::map::TileType;
use crate::map::WIDTH;
use crate::map::idx_of;
use crate::map::xy_idx;

verus! {

/// A wall tile blocks sight; a floor tile does not.
pub open spec fn opaque_at(tiles: Seq<TileType>, x: int, y: int) -> bool {
    tiles[idx_of(x, y)] == TileType::Wall
}

/// Chebyshev distance: how many king moves separate two tiles.
pub open spec fn cheb(ox: int, oy: int, tx: int, ty: int) -> int {
    vstd::math::max(abs(ox - tx) as int, abs(oy - ty) as int)
}

/// Squared Euclidean distance between two tiles.
pub open spec fn dist2(x1: int, y1: int, x2: int, y2: int) -> int {
    (x1 - x2) * (x1 - x2) + (y1 - y2) * (y1 - y2)
}

/// One king move from (tx, ty) toward (ox, oy): along the axis with the
/// larger gap, or diagonally when the gaps are equal.
pub open spec fn step_toward(ox: int, oy: int, tx: int, ty: int) -> (int, int) {
    let dx = ox - tx;
    let dy = oy - ty;
    let sx: int = if dx > 0 {
        1
    } else if dx < 0 {
        -1
    } else {
        0
    };
    let sy: int = if dy > 0 {
        1
    } else if dy < 0 {
        -1
    } else {
        0
    };
    if abs(dx) > abs(dy) {
        (tx + sx, ty)
    } else if abs(dy) > abs(dx) {
        (tx, ty + sy)
    } else {
        (tx + sx, ty + sy)
    }
}

/// Line of sight: every tile strictly between the origin and the target on
/// the stepped line is transparent. The endpoints themselves may be walls; a
/// wall at the edge of sight is still seen.
pub open spec fn los_clear(tiles: Seq<TileType>, ox: int, oy: int, tx: int, ty: int) -> bool
    decreases cheb(ox, oy, tx, ty),
{
    if ox == tx && oy == ty {
        true
    } else {
        let p = step_toward(ox, oy, tx, ty);
        if p.0 == ox && p.1 == oy {
            true
        } else {
            !opaque_at(tiles, p.0, p.1) && los_clear(tiles, ox, oy, p.0, p.1)
        }
    }
}

/// A tile an actor at (ox, oy) with the given sight range can see.
pub open spec fn visible_from(
    tiles: Seq<TileType>,
    ox: int,
    oy: int,
    range: int,
    x: int,
    y: int,
) -> bool {
    &&& 0 <= x < WIDTH
    &&& 0 <= y < HEIGHT
    &&& dist2(ox, oy, x, y) <= range * range
    &&& los_clear(tiles, ox, oy, x, y)
}

/// The Point value for a coordinate pair.
pub open spec fn pt(x: int, y: int) -> Point {
    Point { x: x as i32, y: y as i32 }
}

fn step_toward_exec(ox: i32, oy: i32, tx: i32, ty: i32) -> (p: (i32, i32))
    requires
        0 <= ox < WIDTH,
        0 <= oy < HEIGHT,
        0 <= tx < WIDTH,
        0 <= ty < HEIGHT,
    ensures
        p.0 == step_toward(ox as int, oy as int, tx as int, ty as int).0,
        p.1 == step_toward(ox as int, oy as int, tx as int, ty as int).1,
{
    let dx = ox - tx;
    let dy = oy - ty;
    let sx: i32 = if dx > 0 {
        1
    } else if dx < 0 {
        -1
    } else {
        0
    };
    let sy: i32 = if dy > 0 {
        1
    } else if dy < 0 {
        -1
    } else {
        0
    };
    let adx = if dx >= 0 {
        dx
    } else {
        -dx
    };
    let ady = if dy >= 0 {
        dy
    } else {
        -dy
    };
    if adx > ady {
        (tx + sx, ty)
    } else if ady > adx {
        (tx, ty + sy)
    } else {
        (tx + sx, ty + sy)
    }
}

/// Walk the sight line from the target back to the origin, failing at the
/// first opaque tile strictly between them.
fn line_clear(tiles: &Vec<TileType>, ox: i32, oy: i32, tx: i32, ty: i32) -> (r: bool)
    requires
        tiles@.len() == WIDTH * HEIGHT,
        0 <= ox < WIDTH,
        0 <= oy < HEIGHT,
        0 <= tx < WIDTH,
        0 <= ty < HEIGHT,
    ensures
        r == los_clear(tiles@, ox as int, oy as int, tx as int, ty as int),
{
    let mut cx = tx;
    let mut cy = ty;
    loop
        invariant
            tiles@.len() == WIDTH * HEIGHT,
            0 <= ox < WIDTH,
            0 <= oy < HEIGHT,
            0 <= cx < WIDTH,
            0 <= cy < HEIGHT,
            los_clear(tiles@, ox as int, oy as int, tx as int, ty as int) == los_clear(
                tiles@,
                ox as int,
                oy as int,
                cx as int,
                cy as int,
            ),
        decreases cheb(ox as int, oy as int, cx as int, cy as int),
    {
        if cx == ox && cy == oy {
            return true;
        }
        let p = step_toward_exec(ox, oy, cx, cy);
        if p.0 == ox && p.1 == oy {
            return true;
        }
        let idx = xy_idx(p.0, p.1);
        if tiles[idx] == TileType::Wall {
            return false;
        }
        cx = p.0;
        cy = p.1;
    }
}

/// Compute the set of tiles visible from (ox, oy) within the given range:
/// exactly those in bounds, within Euclidean range, and with a clear sight
/// line.
pub fn field_of_view(tiles: &Vec<TileType>, ox: i32, oy: i32, range: i32) -> (v: Vec<Point>)
    requires
        tiles@.len() == WIDTH * HEIGHT,
        0 <= ox < WIDTH,
        0 <= oy < HEIGHT,
        0 <= range <= 1000,
    ensures
        forall|x: int, y: int|
            0 <= x < WIDTH && 0 <= y < HEIGHT ==> (v@.contains(pt(x, y)) == visible_from(
                tiles@,
                ox as int,
                oy as int,
                range as int,
                x,
                y,
            )),
        forall|k: int|
            0 <= k < v@.len() ==> visible_from(
                tiles@,
                ox as int,
                oy as int,
                range as int,
                (#[trigger] v@[k]).x as int,
                v@[k].y as int,
            ),
{
    let mut v: Vec<Point> = Vec::new();
    let mut y: i32 = 0;
    while y < HEIGHT as i32
        invariant
            tiles@.len() == WIDTH * HEIGHT,
            0 <= ox < WIDTH,
            0 <= oy < HEIGHT,
            0 <= range <= 1000,
            0 <= y <= HEIGHT,
            forall|px: int, py: int|
                0 <= px < WIDTH && 0 <= py < y && visible_from(
                    tiles@,
                    ox as int,
                    oy as int,
                    range as int,
                    px,
                    py,
                ) ==> v@.contains(pt(px, py)),
            forall|k: int|
                0 <= k < v@.len() ==> visible_from(
                    tiles@,
                    ox as int,
                    oy as int,
                    range as int,
                    (#[trigger] v@[k]).x as int,
                    v@[k].y as int,
                ),
        decreases HEIGHT - y,
    {
        let mut x: i32 = 0;
        while x < WIDTH as i32
            invariant
                tiles@.len() == WIDTH * HEIGHT,
                0 <= ox < WIDTH,
                0 <= oy < HEIGHT,
                0 <= range <= 1000,
                0 <= y < HEIGHT,
                0 <= x <= WIDTH,
                forall|px: int, py: int|
                    0 <= px < WIDTH && 0 <= py < y && visible_from(
                        tiles@,
                        ox as int,
                        oy as int,
                        range as int,
                        px,
                        py,
                    ) ==> v@.contains(pt(px, py)),
                forall|px: int|
                    0 <= px < x && visible_from(
                        tiles@,
                        ox as int,
                        oy as int,
                        range as int,
                        px,
                        y as int,
                    ) ==> v@.contains(pt(px, y as int)),
                forall|k: int|
                    0 <= k < v@.len() ==> visible_from(
                        tiles@,
                        ox as int,
                        oy as int,
                        range as int,
                        (#[trigger] v@[k]).x as int,
                        v@[k].y as int,
                    ),
            decreases WIDTH - x,
        {
            let dx = ox - x;
            let dy = oy - y;
            proof {
                assert(0 <= dx * dx <= 10000 && 0 <= dy * dy <= 10000) by (nonlinear_arith)
                    requires
                        -100 <= dx <= 100,
                        -100 <= dy <= 100,
                {
                }
                assert(0 <= range * range <= 1000000) by (nonlinear_arith)
                    requires
                        0 <= range <= 1000,
                {
                }
            }
            let d2 = dx * dx + dy * dy;
            if d2 <= range * range {
                if line_clear(tiles, ox, oy, x, y) {
                    let ghost prev = v@;
                    v.push(Point { x, y });
                    proof {
                        assert(v@ == prev.push(pt(x as int, y as int)));
                        assert(v@[prev.len() as int] == pt(x as int, y as int));
                        assert(v@.contains(pt(x as int, y as int)));
                        assert forall|px: int, py: int|
                            0 <= px < WIDTH && 0 <= py < HEIGHT && prev.contains(
                                pt(px, py),
                            ) implies v@.contains(pt(px, py)) by {
                            let k = choose|k: int|
                                0 <= k < prev.len() && prev[k] == pt(px, py);
                            assert(v@[k] == pt(px, py));
                        }
                    }
                }
            }
            x = x + 1;
        }
        y = y + 1;
    }
    proof {
        assert forall|px: int, py: int| 0 <= px < WIDTH && 0 <= py < HEIGHT implies (v@.contains(
            pt(px, py),
        ) == visible_from(tiles@, ox as int, oy as int, range as int, px, py)) by {
            if v@.contains(pt(px, py)) {
                let k = choose|k: int| 0 <= k < v@.len() && v@[k] == pt(px, py);
                assert(visible_from(
                    tiles@,
                    ox as int,
                    oy as int,
                    range as int,
                    v@[k].x as int,
                    v@[k].y as int,
                ));
                assert(v@[k].x as int == px && v@[k].y as int == py);
            }
        }
    }
    v
}

} // verus!
