use vstd::prelude::*;

use crate::map::GameMap;
use crate::map::HEIGHT;
use crate::map::MIN_ROOM_SIZE;
use crate::map::Rect;
use crate::map::TileType;
use crate::map::WIDTH;
use crate::map::center_x;
use crate::map::center_y;
use crate::map::elbow_carved;
use crate::map::htunnel_floor;
use crate::map::idx_of;
use crate::map::lemma_xy_idx_roundtrip;
use crate::map::room_in_bounds;
use crate::map::vtunnel_floor;
use crate::pathfind::step_ok;
use crate::pathfind::valid_path;

verus! {

/// The blocked cache holds exactly the walls, as `populate_blocked` leaves it.
pub open spec fn blocked_is_walls(map: GameMap) -> bool {
    forall|i: int|
        0 <= i < WIDTH * HEIGHT ==> (#[trigger] map.blocked[i]) == (map.tiles[i] == TileType::Wall)
}

/// A horizontal run of floor tiles inside the grid's interior carries a walk
/// between its endpoints.
proof fn lemma_run_path_h(map: GameMap, x1: int, x2: int, y: int)
    requires
        map.wf(),
        1 <= x1 < WIDTH,
        1 <= x2 < WIDTH,
        1 <= y < HEIGHT,
        htunnel_floor(map.tiles@, x1, x2, y),
        blocked_is_walls(map),
    ensures
        exists|p: Seq<usize>| valid_path(map, p, idx_of(x1, y), idx_of(x2, y)),
    decreases (if x1 <= x2 {
        x2 - x1
    } else {
        x1 - x2
    }),
{
    if x1 == x2 {
        let p = seq![idx_of(x1, y) as usize];
        assert(0 <= idx_of(x1, y) < WIDTH * HEIGHT);
        assert(valid_path(map, p, idx_of(x1, y), idx_of(x2, y)));
    } else {
        let prev = if x1 < x2 {
            x2 - 1
        } else {
            x2 + 1
        };
        lemma_run_path_h(map, x1, prev, y);
        let p0 = choose|p: Seq<usize>| valid_path(map, p, idx_of(x1, y), idx_of(prev, y));
        let p = p0.push(idx_of(x2, y) as usize);
        assert(step_ok(map, idx_of(prev, y), idx_of(x2, y))) by {
            lemma_xy_idx_roundtrip(prev, y);
            lemma_xy_idx_roundtrip(x2, y);
            assert(map.tiles[idx_of(x2, y)] == TileType::Floor);
        }
        assert forall|i: int| 0 < i < p.len() implies step_ok(
            map,
            p[i - 1] as int,
            #[trigger] p[i] as int,
        ) by {
            if i < p.len() - 1 {
                assert(p[i] == p0[i] && p[i - 1] == p0[i - 1]);
            } else {
                assert(p[i - 1] == p0[p0.len() - 1]);
            }
        }
        assert(valid_path(map, p, idx_of(x1, y), idx_of(x2, y)));
    }
}

/// A vertical run of floor tiles inside the grid's interior carries a walk
/// between its endpoints.
proof fn lemma_run_path_v(map: GameMap, y1: int, y2: int, x: int)
    requires
        map.wf(),
        1 <= y1 < HEIGHT,
        1 <= y2 < HEIGHT,
        1 <= x < WIDTH,
        vtunnel_floor(map.tiles@, y1, y2, x),
        blocked_is_walls(map),
    ensures
        exists|p: Seq<usize>| valid_path(map, p, idx_of(x, y1), idx_of(x, y2)),
    decreases (if y1 <= y2 {
        y2 - y1
    } else {
        y1 - y2
    }),
{
    if y1 == y2 {
        let p = seq![idx_of(x, y1) as usize];
        assert(0 <= idx_of(x, y1) < WIDTH * HEIGHT);
        assert(valid_path(map, p, idx_of(x, y1), idx_of(x, y2)));
    } else {
        let prev = if y1 < y2 {
            y2 - 1
        } else {
            y2 + 1
        };
        lemma_run_path_v(map, y1, prev, x);
        let p0 = choose|p: Seq<usize>| valid_path(map, p, idx_of(x, y1), idx_of(x, prev));
        let p = p0.push(idx_of(x, y2) as usize);
        assert(step_ok(map, idx_of(x, prev), idx_of(x, y2))) by {
            lemma_xy_idx_roundtrip(x, prev);
            lemma_xy_idx_roundtrip(x, y2);
            assert(map.tiles[idx_of(x, y2)] == TileType::Floor);
        }
        assert forall|i: int| 0 < i < p.len() implies step_ok(
            map,
            p[i - 1] as int,
            #[trigger] p[i] as int,
        ) by {
            if i < p.len() - 1 {
                assert(p[i] == p0[i] && p[i - 1] == p0[i - 1]);
            } else {
                assert(p[i - 1] == p0[p0.len() - 1]);
            }
        }
        assert(valid_path(map, p, idx_of(x, y1), idx_of(x, y2)));
    }
}

/// Two walks that meet end to start join into one.
proof fn lemma_path_concat(map: GameMap, p: Seq<usize>, q: Seq<usize>, a: int, b: int, c: int)
    requires
        valid_path(map, p, a, b),
        valid_path(map, q, b, c),
    ensures
        valid_path(map, p + q.subrange(1, q.len() as int), a, c),
{
    let r = p + q.subrange(1, q.len() as int);
    assert(r.len() == p.len() + q.len() - 1);
    assert(r[0] == p[0]);
    assert(r[r.len() - 1] == (if q.len() == 1 {
        p[p.len() - 1]
    } else {
        q[q.len() - 1]
    }));
    assert forall|i: int| 0 < i < r.len() implies step_ok(
        map,
        r[i - 1] as int,
        #[trigger] r[i] as int,
    ) by {
        if i < p.len() {
            assert(r[i] == p[i] && r[i - 1] == p[i - 1]);
        } else if i == p.len() {
            assert(r[i - 1] == p[p.len() - 1] && p[p.len() - 1] == q[0]);
            assert(r[i] == q[1]);
        } else {
            assert(r[i] == q[i - p.len() + 1] && r[i - 1] == q[i - p.len()]);
        }
    }
}

/// Two rooms of the generator's size range joined by a carved elbow are
/// mutually reachable: once the blocked cache holds the walls alone, a walk
/// joins their centers in either direction. With a fresh two-room dungeon
/// this makes both room centers reachable from one another.
pub proof fn lemma_elbow_reachable(map: GameMap, a: Rect, b: Rect)
    requires
        map.wf(),
        room_in_bounds(a),
        room_in_bounds(b),
        a.x1 + MIN_ROOM_SIZE <= a.x2,
        a.y1 + MIN_ROOM_SIZE <= a.y2,
        b.x1 + MIN_ROOM_SIZE <= b.x2,
        b.y1 + MIN_ROOM_SIZE <= b.y2,
        elbow_carved(map.tiles@, a, b),
        blocked_is_walls(map),
    ensures
        exists|p: Seq<usize>|
            valid_path(
                map,
                p,
                idx_of(center_x(a), center_y(a)),
                idx_of(center_x(b), center_y(b)),
            ),
        exists|p: Seq<usize>|
            valid_path(
                map,
                p,
                idx_of(center_x(b), center_y(b)),
                idx_of(center_x(a), center_y(a)),
            ),
{
    let ax = center_x(a);
    let ay = center_y(a);
    let bx = center_x(b);
    let by = center_y(b);
    assert(1 <= ax < WIDTH && 1 <= bx < WIDTH && 1 <= ay < HEIGHT && 1 <= by < HEIGHT);
    if htunnel_floor(map.tiles@, ax, bx, ay) && vtunnel_floor(map.tiles@, ay, by, bx) {
        lemma_run_path_h(map, ax, bx, ay);
        lemma_run_path_v(map, ay, by, bx);
        let p = choose|p: Seq<usize>| valid_path(map, p, idx_of(ax, ay), idx_of(bx, ay));
        let q = choose|q: Seq<usize>| valid_path(map, q, idx_of(bx, ay), idx_of(bx, by));
        lemma_path_concat(map, p, q, idx_of(ax, ay), idx_of(bx, ay), idx_of(bx, by));
        lemma_run_path_v(map, by, ay, bx);
        lemma_run_path_h(map, bx, ax, ay);
        let q2 = choose|q2: Seq<usize>| valid_path(map, q2, idx_of(bx, by), idx_of(bx, ay));
        let p2 = choose|p2: Seq<usize>| valid_path(map, p2, idx_of(bx, ay), idx_of(ax, ay));
        lemma_path_concat(map, q2, p2, idx_of(bx, by), idx_of(bx, ay), idx_of(ax, ay));
    } else {
        lemma_run_path_h(map, ax, bx, by);
        lemma_run_path_v(map, ay, by, ax);
        let p = choose|p: Seq<usize>| valid_path(map, p, idx_of(ax, ay), idx_of(ax, by));
        let q = choose|q: Seq<usize>| valid_path(map, q, idx_of(ax, by), idx_of(bx, by));
        lemma_path_concat(map, p, q, idx_of(ax, ay), idx_of(ax, by), idx_of(bx, by));
        lemma_run_path_h(map, bx, ax, by);
        lemma_run_path_v(map, by, ay, ax);
        let q2 = choose|q2: Seq<usize>| valid_path(map, q2, idx_of(bx, by), idx_of(ax, by));
        let p2 = choose|p2: Seq<usize>| valid_path(map, p2, idx_of(ax, by), idx_of(ax, ay));
        lemma_path_concat(map, q2, p2, idx_of(bx, by), idx_of(ax, by), idx_of(ax, ay));
    }
}

} // verus!
