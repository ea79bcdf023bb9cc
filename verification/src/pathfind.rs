use vstd::prelude::*;

use crate::fov::cheb;
use crate::map::GameMap;
use crate::map::HEIGHT;
use crate::map::WIDTH;
use crate::map::col;
use crate::map::idx_of;
use crate::map::lemma_flat_roundtrip;
use crate::map::row;

verus! {

/// The distance value standing for "not reached".
pub const UNREACHED: u32 = 0xffff_ffff;

/// One king move from tile `a` into tile `b`, where `b` can be entered.
pub open spec fn step_ok(map: GameMap, a: int, b: int) -> bool {
    &&& 0 <= a < WIDTH * HEIGHT
    &&& 0 <= b < WIDTH * HEIGHT
    &&& cheb(col(a), row(a), col(b), row(b)) == 1
    &&& map.spec_exit_valid(col(b), row(b))
}

/// A walk from start to goal: every step is a king move into an enterable
/// tile. The start tile itself need not be enterable.
pub open spec fn valid_path(map: GameMap, p: Seq<usize>, start: int, goal: int) -> bool {
    &&& p.len() >= 1
    &&& p[0] == start
    &&& p[p.len() - 1] == goal
    &&& forall|i: int| 0 < i < p.len() ==> step_ok(map, p[i - 1] as int, #[trigger] p[i] as int)
}

/// The search bookkeeping stays consistent: distances witness a parent chain
/// of valid steps that strictly descends toward the start.
pub open spec fn search_inv(
    map: GameMap,
    dist: Seq<u32>,
    parent: Seq<Option<usize>>,
    start: int,
) -> bool {
    &&& dist.len() == WIDTH * HEIGHT
    &&& parent.len() == WIDTH * HEIGHT
    &&& 0 <= start < WIDTH * HEIGHT
    &&& dist[start] == 0
    &&& parent[start] is None
    &&& forall|v: int|
        0 <= v < WIDTH * HEIGHT && (#[trigger] parent[v]) is Some ==> {
            &&& parent[v]->Some_0 < WIDTH * HEIGHT
            &&& step_ok(map, parent[v]->Some_0 as int, v)
            &&& dist[parent[v]->Some_0 as int] < dist[v]
            &&& dist[v] < UNREACHED
        }
    &&& forall|v: int|
        0 <= v < WIDTH * HEIGHT && (#[trigger] dist[v]) < UNREACHED && v != start ==> parent[v] is Some
}

/// Relax one neighbor of `u`: record the cheaper route through `u` if it
/// improves on what is known.
fn try_relax(
    map: &GameMap,
    dist: &mut Vec<u32>,
    parent: &mut Vec<Option<usize>>,
    start: usize,
    u: usize,
    nx: i32,
    ny: i32,
    cost: u32,
)
    requires
        map.wf(),
        search_inv(*map, old(dist)@, old(parent)@, start as int),
        u < WIDTH * HEIGHT,
        old(dist)@[u as int] < 1000000,
        100 <= cost <= 145,
        cheb(col(u as int), row(u as int), nx as int, ny as int) == 1,
    ensures
        search_inv(*map, final(dist)@, final(parent)@, start as int),
        final(dist)@.len() == old(dist)@.len(),
        final(parent)@.len() == old(parent)@.len(),
        forall|v: int|
            0 <= v < WIDTH * HEIGHT ==> final(dist)@[v] <= (#[trigger] old(dist)@[v]),
        forall|v: int|
            0 <= v < WIDTH * HEIGHT ==> ((#[trigger] final(dist)@[v]) == old(dist)@[v]
                || final(dist)@[v] == old(dist)@[u as int] + cost),
        map.spec_exit_valid(nx as int, ny as int) ==> final(dist)@[idx_of(nx as int, ny as int)]
            < UNREACHED,
        final(dist)@[u as int] == old(dist)@[u as int],
{
    if !map.is_exit_valid(nx, ny) {
        return ;
    }
    let nidx = map.xy_idx(nx as usize, ny as usize);
    proof {
        crate::map::lemma_xy_idx_roundtrip(nx as int, ny as int);
        lemma_flat_roundtrip(u as int);
    }
    let nd = dist[u] + cost;
    if nd < dist[nidx] {
        dist[nidx] = nd;
        parent[nidx] = Some(u);
    }
}

/// Every enterable king-move successor of a settled tile has been reached.
pub open spec fn frontier_closed(map: GameMap, dist: Seq<u32>, visited: Seq<bool>) -> bool {
    forall|u: int, v: int|
        0 <= u < WIDTH * HEIGHT && 0 <= v < WIDTH * HEIGHT && visited[u] && #[trigger] step_ok(
            map,
            u,
            v,
        ) ==> dist[v] < UNREACHED
}

/// How many tiles have been settled.
pub open spec fn count_true(s: Seq<bool>) -> int
    decreases s.len(),
{
    if s.len() == 0 {
        0
    } else {
        count_true(s.drop_last()) + (if s.last() {
            1int
        } else {
            0int
        })
    }
}

proof fn lemma_count_zero(s: Seq<bool>)
    requires
        forall|i: int| 0 <= i < s.len() ==> !s[i],
    ensures
        count_true(s) == 0,
    decreases s.len(),
{
    if s.len() > 0 {
        lemma_count_zero(s.drop_last());
    }
}

proof fn lemma_count_bounds(s: Seq<bool>)
    ensures
        0 <= count_true(s) <= s.len(),
    decreases s.len(),
{
    if s.len() > 0 {
        lemma_count_bounds(s.drop_last());
    }
}

proof fn lemma_count_update(s: Seq<bool>, i: int)
    requires
        0 <= i < s.len(),
        !s[i],
    ensures
        count_true(s.update(i, true)) == count_true(s) + 1,
    decreases s.len(),
{
    if i == s.len() - 1 {
        assert(s.update(i, true).drop_last() =~= s.drop_last());
    } else {
        assert(s.update(i, true).drop_last() =~= s.drop_last().update(i, true));
        lemma_count_update(s.drop_last(), i);
    }
}

proof fn lemma_count_full(s: Seq<bool>)
    requires
        count_true(s) == s.len(),
    ensures
        forall|i: int| 0 <= i < s.len() ==> s[i],
    decreases s.len(),
{
    if s.len() > 0 {
        lemma_count_bounds(s.drop_last());
        lemma_count_full(s.drop_last());
        assert forall|i: int| 0 <= i < s.len() implies s[i] by {
            if i < s.len() - 1 {
                assert(s.drop_last()[i]);
            }
        }
    }
}

/// Walking any valid path from a reached tile through a closed frontier
/// keeps every visited tile reached; in particular the path's end is
/// reached.
proof fn lemma_path_reaches(
    map: GameMap,
    dist: Seq<u32>,
    visited: Seq<bool>,
    p: Seq<usize>,
    start: int,
    goal: int,
)
    requires
        dist.len() == WIDTH * HEIGHT,
        visited.len() == WIDTH * HEIGHT,
        frontier_closed(map, dist, visited),
        forall|v: int| 0 <= v < WIDTH * HEIGHT && (#[trigger] dist[v]) < UNREACHED ==> visited[v],
        valid_path(map, p, start, goal),
        0 <= start < WIDTH * HEIGHT,
        dist[start] < UNREACHED,
    ensures
        dist[goal] < UNREACHED,
    decreases p.len(),
{
    if p.len() == 1 {
        assert(goal == start);
    } else {
        let mid = p[p.len() - 2] as int;
        let prefix = p.drop_last();
        assert(step_ok(map, mid, goal));
        assert(valid_path(map, prefix, start, mid)) by {
            assert(prefix[0] == p[0]);
            assert(prefix[prefix.len() - 1] == p[p.len() - 2]);
            assert forall|i: int| 0 < i < prefix.len() implies step_ok(
                map,
                prefix[i - 1] as int,
                #[trigger] prefix[i] as int,
            ) by {
                assert(prefix[i] == p[i] && prefix[i - 1] == p[i - 1]);
            }
        }
        lemma_path_reaches(map, dist, visited, prefix, start, mid);
        assert(visited[mid]);
    }
}

/// Search for a cheapest-first route between two tiles: cardinal steps cost
/// 100, diagonal steps 145. When a route exists the returned path starts at
/// `start`, ends at `goal`, and every step enters an enterable tile.
#[verifier::rlimit(100)]
pub fn find_path(map: &GameMap, start: usize, goal: usize) -> (r: Option<Vec<usize>>)
    requires
        map.wf(),
        start < WIDTH * HEIGHT,
        goal < WIDTH * HEIGHT,
    ensures
        r matches Some(p) ==> valid_path(*map, p@, start as int, goal as int),
        r is None ==> forall|p: Seq<usize>| !valid_path(*map, p, start as int, goal as int),
{
    let n: usize = WIDTH * HEIGHT;
    let mut dist: Vec<u32> = crate::map::fill(n, UNREACHED);
    let mut parent: Vec<Option<usize>> = crate::map::fill(n, None);
    let mut visited: Vec<bool> = crate::map::fill(n, false);
    dist[start] = 0;
    proof {
        assert(count_true(visited@) == 0) by {
            lemma_count_zero(visited@);
        }
    }

    let mut round: usize = 0;
    let mut finished = false;
    while round < n && !finished
        invariant
            map.wf(),
            n == WIDTH * HEIGHT,
            start < n,
            goal < n,
            dist@.len() == n,
            visited@.len() == n,
            round <= n,
            search_inv(*map, dist@, parent@, start as int),
            frontier_closed(*map, dist@, visited@),
            forall|v: int|
                0 <= v < n ==> ((#[trigger] dist@[v]) < UNREACHED ==> dist@[v] <= 145 * round),
            !finished ==> round == count_true(visited@),
            finished ==> (forall|v: int|
                0 <= v < n && (#[trigger] dist@[v]) < UNREACHED ==> visited@[v]),
        decreases n - round,
    {
        // pick the unvisited tile with the smallest known distance
        let mut u: usize = n;
        let mut best: u32 = UNREACHED;
        let mut scan: usize = 0;
        while scan < n
            invariant
                n == WIDTH * HEIGHT,
                dist@.len() == n,
                visited@.len() == n,
                scan <= n,
                u <= n,
                u < n ==> (best == dist@[u as int] && best < UNREACHED && !visited@[u as int]),
                u == n ==> best == UNREACHED,
                u == n ==> (forall|j: int|
                    0 <= j < scan && (#[trigger] dist@[j]) < UNREACHED ==> visited@[j]),
            decreases n - scan,
        {
            if !visited[scan] && dist[scan] < best {
                best = dist[scan];
                u = scan;
            }
            scan = scan + 1;
        }
        if u == n {
            finished = true;
            round = round + 1;
        } else {
            let ghost pre_visited = visited@;
            visited[u] = true;
            proof {
                lemma_count_update(pre_visited, u as int);
            }
            let (ux, uy) = map.idx_xy(u);
            let x = ux as i32;
            let y = uy as i32;
            let ghost d0 = dist@;
            proof {
                lemma_flat_roundtrip(u as int);
                assert(best <= 145 * round);
                assert(best < 1000000);
            }
            try_relax(map, &mut dist, &mut parent, start, u, x - 1, y, 100);
            try_relax(map, &mut dist, &mut parent, start, u, x + 1, y, 100);
            try_relax(map, &mut dist, &mut parent, start, u, x, y - 1, 100);
            try_relax(map, &mut dist, &mut parent, start, u, x, y + 1, 100);
            try_relax(map, &mut dist, &mut parent, start, u, x - 1, y - 1, 145);
            try_relax(map, &mut dist, &mut parent, start, u, x + 1, y - 1, 145);
            try_relax(map, &mut dist, &mut parent, start, u, x - 1, y + 1, 145);
            try_relax(map, &mut dist, &mut parent, start, u, x + 1, y + 1, 145);
            proof {
                assert forall|v: int|
                    0 <= v < n && step_ok(*map, u as int, v) implies dist@[v] < UNREACHED by {
                    lemma_flat_roundtrip(v);
                    let vx = col(v);
                    let vy = row(v);
                    assert(map.spec_exit_valid(vx, vy));
                    assert(cheb(col(u as int), row(u as int), vx, vy) == 1);
                    assert(v == idx_of(vx, vy));
                }
                assert forall|uu: int, v: int|
                    0 <= uu < n && 0 <= v < n && visited@[uu] && #[trigger] step_ok(
                        *map,
                        uu,
                        v,
                    ) implies dist@[v] < UNREACHED by {
                    if uu != u as int {
                        assert(pre_visited[uu]);
                        assert(d0[v] < UNREACHED);
                        assert(dist@[v] <= d0[v]);
                    }
                }
                assert forall|v: int|
                    0 <= v < n && (#[trigger] dist@[v]) < UNREACHED implies dist@[v] <= 145 * (round
                        + 1) by {
                    if dist@[v] != d0[v] {
                        assert(dist@[v] <= d0[u as int] + 145);
                    }
                }
            }
            round = round + 1;
        }
    }

    if dist[goal] == UNREACHED {
        proof {
            if !finished {
                assert(round == n);
                assert(count_true(visited@) == n as int);
                lemma_count_full(visited@);
            }
            assert forall|p: Seq<usize>| !valid_path(*map, p, start as int, goal as int) by {
                if valid_path(*map, p, start as int, goal as int) {
                    lemma_path_reaches(
                        *map,
                        dist@,
                        visited@,
                        p,
                        start as int,
                        goal as int,
                    );
                }
            }
        }
        return None;
    }


    // walk the parent chain back from the goal
    let mut rev: Vec<usize> = Vec::new();
    rev.push(goal);
    let mut cur: usize = goal;
    while cur != start
        invariant
            map.wf(),
            start < WIDTH * HEIGHT,
            goal < WIDTH * HEIGHT,
            cur < WIDTH * HEIGHT,
            search_inv(*map, dist@, parent@, start as int),
            dist@[cur as int] < UNREACHED,
            rev@.len() >= 1,
            rev@[0] == goal,
            rev@[rev@.len() - 1] == cur,
            forall|i: int|
                0 <= i < rev@.len() - 1 ==> step_ok(*map, rev@[i + 1] as int, #[trigger] rev@[i] as int),
        decreases dist@[cur as int],
    {
        let prev = match parent[cur] {
            Some(p) => p,
            None => {
                // unreachable: a reached tile other than the start has a parent
                proof {
                    assert(false);
                }
                start
            },
        };
        rev.push(prev);
        cur = prev;
    }

    let mut path: Vec<usize> = Vec::new();
    let mut j: usize = rev.len();
    while j > 0
        invariant
            rev@.len() >= 1,
            j <= rev@.len(),
            path@.len() == rev@.len() - j,
            forall|i: int|
                0 <= i < path@.len() ==> #[trigger] path@[i] == rev@[rev@.len() - 1 - i],
        decreases j,
    {
        let item = rev[j - 1];
        path.push(item);
        j = j - 1;
    }
    proof {
        let p = path@;
        let r = rev@;
        assert(p.len() == r.len());
        assert(p[0] == r[r.len() - 1]);
        assert(p[p.len() - 1] == r[0]);
        assert forall|i: int| 0 < i < p.len() implies step_ok(
            *map,
            p[i - 1] as int,
            #[trigger] p[i] as int,
        ) by {
            assert(p[i] == r[r.len() - 1 - i]);
            assert(p[i - 1] == r[r.len() - i]);
        }
    }
    Some(path)
}

} // verus!
