use vstd::prelude::*;

use crate::State;
use crate::map::HEIGHT;
use crate::map::TileType;
use crate::map::WIDTH;
use crate::map::idx_of;
use crate::world::World;

verus! {

/// Entity `e` stands on tile `i`.
pub open spec fn occupant_at(w: World, e: int, i: int) -> bool {
    &&& w.is_alive(e)
    &&& w.positions[e] is Some
    &&& idx_of(w.positions[e]->Some_0.x as int, w.positions[e]->Some_0.y as int) == i
}

/// Some entity that blocks movement stands on tile `i`.
pub open spec fn blocker_at(w: World, i: int) -> bool {
    exists|e: int|
        0 <= e < w.num_entities() && #[trigger] occupant_at(w, e, i) && w.blocks_tiles[e] is Some
}

/// The entities on tile `i` among the first `n`, in identifier order.
pub open spec fn occupants_upto(w: World, i: int, n: int) -> Seq<usize>
    decreases n,
{
    if n <= 0 {
        Seq::empty()
    } else if occupant_at(w, n - 1, i) {
        occupants_upto(w, i, n - 1).push((n - 1) as usize)
    } else {
        occupants_upto(w, i, n - 1)
    }
}

/// One spatial-index rebuild, relating the whole state before (`s0`) and
/// after (`s1`): the blocked flags become walls plus blocking occupants, the
/// occupant lists are rebuilt in entity order, and nothing else changes.
#[verifier::opaque]
pub open spec fn index_ran(s0: State, s1: State) -> bool {
    &&& s1.wf()
    &&& forall|i: int|
        0 <= i < WIDTH * HEIGHT ==> s1.map.blocked[i] == (s0.map.tiles[i] == TileType::Wall
            || blocker_at(s0.ecs, i))
    &&& forall|i: int|
        0 <= i < WIDTH * HEIGHT ==> s1.map.tile_content[i]@ == occupants_upto(
            s0.ecs,
            i,
            s0.ecs.num_entities(),
        )
    &&& s1.map.tiles == s0.map.tiles
    &&& s1.map.rooms == s0.map.rooms
    &&& s1.map.revealed_tiles == s0.map.revealed_tiles
    &&& s1.map.visible_tiles == s0.map.visible_tiles
    &&& s1.ecs == s0.ecs
    &&& s1.run_state == s0.run_state
    &&& s1.player_entity == s0.player_entity
    &&& s1.player_pos == s0.player_pos
    &&& s1.log == s0.log
}

/// Rebuilds the per-tile caches once per turn, before any movement or combat
/// resolution: the blocked flags (walls plus entities that block their tile)
/// and the per-tile occupant lists.
pub struct MapIndexingSystem {}

impl MapIndexingSystem {
    pub fn run(state: &mut State)
        requires
            old(state).wf(),
        ensures
            final(state).wf(),
            index_ran(*old(state), *final(state)),
            forall|i: int|
                0 <= i < WIDTH * HEIGHT ==> final(state).map.blocked[i] == (old(
                    state,
                ).map.tiles[i] == TileType::Wall || blocker_at(old(state).ecs, i)),
            forall|i: int|
                0 <= i < WIDTH * HEIGHT ==> final(state).map.tile_content[i]@ == occupants_upto(
                    old(state).ecs,
                    i,
                    old(state).ecs.num_entities(),
                ),
            final(state).map.tiles == old(state).map.tiles,
            final(state).map.rooms == old(state).map.rooms,
            final(state).map.revealed_tiles == old(state).map.revealed_tiles,
            final(state).map.visible_tiles == old(state).map.visible_tiles,
            final(state).ecs == old(state).ecs,
            final(state).run_state == old(state).run_state,
            final(state).player_entity == old(state).player_entity,
            final(state).player_pos == old(state).player_pos,
            final(state).log == old(state).log,
    {
        proof {
            reveal(index_ran);
        }
        state.map.populate_blocked();
        state.map.clear_content_index();

        let ghost w = state.ecs;
        let n = state.ecs.alive.len();
        let mut e: usize = 0;
        while e < n
            invariant
                state.wf(),
                w == state.ecs,
                n == state.ecs.num_entities(),
                e <= n,
                forall|i: int|
                    0 <= i < WIDTH * HEIGHT ==> state.map.blocked[i] == (old(
                        state,
                    ).map.tiles[i] == TileType::Wall || exists|k: int|
                        0 <= k < e && #[trigger] occupant_at(w, k, i) && w.blocks_tiles[k] is Some),
                forall|i: int|
                    0 <= i < WIDTH * HEIGHT ==> state.map.tile_content[i]@ == occupants_upto(
                        w,
                        i,
                        e as int,
                    ),
                state.map.tiles == old(state).map.tiles,
                state.map.rooms == old(state).map.rooms,
                state.map.revealed_tiles == old(state).map.revealed_tiles,
                state.map.visible_tiles == old(state).map.visible_tiles,
                state.ecs == old(state).ecs,
                state.run_state == old(state).run_state,
                state.player_entity == old(state).player_entity,
                state.player_pos == old(state).player_pos,
                state.log == old(state).log,
            decreases n - e,
        {
            let has_pos = state.ecs.alive[e] && state.ecs.positions[e].is_some();
            if has_pos {
                let pos = state.ecs.positions[e].unwrap();
                let idx = state.map.xy_idx(pos.x as usize, pos.y as usize);
                let ghost prev_blocked = state.map.blocked@;
                if state.ecs.blocks_tiles[e].is_some() {
                    state.map.blocked[idx] = true;
                }
                let ghost prev = state.map.tile_content@;
                let mut lst = state.map.tile_content.remove(idx);
                lst.push(e);
                state.map.tile_content.insert(idx, lst);
                proof {
                    assert(state.map.tile_content@ =~= prev.update(
                        idx as int,
                        state.map.tile_content@[idx as int],
                    ));
                    assert(state.map.tile_content@[idx as int]@ == prev[idx as int]@.push(e));
                    assert(occupant_at(w, e as int, idx as int));
                    assert forall|i: int| 0 <= i < WIDTH * HEIGHT implies
                        state.map.tile_content[i]@ == occupants_upto(w, i, e + 1) by {
                        if i == idx {
                            assert(occupants_upto(w, i, e + 1) == occupants_upto(w, i, e as int).push(e));
                        } else {
                            assert(!occupant_at(w, e as int, i));
                            assert(occupants_upto(w, i, e + 1) == occupants_upto(w, i, e as int));
                        }
                    }
                    assert forall|i: int| 0 <= i < WIDTH * HEIGHT implies
                        state.map.blocked[i] == (old(state).map.tiles[i] == TileType::Wall
                            || exists|k: int|
                                0 <= k < e + 1 && #[trigger] occupant_at(w, k, i)
                                    && w.blocks_tiles[k] is Some) by {
                        if i == idx && w.blocks_tiles[e as int] is Some {
                            assert(occupant_at(w, e as int, i) && w.blocks_tiles[e as int] is Some);
                            assert(state.map.blocked[i]);
                        } else {
                            assert(state.map.blocked[i] == prev_blocked[i]);
                            assert forall|k: int|
                                0 <= k < e + 1 && #[trigger] occupant_at(w, k, i)
                                    && w.blocks_tiles[k] is Some implies 0 <= k < e by {}
                        }
                    }
                }
            } else {
                proof {
                    assert forall|i: int| 0 <= i < WIDTH * HEIGHT implies
                        state.map.tile_content[i]@ == occupants_upto(w, i, e + 1) by {
                        assert(!occupant_at(w, e as int, i));
                        assert(occupants_upto(w, i, e + 1) == occupants_upto(w, i, e as int));
                    }
                    assert forall|i: int| 0 <= i < WIDTH * HEIGHT implies
                        state.map.blocked[i] == (old(state).map.tiles[i] == TileType::Wall
                            || exists|k: int|
                                0 <= k < e + 1 && #[trigger] occupant_at(w, k, i)
                                    && w.blocks_tiles[k] is Some) by {
                        assert forall|k: int|
                            0 <= k < e + 1 && #[trigger] occupant_at(w, k, i)
                                && w.blocks_tiles[k] is Some implies 0 <= k < e by {}
                    }
                }
            }
            e = e + 1;
        }
    }
}

} // verus!
