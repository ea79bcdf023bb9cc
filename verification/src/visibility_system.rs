use vstd::prelude::*;

use crate::State;
use crate::components::Point;
use crate::components::Position;
use crate::components::Viewshed;
use crate::fov::field_of_view;
use crate::fov::pt;
use crate::fov::visible_from;
use crate::map::HEIGHT;
use crate::map::TileType;
use crate::map::WIDTH;
use crate::map::idx_of;
use crate::map::col;
use crate::map::lemma_flat_roundtrip;
use crate::map::lemma_xy_idx_roundtrip;
use crate::map::row;
use crate::world::World;

verus! {

/// Entity `e` has its viewshed recomputed this pass: it is alive,
/// positioned, sighted, and marked dirty.
pub open spec fn needs_recompute(w: World, e: int) -> bool {
    &&& w.is_alive(e)
    &&& w.positions[e] is Some
    &&& w.viewsheds[e] is Some
    &&& w.viewsheds[e]->Some_0.dirty
}

/// A freshly recomputed viewshed: same range, no longer dirty, and its
/// visible-tile list holds exactly the tiles in sight of `pos`.
pub open spec fn vs_recomputed(tiles: Seq<TileType>, pos: Position, range0: u8, v: Viewshed) -> bool {
    &&& v.range == range0
    &&& !v.dirty
    &&& forall|x: int, y: int|
        0 <= x < WIDTH && 0 <= y < HEIGHT ==> (v.visible_tiles@.contains(pt(x, y)) == visible_from(
            tiles,
            pos.x as int,
            pos.y as int,
            range0 as int,
            x,
            y,
        ))
    &&& forall|k: int|
        0 <= k < v.visible_tiles@.len() ==> visible_from(
            tiles,
            pos.x as int,
            pos.y as int,
            range0 as int,
            (#[trigger] v.visible_tiles@[k]).x as int,
            v.visible_tiles@[k].y as int,
        )
}

/// What the player sees from `pos` with sight range `range0`, at tile `i`.
pub open spec fn player_sees(
    tiles: Seq<TileType>,
    pos: Position,
    range0: u8,
    i: int,
) -> bool {
    visible_from(tiles, pos.x as int, pos.y as int, range0 as int, col(i), row(i))
}

/// One visibility pass, relating the whole state before (`s0`) and after
/// (`s1`): every dirty viewshed is recomputed from the grid, the others are
/// untouched, the player's pass rebuilds the map's visible flags and extends
/// the sticky revealed flags, and nothing else changes.
#[verifier::opaque]
pub open spec fn vis_ran(s0: State, s1: State) -> bool {
    &&& s1.wf()
    &&& forall|e: int|
        0 <= e < s0.ecs.num_entities() && needs_recompute(s0.ecs, e) ==> ((
        #[trigger] s1.ecs.viewsheds[e]) matches Some(v) && vs_recomputed(
            s0.map.tiles@,
            s0.ecs.positions[e]->Some_0,
            s0.ecs.viewsheds[e]->Some_0.range,
            v,
        ))
    &&& forall|e: int|
        0 <= e < s0.ecs.num_entities() && !needs_recompute(s0.ecs, e) ==> (
        #[trigger] s1.ecs.viewsheds[e]) == s0.ecs.viewsheds[e]
    &&& (needs_recompute(s0.ecs, s0.player_entity as int) ==> {
        &&& forall|i: int|
            0 <= i < WIDTH * HEIGHT ==> (#[trigger] s1.map.visible_tiles[i]) == player_sees(
                s0.map.tiles@,
                s0.ecs.positions[s0.player_entity as int]->Some_0,
                s0.ecs.viewsheds[s0.player_entity as int]->Some_0.range,
                i,
            )
        &&& forall|i: int|
            0 <= i < WIDTH * HEIGHT ==> (#[trigger] s1.map.revealed_tiles[i]) == (
            s0.map.revealed_tiles[i] || player_sees(
                s0.map.tiles@,
                s0.ecs.positions[s0.player_entity as int]->Some_0,
                s0.ecs.viewsheds[s0.player_entity as int]->Some_0.range,
                i,
            ))
    })
    &&& (!needs_recompute(s0.ecs, s0.player_entity as int) ==> {
        &&& s1.map.visible_tiles == s0.map.visible_tiles
        &&& s1.map.revealed_tiles == s0.map.revealed_tiles
    })
    &&& s1.map.tiles == s0.map.tiles
    &&& s1.map.rooms == s0.map.rooms
    &&& s1.map.blocked == s0.map.blocked
    &&& s1.map.tile_content == s0.map.tile_content
    &&& s1.ecs.alive == s0.ecs.alive
    &&& s1.ecs.positions == s0.ecs.positions
    &&& s1.ecs.renderables == s0.ecs.renderables
    &&& s1.ecs.players == s0.ecs.players
    &&& s1.ecs.monsters == s0.ecs.monsters
    &&& s1.ecs.names == s0.ecs.names
    &&& s1.ecs.blocks_tiles == s0.ecs.blocks_tiles
    &&& s1.ecs.combat_stats == s0.ecs.combat_stats
    &&& s1.ecs.wants_to_melees == s0.ecs.wants_to_melees
    &&& s1.ecs.suffer_damages == s0.ecs.suffer_damages
    &&& s1.ecs.items == s0.ecs.items
    &&& s1.ecs.provides_healings == s0.ecs.provides_healings
    &&& s1.ecs.in_backpacks == s0.ecs.in_backpacks
    &&& s1.ecs.wants_to_pickup_items == s0.ecs.wants_to_pickup_items
    &&& s1.ecs.wants_to_use_items == s0.ecs.wants_to_use_items
    &&& s1.ecs.wants_to_drop_items == s0.ecs.wants_to_drop_items
    &&& s1.ecs.consumables == s0.ecs.consumables
    &&& s1.ecs.inflicts_damages == s0.ecs.inflicts_damages
    &&& s1.ecs.rangeds == s0.ecs.rangeds
    &&& s1.ecs.areas_of_effect == s0.ecs.areas_of_effect
    &&& s1.ecs.confusions == s0.ecs.confusions
    &&& s1.run_state == s0.run_state
    &&& s1.player_entity == s0.player_entity
    &&& s1.player_pos == s0.player_pos
    &&& s1.log == s0.log
}

/// Recomputes every dirty viewshed from the current grid, clearing the dirty
/// flag. For the player's viewshed alone, the map's currently-visible flags
/// are rebuilt from scratch and every seen tile is also marked revealed
/// (revealed marks are sticky).
pub struct VisibilitySystem {}

impl VisibilitySystem {
    pub fn run(state: &mut State)
        requires
            old(state).wf(),
        ensures
            final(state).wf(),
            vis_ran(*old(state), *final(state)),
            forall|e: int|
                0 <= e < old(state).ecs.num_entities() && needs_recompute(old(state).ecs, e)
                    ==> ((#[trigger] final(state).ecs.viewsheds[e]) matches Some(v)
                    && vs_recomputed(
                    old(state).map.tiles@,
                    old(state).ecs.positions[e]->Some_0,
                    old(state).ecs.viewsheds[e]->Some_0.range,
                    v,
                )),
            forall|e: int|
                0 <= e < old(state).ecs.num_entities() && !needs_recompute(old(state).ecs, e)
                    ==> (#[trigger] final(state).ecs.viewsheds[e]) == old(state).ecs.viewsheds[e],
            needs_recompute(old(state).ecs, old(state).player_entity as int) ==> {
                &&& forall|i: int|
                    0 <= i < WIDTH * HEIGHT ==> (#[trigger] final(state).map.visible_tiles[i])
                        == player_sees(
                        old(state).map.tiles@,
                        old(state).ecs.positions[old(state).player_entity as int]->Some_0,
                        old(state).ecs.viewsheds[old(state).player_entity as int]->Some_0.range,
                        i,
                    )
                &&& forall|i: int|
                    0 <= i < WIDTH * HEIGHT ==> (#[trigger] final(state).map.revealed_tiles[i])
                        == (old(state).map.revealed_tiles[i] || player_sees(
                        old(state).map.tiles@,
                        old(state).ecs.positions[old(state).player_entity as int]->Some_0,
                        old(state).ecs.viewsheds[old(state).player_entity as int]->Some_0.range,
                        i,
                    ))
            },
            !needs_recompute(old(state).ecs, old(state).player_entity as int) ==> {
                &&& final(state).map.visible_tiles == old(state).map.visible_tiles
                &&& final(state).map.revealed_tiles == old(state).map.revealed_tiles
            },
            final(state).map.tiles == old(state).map.tiles,
            final(state).map.rooms == old(state).map.rooms,
            final(state).map.blocked == old(state).map.blocked,
            final(state).map.tile_content == old(state).map.tile_content,
            final(state).ecs.alive == old(state).ecs.alive,
            final(state).ecs.positions == old(state).ecs.positions,
            final(state).ecs.renderables == old(state).ecs.renderables,
            final(state).ecs.players == old(state).ecs.players,
            final(state).ecs.monsters == old(state).ecs.monsters,
            final(state).ecs.names == old(state).ecs.names,
            final(state).ecs.blocks_tiles == old(state).ecs.blocks_tiles,
            final(state).ecs.combat_stats == old(state).ecs.combat_stats,
            final(state).ecs.wants_to_melees == old(state).ecs.wants_to_melees,
            final(state).ecs.suffer_damages == old(state).ecs.suffer_damages,
            final(state).ecs.items == old(state).ecs.items,
            final(state).ecs.provides_healings == old(state).ecs.provides_healings,
            final(state).ecs.in_backpacks == old(state).ecs.in_backpacks,
            final(state).ecs.wants_to_pickup_items == old(state).ecs.wants_to_pickup_items,
            final(state).ecs.wants_to_use_items == old(state).ecs.wants_to_use_items,
            final(state).ecs.wants_to_drop_items == old(state).ecs.wants_to_drop_items,
            final(state).ecs.consumables == old(state).ecs.consumables,
            final(state).ecs.inflicts_damages == old(state).ecs.inflicts_damages,
            final(state).ecs.rangeds == old(state).ecs.rangeds,
            final(state).ecs.areas_of_effect == old(state).ecs.areas_of_effect,
            final(state).ecs.confusions == old(state).ecs.confusions,
            final(state).run_state == old(state).run_state,
            final(state).player_entity == old(state).player_entity,
            final(state).player_pos == old(state).player_pos,
            final(state).log == old(state).log,
    {
        proof {
            reveal(vis_ran);
        }
        let ghost w = state.ecs;
        let ghost map0 = state.map;
        let n = state.ecs.alive.len();
        let mut e: usize = 0;
        while e < n
            invariant
                state.wf(),
                n == state.ecs.num_entities(),
                e <= n,
                w == old(state).ecs,
                map0 == old(state).map,
                forall|e2: int|
                    0 <= e2 < e && needs_recompute(w, e2) ==> ((#[trigger] state.ecs.viewsheds[e2])
                        matches Some(v) && vs_recomputed(
                        map0.tiles@,
                        w.positions[e2]->Some_0,
                        w.viewsheds[e2]->Some_0.range,
                        v,
                    )),
                forall|e2: int|
                    (0 <= e2 < n && !needs_recompute(w, e2)) || e <= e2 < n ==> (
                    #[trigger] state.ecs.viewsheds[e2]) == w.viewsheds[e2],
                (needs_recompute(w, state.player_entity as int) && state.player_entity < e) ==> {
                    &&& forall|i: int|
                        0 <= i < WIDTH * HEIGHT ==> (#[trigger] state.map.visible_tiles[i])
                            == player_sees(
                            map0.tiles@,
                            w.positions[state.player_entity as int]->Some_0,
                            w.viewsheds[state.player_entity as int]->Some_0.range,
                            i,
                        )
                    &&& forall|i: int|
                        0 <= i < WIDTH * HEIGHT ==> (#[trigger] state.map.revealed_tiles[i]) == (
                        map0.revealed_tiles[i] || player_sees(
                            map0.tiles@,
                            w.positions[state.player_entity as int]->Some_0,
                            w.viewsheds[state.player_entity as int]->Some_0.range,
                            i,
                        ))
                },
                (!needs_recompute(w, state.player_entity as int) || state.player_entity >= e)
                    ==> {
                    &&& state.map.visible_tiles == map0.visible_tiles
                    &&& state.map.revealed_tiles == map0.revealed_tiles
                },
                state.map.tiles == map0.tiles,
                state.map.rooms == map0.rooms,
                state.map.blocked == map0.blocked,
                state.map.tile_content == map0.tile_content,
                state.ecs.alive == w.alive,
                state.ecs.positions == w.positions,
                state.ecs.renderables == w.renderables,
                state.ecs.players == w.players,
                state.ecs.monsters == w.monsters,
                state.ecs.names == w.names,
                state.ecs.blocks_tiles == w.blocks_tiles,
                state.ecs.combat_stats == w.combat_stats,
                state.ecs.wants_to_melees == w.wants_to_melees,
                state.ecs.suffer_damages == w.suffer_damages,
                state.ecs.items == w.items,
                state.ecs.provides_healings == w.provides_healings,
                state.ecs.in_backpacks == w.in_backpacks,
                state.ecs.wants_to_pickup_items == w.wants_to_pickup_items,
                state.ecs.wants_to_use_items == w.wants_to_use_items,
                state.ecs.wants_to_drop_items == w.wants_to_drop_items,
                state.ecs.consumables == w.consumables,
                state.ecs.inflicts_damages == w.inflicts_damages,
                state.ecs.rangeds == w.rangeds,
                state.ecs.areas_of_effect == w.areas_of_effect,
                state.ecs.confusions == w.confusions,
                state.run_state == old(state).run_state,
                state.player_entity == old(state).player_entity,
                state.player_pos == old(state).player_pos,
                state.log == old(state).log,
            decreases n - e,
        {
            let recompute = state.ecs.alive[e] && state.ecs.positions[e].is_some() && (match &state
                .ecs
                .viewsheds[e] {
                Some(vs) => vs.dirty,
                None => false,
            });
            if recompute {
                let pos = state.ecs.positions[e].unwrap();
                let range0 = match &state.ecs.viewsheds[e] {
                    Some(vs) => vs.range,
                    None => 0,
                };
                let vt = field_of_view(&state.map.tiles, pos.x, pos.y, range0 as i32);
                state.ecs.viewsheds[e] = Some(
                    Viewshed { range: range0, visible_tiles: vt, dirty: false },
                );
                let is_player = state.ecs.players[e].is_some();
                if is_player {
                    Self::refresh_player_tiles(state, e);
                }
            }
            e = e + 1;
        }
    }

    /// Rebuild the map's currently-visible flags from the player's fresh
    /// viewshed and mark each seen tile revealed.
    fn refresh_player_tiles(state: &mut State, e: usize)
        requires
            old(state).wf(),
            e < old(state).ecs.num_entities(),
            old(state).ecs.viewsheds[e as int] matches Some(v) && forall|k: int|
                0 <= k < v.visible_tiles@.len() ==> {
                    &&& 0 <= (#[trigger] v.visible_tiles@[k]).x < WIDTH
                    &&& 0 <= v.visible_tiles@[k].y < HEIGHT
                },
        ensures
            final(state).wf(),
            forall|i: int|
                0 <= i < WIDTH * HEIGHT ==> (#[trigger] final(state).map.visible_tiles[i]) == old(
                    state,
                ).ecs.viewsheds[e as int]->Some_0.visible_tiles@.contains(pt(col(i), row(i))),
            forall|i: int|
                0 <= i < WIDTH * HEIGHT ==> (#[trigger] final(state).map.revealed_tiles[i]) == (old(
                    state,
                ).map.revealed_tiles[i] || old(
                    state,
                ).ecs.viewsheds[e as int]->Some_0.visible_tiles@.contains(pt(col(i), row(i)))),
            final(state).map.tiles == old(state).map.tiles,
            final(state).map.rooms == old(state).map.rooms,
            final(state).map.blocked == old(state).map.blocked,
            final(state).map.tile_content == old(state).map.tile_content,
            final(state).ecs == old(state).ecs,
            final(state).run_state == old(state).run_state,
            final(state).player_entity == old(state).player_entity,
            final(state).player_pos == old(state).player_pos,
            final(state).log == old(state).log,
    {
        let ghost vt = state.ecs.viewsheds[e as int]->Some_0.visible_tiles@;
        let ghost map0 = state.map;

        // all tiles go dark first
        let total = WIDTH * HEIGHT;
        let mut i: usize = 0;
        while i < total
            invariant
                state.wf(),
                total == WIDTH * HEIGHT,
                i <= total,
                forall|j: int| 0 <= j < i ==> !(#[trigger] state.map.visible_tiles[j]),
                forall|j: int| i <= j < total ==> state.map.visible_tiles[j] == map0.visible_tiles[j],
                state.map.tiles == map0.tiles,
                state.map.rooms == map0.rooms,
                state.map.blocked == map0.blocked,
                state.map.tile_content == map0.tile_content,
                state.map.revealed_tiles == map0.revealed_tiles,
                state.ecs == old(state).ecs,
                state.run_state == old(state).run_state,
                state.player_entity == old(state).player_entity,
                state.player_pos == old(state).player_pos,
                state.log == old(state).log,
            decreases total - i,
        {
            state.map.visible_tiles[i] = false;
            i = i + 1;
        }

        // then every tile of the viewshed is lit and revealed
        let count = match &state.ecs.viewsheds[e] {
            Some(vs) => vs.visible_tiles.len(),
            None => 0,
        };
        let mut k: usize = 0;
        while k < count
            invariant
                state.wf(),
                e < state.ecs.num_entities(),
                state.ecs.viewsheds[e as int] is Some,
                vt == state.ecs.viewsheds[e as int]->Some_0.visible_tiles@,
                count == vt.len(),
                k <= count,
                forall|j: int|
                    0 <= j < vt.len() ==> {
                        &&& 0 <= (#[trigger] vt[j]).x < WIDTH
                        &&& 0 <= vt[j].y < HEIGHT
                    },
                forall|i2: int|
                    0 <= i2 < WIDTH * HEIGHT ==> (#[trigger] state.map.visible_tiles[i2]) == exists|
                        j: int,
                    |
                        0 <= j < k && idx_of((#[trigger] vt[j]).x as int, vt[j].y as int) == i2,
                forall|i2: int|
                    0 <= i2 < WIDTH * HEIGHT ==> (#[trigger] state.map.revealed_tiles[i2]) == (
                    map0.revealed_tiles[i2] || exists|j: int|
                        0 <= j < k && idx_of((#[trigger] vt[j]).x as int, vt[j].y as int) == i2),
                state.map.tiles == map0.tiles,
                state.map.rooms == map0.rooms,
                state.map.blocked == map0.blocked,
                state.map.tile_content == map0.tile_content,
                state.ecs == old(state).ecs,
                state.run_state == old(state).run_state,
                state.player_entity == old(state).player_entity,
                state.player_pos == old(state).player_pos,
                state.log == old(state).log,
            decreases count - k,
        {
            let p = match &state.ecs.viewsheds[e] {
                Some(vs) => vs.visible_tiles[k],
                None => Point { x: 0, y: 0 },
            };
            let idx = crate::map::xy_idx(p.x, p.y);
            state.map.revealed_tiles[idx] = true;
            state.map.visible_tiles[idx] = true;
            proof {
                lemma_xy_idx_roundtrip(p.x as int, p.y as int);
                assert forall|i2: int|
                    0 <= i2 < WIDTH * HEIGHT implies (state.map.visible_tiles[i2] == exists|j: int|
                    0 <= j < k + 1 && idx_of((#[trigger] vt[j]).x as int, vt[j].y as int)
                        == i2) by {
                    if i2 == idx {
                        assert(idx_of(vt[k as int].x as int, vt[k as int].y as int) == i2);
                    } else {
                        if exists|j: int|
                            0 <= j < k + 1 && idx_of((#[trigger] vt[j]).x as int, vt[j].y as int)
                                == i2 {
                            let j = choose|j: int|
                                0 <= j < k + 1 && idx_of(
                                    (#[trigger] vt[j]).x as int,
                                    vt[j].y as int,
                                ) == i2;
                            assert(j < k);
                        }
                    }
                }
                assert forall|i2: int|
                    0 <= i2 < WIDTH * HEIGHT implies (state.map.revealed_tiles[i2] == (
                map0.revealed_tiles[i2] || exists|j: int|
                    0 <= j < k + 1 && idx_of((#[trigger] vt[j]).x as int, vt[j].y as int)
                        == i2)) by {
                    if i2 == idx {
                        assert(idx_of(vt[k as int].x as int, vt[k as int].y as int) == i2);
                    } else {
                        if exists|j: int|
                            0 <= j < k + 1 && idx_of((#[trigger] vt[j]).x as int, vt[j].y as int)
                                == i2 {
                            let j = choose|j: int|
                                0 <= j < k + 1 && idx_of(
                                    (#[trigger] vt[j]).x as int,
                                    vt[j].y as int,
                                ) == i2;
                            assert(j < k);
                        }
                    }
                }
            }
            k = k + 1;
        }

        proof {
            assert forall|i2: int| 0 <= i2 < WIDTH * HEIGHT implies (state.map.visible_tiles[i2]
                == vt.contains(pt(col(i2), row(i2)))) by {
                lemma_flat_roundtrip(i2);
                if state.map.visible_tiles[i2] {
                    let j = choose|j: int|
                        0 <= j < vt.len() && idx_of((#[trigger] vt[j]).x as int, vt[j].y as int)
                            == i2;
                    lemma_xy_idx_roundtrip(vt[j].x as int, vt[j].y as int);
                    assert(vt[j] == pt(col(i2), row(i2)));
                }
                if vt.contains(pt(col(i2), row(i2))) {
                    let j = choose|j: int| 0 <= j < vt.len() && vt[j] == pt(col(i2), row(i2));
                    assert(idx_of(vt[j].x as int, vt[j].y as int) == i2);
                }
            }
            assert forall|i2: int| 0 <= i2 < WIDTH * HEIGHT implies (state.map.revealed_tiles[i2]
                == (map0.revealed_tiles[i2] || vt.contains(pt(col(i2), row(i2))))) by {
                lemma_flat_roundtrip(i2);
                if state.map.revealed_tiles[i2] && !map0.revealed_tiles[i2] {
                    let j = choose|j: int|
                        0 <= j < vt.len() && idx_of((#[trigger] vt[j]).x as int, vt[j].y as int)
                            == i2;
                    lemma_xy_idx_roundtrip(vt[j].x as int, vt[j].y as int);
                    assert(vt[j] == pt(col(i2), row(i2)));
                }
                if vt.contains(pt(col(i2), row(i2))) {
                    let j = choose|j: int| 0 <= j < vt.len() && vt[j] == pt(col(i2), row(i2));
                    assert(idx_of(vt[j].x as int, vt[j].y as int) == i2);
                }
            }
        }
    }
}

} // verus!
