use vstd::prelude::*;

use crate::RunState;
use crate::State;
use crate::components::Confusion;
use crate::components::Point;
use crate::components::Viewshed;
use crate::components::WantsToMelee;
use crate::fov::cheb;
use crate::fov::dist2;
use crate::map::GameMap;
use crate::map::idx_of;
use crate::map::lemma_xy_idx_roundtrip;
use crate::pathfind::find_path;
use crate::pathfind::valid_path;
use crate::world::World;

verus! {

/// Entity `e` takes a monster turn: alive, a monster, sighted, positioned.
pub open spec fn is_ai_actor(w: World, e: int) -> bool {
    &&& w.is_alive(e)
    &&& w.monsters[e] is Some
    &&& w.viewsheds[e] is Some
    &&& w.positions[e] is Some
}

/// What one monster does with its turn, relating its slots before (`w0`)
/// and after (`w1`):
/// - a confused monster only counts its confusion down, shedding it at zero;
/// - a monster adjacent to the player (Euclidean distance below 1.5, i.e.
///   squared distance at most 2) queues a melee intent and stays put;
/// - one that sees the player farther away, when any walk to the player's
///   tile exists, steps one king move into an enterable tile and marks its
///   viewshed dirty; it stays put exactly when no such walk exists;
/// - anything else, and any non-actor, is left untouched.
pub open spec fn ai_acted(
    w0: World,
    map: GameMap,
    ppos: Point,
    player: int,
    w1: World,
    e: int,
) -> bool {
    if !is_ai_actor(w0, e) {
        &&& w1.positions[e] == w0.positions[e]
        &&& w1.viewsheds[e] == w0.viewsheds[e]
        &&& w1.confusions[e] == w0.confusions[e]
        &&& w1.wants_to_melees[e] == w0.wants_to_melees[e]
    } else if w0.confusions[e] is Some {
        &&& w1.confusions[e] == (if w0.confusions[e]->Some_0.turns <= 1 {
            None
        } else {
            Some(Confusion { turns: (w0.confusions[e]->Some_0.turns - 1) as u32 })
        })
        &&& w1.positions[e] == w0.positions[e]
        &&& w1.viewsheds[e] == w0.viewsheds[e]
        &&& w1.wants_to_melees[e] == w0.wants_to_melees[e]
    } else if dist2(
        w0.positions[e]->Some_0.x as int,
        w0.positions[e]->Some_0.y as int,
        ppos.x as int,
        ppos.y as int,
    ) <= 2 {
        &&& w1.wants_to_melees[e] == Some(WantsToMelee { target: player as usize })
        &&& w1.positions[e] == w0.positions[e]
        &&& w1.viewsheds[e] == w0.viewsheds[e]
        &&& w1.confusions[e] == w0.confusions[e]
    } else if w0.viewsheds[e]->Some_0.visible_tiles@.contains(ppos) {
        let sx = w0.positions[e]->Some_0.x as int;
        let sy = w0.positions[e]->Some_0.y as int;
        &&& w1.wants_to_melees[e] == w0.wants_to_melees[e]
        &&& w1.confusions[e] == w0.confusions[e]
        &&& (if exists|q: Seq<usize>|
            valid_path(map, q, idx_of(sx, sy), idx_of(ppos.x as int, ppos.y as int)) {
            &&& w1.positions[e] matches Some(p) && {
                &&& cheb(sx, sy, p.x as int, p.y as int) == 1
                &&& map.spec_exit_valid(p.x as int, p.y as int)
            }
            &&& w1.viewsheds[e] matches Some(v) && {
                &&& v.dirty
                &&& v.range == w0.viewsheds[e]->Some_0.range
                &&& v.visible_tiles == w0.viewsheds[e]->Some_0.visible_tiles
            }
        } else {
            &&& w1.positions[e] == w0.positions[e]
            &&& w1.viewsheds[e] == w0.viewsheds[e]
        })
    } else {
        &&& w1.positions[e] == w0.positions[e]
        &&& w1.viewsheds[e] == w0.viewsheds[e]
        &&& w1.confusions[e] == w0.confusions[e]
        &&& w1.wants_to_melees[e] == w0.wants_to_melees[e]
    }
}

fn contains_point(v: &Vec<Point>, p: Point) -> (r: bool)
    ensures
        r == v@.contains(p),
{
    let mut k: usize = 0;
    while k < v.len()
        invariant
            k <= v@.len(),
            forall|j: int| 0 <= j < k ==> v@[j] != p,
        decreases v@.len() - k,
    {
        if v[k].x == p.x && v[k].y == p.y {
            assert(v@[k as int] == p);
            return true;
        }
        k = k + 1;
    }
    false
}

/// One monster-turn pass, relating the whole state before (`s0`) and after
/// (`s1`): outside the monster phase nothing changes; in it, every entity
/// acts per `ai_acted` and everything else is untouched.
#[verifier::opaque]
pub open spec fn ai_ran(s0: State, s1: State) -> bool {
    &&& s1.wf()
    &&& (s0.run_state != RunState::MonsterTurn ==> s1 == s0)
    &&& (s0.run_state == RunState::MonsterTurn ==> {
        &&& forall|e: int|
            0 <= e < s0.ecs.num_entities() ==> ai_acted(
                s0.ecs,
                s0.map,
                s0.player_pos,
                s0.player_entity as int,
                s1.ecs,
                e,
            )
        &&& s1.ecs.num_entities() == s0.ecs.num_entities()
        &&& s1.ecs.alive == s0.ecs.alive
        &&& s1.ecs.renderables == s0.ecs.renderables
        &&& s1.ecs.players == s0.ecs.players
        &&& s1.ecs.monsters == s0.ecs.monsters
        &&& s1.ecs.names == s0.ecs.names
        &&& s1.ecs.blocks_tiles == s0.ecs.blocks_tiles
        &&& s1.ecs.combat_stats == s0.ecs.combat_stats
        &&& s1.ecs.suffer_damages == s0.ecs.suffer_damages
        &&& s1.ecs.items == s0.ecs.items
        &&& s1.ecs.provides_healings == s0.ecs.provides_healings
        &&& s1.ecs.in_backpacks == s0.ecs.in_backpacks
        &&& s1.ecs.wants_to_pickup_items == s0.ecs.wants_to_pickup_items
        &&& s1.ecs.wants_to_use_items == s0.ecs.wants_to_use_items
        &&& s1.ecs.wants_to_drop_items == s0.ecs.wants_to_drop_items
        &&& s1.ecs.consumables == s0.ecs.consumables
        &&& s1.ecs.inflicts_damages == s0.ecs.inflicts_damages
        &&& s1.ecs.rangeds == s0.ecs.rangeds
        &&& s1.ecs.areas_of_effect == s0.ecs.areas_of_effect
    })
    &&& s1.map == s0.map
    &&& s1.run_state == s0.run_state
    &&& s1.player_entity == s0.player_entity
    &&& s1.player_pos == s0.player_pos
    &&& s1.log == s0.log
}

/// Runs the monsters' turns: acts only when the scheduler is in the monster
/// phase, and lets each monster count down confusion, queue a melee intent
/// against an adjacent player, or take one step along a path toward a
/// visible player.
pub struct MonsterAISystem {}

impl MonsterAISystem {
    pub fn run(state: &mut State)
        requires
            old(state).wf(),
        ensures
            final(state).wf(),
            ai_ran(*old(state), *final(state)),
            old(state).run_state != RunState::MonsterTurn ==> *final(state) == *old(state),
            old(state).run_state == RunState::MonsterTurn ==> {
                &&& forall|e: int|
                    0 <= e < old(state).ecs.num_entities() ==> ai_acted(
                        old(state).ecs,
                        old(state).map,
                        old(state).player_pos,
                        old(state).player_entity as int,
                        final(state).ecs,
                        e,
                    )
                &&& final(state).ecs.num_entities() == old(state).ecs.num_entities()
                &&& final(state).ecs.alive == old(state).ecs.alive
                &&& final(state).ecs.renderables == old(state).ecs.renderables
                &&& final(state).ecs.players == old(state).ecs.players
                &&& final(state).ecs.monsters == old(state).ecs.monsters
                &&& final(state).ecs.names == old(state).ecs.names
                &&& final(state).ecs.blocks_tiles == old(state).ecs.blocks_tiles
                &&& final(state).ecs.combat_stats == old(state).ecs.combat_stats
                &&& final(state).ecs.suffer_damages == old(state).ecs.suffer_damages
                &&& final(state).ecs.items == old(state).ecs.items
                &&& final(state).ecs.provides_healings == old(state).ecs.provides_healings
                &&& final(state).ecs.in_backpacks == old(state).ecs.in_backpacks
                &&& final(state).ecs.wants_to_pickup_items == old(state).ecs.wants_to_pickup_items
                &&& final(state).ecs.wants_to_use_items == old(state).ecs.wants_to_use_items
                &&& final(state).ecs.wants_to_drop_items == old(state).ecs.wants_to_drop_items
                &&& final(state).ecs.consumables == old(state).ecs.consumables
                &&& final(state).ecs.inflicts_damages == old(state).ecs.inflicts_damages
                &&& final(state).ecs.rangeds == old(state).ecs.rangeds
                &&& final(state).ecs.areas_of_effect == old(state).ecs.areas_of_effect
            },
            final(state).map == old(state).map,
            final(state).run_state == old(state).run_state,
            final(state).player_entity == old(state).player_entity,
            final(state).player_pos == old(state).player_pos,
            final(state).log == old(state).log,
    {
        proof {
            reveal(ai_ran);
        }
        if !matches!(state.run_state, RunState::MonsterTurn) {
            return ;
        }

        let ghost w = state.ecs;
        let ghost map0 = state.map;
        let ghost ppos = state.player_pos;
        let ghost player = state.player_entity as int;
        let n = state.ecs.alive.len();
        let mut e: usize = 0;
        while e < n
            invariant
                state.wf(),
                n == state.ecs.num_entities(),
                e <= n,
                w == old(state).ecs,
                map0 == old(state).map,
                ppos == state.player_pos,
                player == state.player_entity as int,
                forall|e2: int| 0 <= e2 < e ==> ai_acted(w, map0, ppos, player, state.ecs, e2),
                forall|e2: int|
                    e <= e2 < n ==> (#[trigger] state.ecs.positions[e2]) == w.positions[e2],
                forall|e2: int|
                    e <= e2 < n ==> (#[trigger] state.ecs.viewsheds[e2]) == w.viewsheds[e2],
                forall|e2: int|
                    e <= e2 < n ==> (#[trigger] state.ecs.confusions[e2]) == w.confusions[e2],
                forall|e2: int|
                    e <= e2 < n ==> (#[trigger] state.ecs.wants_to_melees[e2])
                        == w.wants_to_melees[e2],
                state.ecs.alive == w.alive,
                state.ecs.renderables == w.renderables,
                state.ecs.players == w.players,
                state.ecs.monsters == w.monsters,
                state.ecs.names == w.names,
                state.ecs.blocks_tiles == w.blocks_tiles,
                state.ecs.combat_stats == w.combat_stats,
                state.ecs.suffer_damages == w.suffer_damages,
                state.ecs.items == w.items,
                state.ecs.provides_healings == w.provides_healings,
                state.ecs.in_backpacks == w.in_backpacks,
                state.ecs.wants_to_pickup_items == w.wants_to_pickup_items,
                state.ecs.wants_to_use_items == w.wants_to_use_items,
                state.ecs.wants_to_drop_items == w.wants_to_drop_items,
                state.ecs.consumables == w.consumables,
                state.ecs.inflicts_damages == w.inflicts_damages,
                state.ecs.rangeds == w.rangeds,
                state.ecs.areas_of_effect == w.areas_of_effect,
                state.map == old(state).map,
                state.run_state == old(state).run_state,
                state.player_entity == old(state).player_entity,
                state.player_pos == old(state).player_pos,
                state.log == old(state).log,
            decreases n - e,
        {
            let ghost pre = state.ecs;
            let acts = state.ecs.alive[e] && state.ecs.monsters[e].is_some()
                && state.ecs.viewsheds[e].is_some() && state.ecs.positions[e].is_some();
            if acts {
                if let Some(confusion) = state.ecs.confusions[e] {
                    if confusion.turns <= 1 {
                        state.ecs.confusions[e] = None;
                    } else {
                        state.ecs.confusions[e] = Some(Confusion { turns: confusion.turns - 1 });
                    }
                } else {
                    let pos = state.ecs.positions[e].unwrap();
                    let ppos_now = state.player_pos;
                    let dx = pos.x - ppos_now.x;
                    let dy = pos.y - ppos_now.y;
                    proof {
                        assert(0 <= dx * dx <= 10000 && 0 <= dy * dy <= 10000) by (nonlinear_arith)
                            requires
                                -100 <= dx <= 100,
                                -100 <= dy <= 100,
                        {
                        }
                    }
                    let d2 = dx * dx + dy * dy;
                    if d2 <= 2 {
                        let target = state.player_entity;
                        state.ecs.wants_to_melees[e] = Some(WantsToMelee { target });
                    } else {
                        let sees_player = match &state.ecs.viewsheds[e] {
                            Some(vs) => contains_point(&vs.visible_tiles, ppos_now),
                            None => false,
                        };
                        if sees_player {
                            let start = state.map.xy_idx(pos.x as usize, pos.y as usize);
                            let goal = state.map.xy_idx(
                                ppos_now.x as usize,
                                ppos_now.y as usize,
                            );
                            let path = find_path(&state.map, start, goal);
                            proof {
                                // with the player more than a king move away, start and
                                // goal are different tiles, so any walk has a second step
                                lemma_xy_idx_roundtrip(pos.x as int, pos.y as int);
                                lemma_xy_idx_roundtrip(ppos_now.x as int, ppos_now.y as int);
                            }
                            if let Some(p) = path {
                                if p.len() > 1 {
                                    let step = p[1];
                                    let (sx, sy) = state.map.idx_xy(step);
                                    proof {
                                        lemma_xy_idx_roundtrip(pos.x as int, pos.y as int);
                                        assert(crate::pathfind::step_ok(
                                            map0,
                                            p@[0] as int,
                                            p@[1] as int,
                                        ));
                                    }
                                    state.ecs.positions[e] = Some(
                                        crate::components::Position {
                                            x: sx as i32,
                                            y: sy as i32,
                                        },
                                    );
                                    let slot = state.ecs.viewsheds.remove(e);
                                    let vs = match slot {
                                        Some(vs) => vs,
                                        None => Viewshed {
                                            range: 0,
                                            visible_tiles: Vec::new(),
                                            dirty: true,
                                        },
                                    };
                                    state.ecs.viewsheds.insert(
                                        e,
                                        Some(
                                            Viewshed {
                                                range: vs.range,
                                                visible_tiles: vs.visible_tiles,
                                                dirty: true,
                                            },
                                        ),
                                    );
                                    proof {
                                        assert(state.ecs.viewsheds@ =~= pre.viewsheds@.update(
                                            e as int,
                                            state.ecs.viewsheds@[e as int],
                                        ));
                                    }
                                } else {
                                    proof {
                                        // impossible: a one-tile walk would put the monster
                                        // on the player's tile, within melee reach
                                        assert(p@.len() == 1);
                                        assert(start == goal);
                                        assert(pos.x == ppos_now.x && pos.y == ppos_now.y);
                                        assert(dx == 0 && dy == 0);
                                        assert(dx * dx == 0 && dy * dy == 0) by (nonlinear_arith)
                                            requires
                                                dx == 0,
                                                dy == 0,
                                        {
                                        }
                                        assert(false);
                                    }
                                }
                            }
                        }
                    }
                }
            }
            proof {
                assert forall|e2: int| e + 1 <= e2 < n implies (
                #[trigger] state.ecs.positions[e2]) == w.positions[e2] by {
                    assert(state.ecs.positions[e2] == pre.positions[e2]);
                }
                assert forall|e2: int| e + 1 <= e2 < n implies (
                #[trigger] state.ecs.viewsheds[e2]) == w.viewsheds[e2] by {
                    assert(state.ecs.viewsheds[e2] == pre.viewsheds[e2]);
                }
                assert forall|e2: int| e + 1 <= e2 < n implies (
                #[trigger] state.ecs.confusions[e2]) == w.confusions[e2] by {
                    assert(state.ecs.confusions[e2] == pre.confusions[e2]);
                }
                assert forall|e2: int| e + 1 <= e2 < n implies (
                #[trigger] state.ecs.wants_to_melees[e2]) == w.wants_to_melees[e2] by {
                    assert(state.ecs.wants_to_melees[e2] == pre.wants_to_melees[e2]);
                }
                assert(ai_acted(w, map0, ppos, player, state.ecs, e as int));
                assert forall|e2: int|
                    0 <= e2 < e + 1 implies ai_acted(w, map0, ppos, player, state.ecs, e2) by {
                    if e2 < e {
                        assert(ai_acted(w, map0, ppos, player, pre, e2));
                    }
                }
            }
            e = e + 1;
        }
    }
}

} // verus!
