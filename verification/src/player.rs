use vstd::prelude::*;

use crate::RunState;
use crate::State;
use crate::components::Point;
use crate::components::Position;
use crate::components::Viewshed;
use crate::components::WantsToMelee;
use crate::components::WantsToPickupItem;
use crate::map::HEIGHT;
use crate::map::WIDTH;
use crate::map::idx_of;
use crate::world::World;

verus! {

/// One abstract command from the input layer.
#[derive(PartialEq, Eq, Structural, Clone, Copy, Debug)]
pub enum Command {
    Move { dx: i32, dy: i32 },
    PickUp,
    OpenInventory,
    OpenDropMenu,
}

/// The first entity in a tile's occupant list that can be fought.
pub open spec fn first_target(w: World, occupants: Seq<usize>) -> Option<usize>
    decreases occupants.len(),
{
    if occupants.len() == 0 {
        None
    } else if 0 <= occupants[0] < w.num_entities() && w.combat_stats[occupants[0] as int] is Some {
        Some(occupants[0])
    } else {
        first_target(w, occupants.drop_first())
    }
}

/// The last entity in a tile's occupant list that is an item.
pub open spec fn last_item(w: World, occupants: Seq<usize>) -> Option<usize>
    decreases occupants.len(),
{
    if occupants.len() == 0 {
        None
    } else if 0 <= occupants.last() < w.num_entities() && w.items[occupants.last() as int] is Some {
        Some(occupants.last())
    } else {
        last_item(w, occupants.drop_last())
    }
}

/// Where a move command sends the player, read off the state before the
/// call: attack the first fightable occupant of the destination tile, else
/// step there when it is neither blocked nor off the grid.
pub open spec fn move_destination(s: State, delta_x: int, delta_y: int) -> (int, int) {
    (s.ecs.positions[s.player_entity as int]->Some_0.x + delta_x, s.ecs.positions[s.player_entity as int]->Some_0.y + delta_y)
}

pub open spec fn move_attacks(s: State, delta_x: int, delta_y: int) -> Option<usize> {
    let (nx, ny) = move_destination(s, delta_x, delta_y);
    first_target(s.ecs, s.map.tile_content[idx_of(nx, ny)]@)
}

/// The player can step onto the destination: it is on the grid and not
/// blocked, and no occupant there is fightable.
pub open spec fn move_walks(s: State, delta_x: int, delta_y: int) -> bool {
    let (nx, ny) = move_destination(s, delta_x, delta_y);
    &&& 0 <= nx < WIDTH
    &&& 0 <= ny < HEIGHT
    &&& move_attacks(s, delta_x, delta_y) is None
    &&& !s.map.blocked[idx_of(nx, ny)]
}

/// What one player move step does to the whole game state, relating the
/// state before (`s0`) and after (`s1`): an off-grid or unpositioned move
/// changes nothing; a fightable occupant of the destination receives the
/// player's melee intent; a free destination is stepped onto, moving the
/// shared player position and dirtying the player's viewshed; a blocked
/// destination changes nothing; and everything else is left untouched.
#[verifier::opaque]
pub open spec fn moved_player(s0: State, delta_x: int, delta_y: int, s1: State) -> bool {
    &&& s1.wf()
    &&& (s0.ecs.positions[s0.player_entity as int] is None ==> s1 == s0)
    &&& ((s0.ecs.positions[s0.player_entity as int] is Some && ({
        let (nx, ny) = move_destination(s0, delta_x, delta_y);
        !(0 <= nx < WIDTH && 0 <= ny < HEIGHT)
    })) ==> s1 == s0)
    &&& ((s0.ecs.positions[s0.player_entity as int] is Some && ({
        let (nx, ny) = move_destination(s0, delta_x, delta_y);
        0 <= nx < WIDTH && 0 <= ny < HEIGHT
    })) ==> {
        let p = s0.player_entity as int;
        if move_attacks(s0, delta_x, delta_y) is Some {
            &&& s1.ecs.wants_to_melees@ == s0.ecs.wants_to_melees@.update(
                p,
                Some(WantsToMelee { target: move_attacks(s0, delta_x, delta_y)->Some_0 }),
            )
            &&& s1.ecs.positions == s0.ecs.positions
            &&& s1.ecs.viewsheds == s0.ecs.viewsheds
            &&& s1.player_pos == s0.player_pos
        } else if move_walks(s0, delta_x, delta_y) {
            let (nx, ny) = move_destination(s0, delta_x, delta_y);
            &&& s1.ecs.positions@ == s0.ecs.positions@.update(
                p,
                Some(Position { x: nx as i32, y: ny as i32 }),
            )
            &&& s1.player_pos == (Point { x: nx as i32, y: ny as i32 })
            &&& (s0.ecs.viewsheds[p] is Some ==> (s1.ecs.viewsheds[p] matches Some(v) && {
                &&& v.dirty
                &&& v.range == s0.ecs.viewsheds[p]->Some_0.range
                &&& v.visible_tiles == s0.ecs.viewsheds[p]->Some_0.visible_tiles
            }))
            &&& (s0.ecs.viewsheds[p] is None ==> s1.ecs.viewsheds[p] is None)
            &&& s1.ecs.wants_to_melees == s0.ecs.wants_to_melees
        } else {
            &&& s1.ecs.positions == s0.ecs.positions
            &&& s1.ecs.viewsheds == s0.ecs.viewsheds
            &&& s1.ecs.wants_to_melees == s0.ecs.wants_to_melees
            &&& s1.player_pos == s0.player_pos
        }
    })
    &&& s1.ecs.num_entities() == s0.ecs.num_entities()
    &&& (s0.ecs.items_placed() ==> s1.ecs.items_placed())
    &&& s1.ecs.alive == s0.ecs.alive
    &&& s1.ecs.renderables == s0.ecs.renderables
    &&& s1.ecs.players == s0.ecs.players
    &&& s1.ecs.monsters == s0.ecs.monsters
    &&& s1.ecs.names == s0.ecs.names
    &&& s1.ecs.blocks_tiles == s0.ecs.blocks_tiles
    &&& s1.ecs.combat_stats == s0.ecs.combat_stats
    &&& s1.ecs.suffer_damages == s0.ecs.suffer_damages
    &&& s1.ecs.items == s0.ecs.items
    &&& s1.ecs.provides_healings == s0.ecs.provides_healings
    &&& s1.ecs.in_backpacks == s0.ecs.in_backpacks
    &&& s1.ecs.wants_to_pickup_items == s0.ecs.wants_to_pickup_items
    &&& s1.ecs.wants_to_use_items == s0.ecs.wants_to_use_items
    &&& s1.ecs.wants_to_drop_items == s0.ecs.wants_to_drop_items
    &&& s1.ecs.consumables == s0.ecs.consumables
    &&& s1.ecs.inflicts_damages == s0.ecs.inflicts_damages
    &&& s1.ecs.rangeds == s0.ecs.rangeds
    &&& s1.ecs.areas_of_effect == s0.ecs.areas_of_effect
    &&& s1.ecs.confusions == s0.ecs.confusions
    &&& s1.map == s0.map
    &&& s1.run_state == s0.run_state
    &&& s1.player_entity == s0.player_entity
    &&& s1.log == s0.log
}

/// What one pickup command does: the last item lying on the player's tile,
/// if any, becomes the player's pending pickup intent; nothing else changes.
#[verifier::opaque]
pub open spec fn picked_up(s0: State, s1: State) -> bool {
    &&& s1.wf()
    &&& ({
        let tile = idx_of(s0.player_pos.x as int, s0.player_pos.y as int);
        let found = last_item(s0.ecs, s0.map.tile_content[tile]@);
        if found is Some {
            s1.ecs.wants_to_pickup_items@ == s0.ecs.wants_to_pickup_items@.update(
                s0.player_entity as int,
                Some(
                    WantsToPickupItem { collected_by: s0.player_entity, item: found->Some_0 },
                ),
            )
        } else {
            s1.ecs.wants_to_pickup_items == s0.ecs.wants_to_pickup_items
        }
    })
    &&& (s0.ecs.items_placed() ==> s1.ecs.items_placed())
    &&& s1.ecs.alive == s0.ecs.alive
    &&& s1.ecs.positions == s0.ecs.positions
    &&& s1.ecs.renderables == s0.ecs.renderables
    &&& s1.ecs.players == s0.ecs.players
    &&& s1.ecs.viewsheds == s0.ecs.viewsheds
    &&& s1.ecs.monsters == s0.ecs.monsters
    &&& s1.ecs.names == s0.ecs.names
    &&& s1.ecs.blocks_tiles == s0.ecs.blocks_tiles
    &&& s1.ecs.combat_stats == s0.ecs.combat_stats
    &&& s1.ecs.wants_to_melees == s0.ecs.wants_to_melees
    &&& s1.ecs.suffer_damages == s0.ecs.suffer_damages
    &&& s1.ecs.items == s0.ecs.items
    &&& s1.ecs.provides_healings == s0.ecs.provides_healings
    &&& s1.ecs.in_backpacks == s0.ecs.in_backpacks
    &&& s1.ecs.wants_to_use_items == s0.ecs.wants_to_use_items
    &&& s1.ecs.wants_to_drop_items == s0.ecs.wants_to_drop_items
    &&& s1.ecs.consumables == s0.ecs.consumables
    &&& s1.ecs.inflicts_damages == s0.ecs.inflicts_damages
    &&& s1.ecs.rangeds == s0.ecs.rangeds
    &&& s1.ecs.areas_of_effect == s0.ecs.areas_of_effect
    &&& s1.ecs.confusions == s0.ecs.confusions
    &&& s1.map == s0.map
    &&& s1.run_state == s0.run_state
    &&& s1.player_entity == s0.player_entity
    &&& s1.player_pos == s0.player_pos
    &&& s1.log == s0.log
}

/// What one frame of input handling does, relating the state before and
/// after and the scheduler state it hands back: no command changes nothing
/// and keeps waiting; an in-range move performs the player move step; a
/// pickup queues the pickup intent; the inventory command only opens the
/// menu; an out-of-range move changes nothing.
#[verifier::opaque]
pub open spec fn input_ran(s0: State, cmd: Option<Command>, s1: State, r: RunState) -> bool {
    &&& s1.wf()
    &&& (cmd is None ==> (r == RunState::AwaitingInput && s1 == s0))
    &&& (cmd matches Some(c) ==> match c {
        Command::Move { dx, dy } => {
            if -1 <= dx <= 1 && -1 <= dy <= 1 {
                r == RunState::PlayerTurn && moved_player(s0, dx as int, dy as int, s1)
            } else {
                r == RunState::AwaitingInput && s1 == s0
            }
        },
        Command::PickUp => r == RunState::PlayerTurn && picked_up(s0, s1),
        Command::OpenInventory => r == RunState::ShowInventory && s1 == s0,
        Command::OpenDropMenu => r == RunState::ShowDropItem && s1 == s0,
    })
}

/// Try to move the player one step: melee the first fightable occupant of
/// the destination tile, or walk onto it when it is free, updating the
/// shared player position and dirtying the player's viewshed; a blocked or
/// off-grid destination does nothing.
pub fn try_move_player(delta_x: i32, delta_y: i32, state: &mut State)
    requires
        old(state).wf(),
        -1 <= delta_x <= 1,
        -1 <= delta_y <= 1,
    ensures
        final(state).wf(),
        moved_player(*old(state), delta_x as int, delta_y as int, *final(state)),
        old(state).ecs.positions[old(state).player_entity as int] is None ==> *final(state) == *old(
            state,
        ),
        (old(state).ecs.positions[old(state).player_entity as int] is Some && ({
            let (nx, ny) = move_destination(*old(state), delta_x as int, delta_y as int);
            !(0 <= nx < WIDTH && 0 <= ny < HEIGHT)
        })) ==> *final(state) == *old(state),
        (old(state).ecs.positions[old(state).player_entity as int] is Some && ({
            let (nx, ny) = move_destination(*old(state), delta_x as int, delta_y as int);
            0 <= nx < WIDTH && 0 <= ny < HEIGHT
        })) ==> {
            let p = old(state).player_entity as int;
            if move_attacks(*old(state), delta_x as int, delta_y as int) is Some {
                &&& final(state).ecs.wants_to_melees@ == old(state).ecs.wants_to_melees@.update(
                    p,
                    Some(
                        WantsToMelee {
                            target: move_attacks(*old(state), delta_x as int, delta_y as int)->Some_0,
                        },
                    ),
                )
                &&& final(state).ecs.positions == old(state).ecs.positions
                &&& final(state).ecs.viewsheds == old(state).ecs.viewsheds
                &&& final(state).player_pos == old(state).player_pos
            } else if move_walks(*old(state), delta_x as int, delta_y as int) {
                let (nx, ny) = move_destination(*old(state), delta_x as int, delta_y as int);
                &&& final(state).ecs.positions@ == old(state).ecs.positions@.update(
                    p,
                    Some(Position { x: nx as i32, y: ny as i32 }),
                )
                &&& final(state).player_pos == (Point { x: nx as i32, y: ny as i32 })
                &&& (old(state).ecs.viewsheds[p] is Some ==> (final(state).ecs.viewsheds[p]
                    matches Some(v) && {
                    &&& v.dirty
                    &&& v.range == old(state).ecs.viewsheds[p]->Some_0.range
                    &&& v.visible_tiles == old(state).ecs.viewsheds[p]->Some_0.visible_tiles
                }))
                &&& (old(state).ecs.viewsheds[p] is None ==> final(state).ecs.viewsheds[p] is None)
                &&& final(state).ecs.wants_to_melees == old(state).ecs.wants_to_melees
            } else {
                &&& final(state).ecs.positions == old(state).ecs.positions
                &&& final(state).ecs.viewsheds == old(state).ecs.viewsheds
                &&& final(state).ecs.wants_to_melees == old(state).ecs.wants_to_melees
                &&& final(state).player_pos == old(state).player_pos
            }
        },
        final(state).ecs.num_entities() == old(state).ecs.num_entities(),
        old(state).ecs.items_placed() ==> final(state).ecs.items_placed(),
        final(state).ecs.alive == old(state).ecs.alive,
        final(state).ecs.renderables == old(state).ecs.renderables,
        final(state).ecs.players == old(state).ecs.players,
        final(state).ecs.monsters == old(state).ecs.monsters,
        final(state).ecs.names == old(state).ecs.names,
        final(state).ecs.blocks_tiles == old(state).ecs.blocks_tiles,
        final(state).ecs.combat_stats == old(state).ecs.combat_stats,
        final(state).ecs.suffer_damages == old(state).ecs.suffer_damages,
        final(state).ecs.items == old(state).ecs.items,
        final(state).ecs.provides_healings == old(state).ecs.provides_healings,
        final(state).ecs.in_backpacks == old(state).ecs.in_backpacks,
        final(state).ecs.wants_to_pickup_items == old(state).ecs.wants_to_pickup_items,
        final(state).ecs.wants_to_use_items == old(state).ecs.wants_to_use_items,
        final(state).ecs.wants_to_drop_items == old(state).ecs.wants_to_drop_items,
        final(state).ecs.consumables == old(state).ecs.consumables,
        final(state).ecs.inflicts_damages == old(state).ecs.inflicts_damages,
        final(state).ecs.rangeds == old(state).ecs.rangeds,
        final(state).ecs.areas_of_effect == old(state).ecs.areas_of_effect,
        final(state).ecs.confusions == old(state).ecs.confusions,
        final(state).map == old(state).map,
        final(state).run_state == old(state).run_state,
        final(state).player_entity == old(state).player_entity,
        final(state).log == old(state).log,
{
    proof {
        reveal(moved_player);
    }
    let player = state.player_entity;
    let pos = match state.ecs.positions[player] {
        Some(p) => p,
        None => {
            return ;
        },
    };
    let nx = pos.x + delta_x;
    let ny = pos.y + delta_y;
    if nx < 0 || nx >= WIDTH as i32 || ny < 0 || ny >= HEIGHT as i32 {
        return ;
    }
    let dest_idx = state.map.xy_idx(nx as usize, ny as usize);

    // a fightable occupant of the destination becomes a melee target
    let n = state.ecs.alive.len();
    let ghost occupants = state.map.tile_content[dest_idx as int]@;
    let count = state.map.tile_content[dest_idx].len();
    proof {
        assert(occupants.skip(0) =~= occupants);
    }
    let mut k: usize = 0;
    while k < count
        invariant
            state.wf(),
            n == state.ecs.num_entities(),
            player == state.player_entity,
            dest_idx < WIDTH * HEIGHT,
            occupants == state.map.tile_content[dest_idx as int]@,
            count == occupants.len(),
            k <= count,
            first_target(state.ecs, occupants) == first_target(state.ecs, occupants.skip(k as int)),
            old(state).ecs.positions[old(state).player_entity as int] is Some,
            nx as int == move_destination(*old(state), delta_x as int, delta_y as int).0,
            ny as int == move_destination(*old(state), delta_x as int, delta_y as int).1,
            0 <= nx < WIDTH,
            0 <= ny < HEIGHT,
            dest_idx == idx_of(nx as int, ny as int),
            state.ecs == old(state).ecs,
            state.map == old(state).map,
            state.player_pos == old(state).player_pos,
            state.run_state == old(state).run_state,
            state.player_entity == old(state).player_entity,
            state.log == old(state).log,
        decreases count - k,
    {
        let t = state.map.tile_content[dest_idx][k];
        let fightable = t < n && state.ecs.combat_stats[t].is_some();
        proof {
            reveal(moved_player);
            assert(occupants.skip(k as int)[0] == occupants[k as int]);
            assert(occupants.skip(k as int).drop_first() =~= occupants.skip(k + 1));
        }
        if fightable {
            state.ecs.wants_to_melees[player] = Some(WantsToMelee { target: t });
            return ;
        }
        k = k + 1;
    }
    proof {
        reveal(moved_player);
        assert(occupants.skip(count as int) =~= Seq::<usize>::empty());
    }

    if !state.map.blocked[dest_idx] {
        state.ecs.positions[player] = Some(Position { x: nx, y: ny });
        state.player_pos = Point { x: nx, y: ny };
        let ghost vsprev = state.ecs.viewsheds@;
        let slot = state.ecs.viewsheds.remove(player);
        if let Some(vs) = slot {
            state.ecs.viewsheds.insert(
                player,
                Some(Viewshed { range: vs.range, visible_tiles: vs.visible_tiles, dirty: true }),
            );
        } else {
            state.ecs.viewsheds.insert(player, None);
        }
        proof {
            assert(vsprev == old(state).ecs.viewsheds@);
            assert(state.ecs.viewsheds@ =~= vsprev.update(
                player as int,
                state.ecs.viewsheds@[player as int],
            ));
        }
    }
}

/// Queue a pickup intent for the last item lying on the player's tile, if
/// any.
fn get_item(state: &mut State)
    requires
        old(state).wf(),
    ensures
        final(state).wf(),
        picked_up(*old(state), *final(state)),
        ({
            let tile = idx_of(old(state).player_pos.x as int, old(state).player_pos.y as int);
            let found = last_item(old(state).ecs, old(state).map.tile_content[tile]@);
            if found is Some {
                final(state).ecs.wants_to_pickup_items@ == old(
                    state,
                ).ecs.wants_to_pickup_items@.update(
                    old(state).player_entity as int,
                    Some(
                        WantsToPickupItem {
                            collected_by: old(state).player_entity,
                            item: found->Some_0,
                        },
                    ),
                )
            } else {
                final(state).ecs.wants_to_pickup_items == old(state).ecs.wants_to_pickup_items
            }
        }),
        old(state).ecs.items_placed() ==> final(state).ecs.items_placed(),
        final(state).ecs.alive == old(state).ecs.alive,
        final(state).ecs.positions == old(state).ecs.positions,
        final(state).ecs.renderables == old(state).ecs.renderables,
        final(state).ecs.players == old(state).ecs.players,
        final(state).ecs.viewsheds == old(state).ecs.viewsheds,
        final(state).ecs.monsters == old(state).ecs.monsters,
        final(state).ecs.names == old(state).ecs.names,
        final(state).ecs.blocks_tiles == old(state).ecs.blocks_tiles,
        final(state).ecs.combat_stats == old(state).ecs.combat_stats,
        final(state).ecs.wants_to_melees == old(state).ecs.wants_to_melees,
        final(state).ecs.suffer_damages == old(state).ecs.suffer_damages,
        final(state).ecs.items == old(state).ecs.items,
        final(state).ecs.provides_healings == old(state).ecs.provides_healings,
        final(state).ecs.in_backpacks == old(state).ecs.in_backpacks,
        final(state).ecs.wants_to_use_items == old(state).ecs.wants_to_use_items,
        final(state).ecs.wants_to_drop_items == old(state).ecs.wants_to_drop_items,
        final(state).ecs.consumables == old(state).ecs.consumables,
        final(state).ecs.inflicts_damages == old(state).ecs.inflicts_damages,
        final(state).ecs.rangeds == old(state).ecs.rangeds,
        final(state).ecs.areas_of_effect == old(state).ecs.areas_of_effect,
        final(state).ecs.confusions == old(state).ecs.confusions,
        final(state).map == old(state).map,
        final(state).run_state == old(state).run_state,
        final(state).player_entity == old(state).player_entity,
        final(state).player_pos == old(state).player_pos,
        final(state).log == old(state).log,
{
    proof {
        reveal(picked_up);
    }
    let player = state.player_entity;
    let ppos = state.player_pos;
    let tile = state.map.xy_idx(ppos.x as usize, ppos.y as usize);
    let n = state.ecs.alive.len();
    let ghost occupants = state.map.tile_content[tile as int]@;
    let count = state.map.tile_content[tile].len();
    proof {
        assert(occupants.take(count as int) =~= occupants);
    }
    let mut k: usize = count;
    while k > 0
        invariant
            state.wf(),
            n == state.ecs.num_entities(),
            player == state.player_entity,
            tile < WIDTH * HEIGHT,
            occupants == state.map.tile_content[tile as int]@,
            count == occupants.len(),
            k <= count,
            last_item(state.ecs, occupants) == last_item(state.ecs, occupants.take(k as int)),
            tile == idx_of(old(state).player_pos.x as int, old(state).player_pos.y as int),
            state.ecs == old(state).ecs,
            state.map == old(state).map,
            state.player_pos == old(state).player_pos,
            state.run_state == old(state).run_state,
            state.player_entity == old(state).player_entity,
            state.log == old(state).log,
        decreases k,
    {
        let t = state.map.tile_content[tile][k - 1];
        let is_item = t < n && state.ecs.items[t].is_some();
        proof {
            reveal(picked_up);
            assert(occupants.take(k as int).last() == occupants[k - 1]);
            assert(occupants.take(k as int).drop_last() =~= occupants.take(k - 1));
        }
        if is_item {
            state.ecs.wants_to_pickup_items[player] = Some(
                WantsToPickupItem { collected_by: player, item: t },
            );
            return ;
        }
        k = k - 1;
    }
    proof {
        reveal(picked_up);
        assert(occupants.take(0) =~= Seq::<usize>::empty());
    }
}

/// Turn one frame's command into the player's action and the next scheduler
/// state: movement and pickup commands take the player's turn, the inventory
/// command opens the menu, and anything else keeps waiting.
pub fn player_input(state: &mut State, cmd: Option<Command>) -> (r: RunState)
    requires
        old(state).wf(),
    ensures
        final(state).wf(),
        input_ran(*old(state), cmd, *final(state), r),
        cmd is None ==> (r == RunState::AwaitingInput && *final(state) == *old(state)),
        cmd matches Some(c) ==> match c {
            Command::Move { dx, dy } => {
                if -1 <= dx <= 1 && -1 <= dy <= 1 {
                    r == RunState::PlayerTurn
                } else {
                    r == RunState::AwaitingInput && *final(state) == *old(state)
                }
            },
            Command::PickUp => r == RunState::PlayerTurn,
            Command::OpenInventory => r == RunState::ShowInventory && *final(state) == *old(state),
            Command::OpenDropMenu => r == RunState::ShowDropItem && *final(state) == *old(state),
        },
        final(state).ecs.num_entities() == old(state).ecs.num_entities(),
        old(state).ecs.items_placed() ==> final(state).ecs.items_placed(),
        final(state).run_state == old(state).run_state,
        final(state).player_entity == old(state).player_entity,
        final(state).map == old(state).map,
        final(state).log == old(state).log,
{
    proof {
        reveal(input_ran);
    }
    match cmd {
        None => RunState::AwaitingInput,
        Some(Command::Move { dx, dy }) => {
            if -1 <= dx && dx <= 1 && -1 <= dy && dy <= 1 {
                try_move_player(dx, dy, state);
                RunState::PlayerTurn
            } else {
                RunState::AwaitingInput
            }
        },
        Some(Command::PickUp) => {
            get_item(state);
            RunState::PlayerTurn
        },
        Some(Command::OpenInventory) => RunState::ShowInventory,
        Some(Command::OpenDropMenu) => RunState::ShowDropItem,
    }
}

} // verus!
