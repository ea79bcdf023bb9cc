use vstd::prelude::*;

use vstd::math::min;

use crate::State;
use crate::components::InBackpack;
use crate::components::LogEntry;
use crate::components::Point;
use crate::components::CombatStats;
use crate::components::Confusion;
use crate::components::Position;
use crate::components::SufferDamage;
use crate::components::WantsToUseItem;
use crate::components::suffer_seq;
use crate::fov::visible_from;
use crate::map::GameMap;
use crate::map::HEIGHT;
use crate::map::WIDTH;
use crate::map::idx_of;
use crate::world::World;

verus! {

/// Entity `e` holds a pickup intent naming an existing item entity.
pub open spec fn pickup_at(w: World, e: int) -> bool {
    &&& w.wants_to_pickup_items[e] is Some
    &&& 0 <= w.wants_to_pickup_items[e]->Some_0.item < w.num_entities()
}

pub open spec fn pickup_item(w: World, e: int) -> int {
    w.wants_to_pickup_items[e]->Some_0.item as int
}

pub open spec fn pickup_owner(w: World, e: int) -> usize {
    w.wants_to_pickup_items[e]->Some_0.collected_by
}

/// The ground-position storage after the pickup intents of the first `k`
/// entities are honored: each collected item loses its position.
pub open spec fn positions_after_pickups(w: World, k: int) -> Seq<Option<Position>>
    decreases k,
{
    if k <= 0 {
        w.positions@
    } else {
        let prev = positions_after_pickups(w, k - 1);
        if pickup_at(w, k - 1) {
            prev.update(pickup_item(w, k - 1), None)
        } else {
            prev
        }
    }
}

/// The backpack storage after those pickups: each collected item is carried
/// by its collector.
pub open spec fn backpacks_after_pickups(w: World, k: int) -> Seq<Option<InBackpack>>
    decreases k,
{
    if k <= 0 {
        w.in_backpacks@
    } else {
        let prev = backpacks_after_pickups(w, k - 1);
        if pickup_at(w, k - 1) {
            prev.update(pickup_item(w, k - 1), Some(InBackpack { owner: pickup_owner(w, k - 1) }))
        } else {
            prev
        }
    }
}

/// The pickup messages, in collector order: one for each item the player
/// collects.
pub open spec fn pickup_log_upto(w: World, player: int, k: int) -> Seq<LogEntry>
    decreases k,
{
    if k <= 0 {
        Seq::empty()
    } else {
        let prefix = pickup_log_upto(w, player, k - 1);
        if pickup_at(w, k - 1) && pickup_owner(w, k - 1) as int == player {
            prefix.push(
                LogEntry::PickedUp { by: pickup_owner(w, k - 1), item: (pickup_item(w, k - 1)) as usize },
            )
        } else {
            prefix
        }
    }
}

/// Each position/backpack slot after the pickups: collected items end up
/// carried and off the ground; everything else keeps its old slots.
pub proof fn lemma_pickups_at(w: World, k: int, e: int)
    requires
        w.wf(),
        0 <= e < w.num_entities(),
        0 <= k <= w.num_entities(),
    ensures
        positions_after_pickups(w, k).len() == w.positions@.len(),
        backpacks_after_pickups(w, k).len() == w.in_backpacks@.len(),
        (positions_after_pickups(w, k)[e] == w.positions[e] && backpacks_after_pickups(w, k)[e]
            == w.in_backpacks[e]) || (positions_after_pickups(w, k)[e] is None
            && backpacks_after_pickups(w, k)[e] is Some),
    decreases k,
{
    if k > 0 {
        lemma_pickups_at(w, k - 1, e);
    }
}

/// Moves every picked-up item off the ground and into its collector's
/// backpack, logging the player's own pickups, then consumes all pickup
/// intents.
/// One pickup pass, relating the whole state before (`s0`) and after (`s1`):
/// each picked item leaves the ground for its collector's backpack in entity
/// order, every pickup is logged, all pickup intents are consumed, and
/// nothing else changes.
#[verifier::opaque]
pub open spec fn collect_ran(s0: State, s1: State) -> bool {
    &&& s1.wf()
    &&& s1.ecs.positions@ == positions_after_pickups(s0.ecs, s0.ecs.num_entities())
    &&& s1.ecs.in_backpacks@ == backpacks_after_pickups(s0.ecs, s0.ecs.num_entities())
    &&& s1.log.entries@ == s0.log.entries@ + pickup_log_upto(
        s0.ecs,
        s0.player_entity as int,
        s0.ecs.num_entities(),
    )
    &&& forall|e: int|
        0 <= e < s0.ecs.num_entities() ==> (#[trigger] s1.ecs.wants_to_pickup_items[e]) is None
    &&& (s0.ecs.items_placed() ==> s1.ecs.items_placed())
    &&& s1.ecs.alive == s0.ecs.alive
    &&& s1.ecs.renderables == s0.ecs.renderables
    &&& s1.ecs.players == s0.ecs.players
    &&& s1.ecs.viewsheds == s0.ecs.viewsheds
    &&& s1.ecs.monsters == s0.ecs.monsters
    &&& s1.ecs.names == s0.ecs.names
    &&& s1.ecs.blocks_tiles == s0.ecs.blocks_tiles
    &&& s1.ecs.combat_stats == s0.ecs.combat_stats
    &&& s1.ecs.wants_to_melees == s0.ecs.wants_to_melees
    &&& s1.ecs.suffer_damages == s0.ecs.suffer_damages
    &&& s1.ecs.items == s0.ecs.items
    &&& s1.ecs.provides_healings == s0.ecs.provides_healings
    &&& s1.ecs.wants_to_use_items == s0.ecs.wants_to_use_items
    &&& s1.ecs.wants_to_drop_items == s0.ecs.wants_to_drop_items
    &&& s1.ecs.consumables == s0.ecs.consumables
    &&& s1.ecs.inflicts_damages == s0.ecs.inflicts_damages
    &&& s1.ecs.rangeds == s0.ecs.rangeds
    &&& s1.ecs.areas_of_effect == s0.ecs.areas_of_effect
    &&& s1.ecs.confusions == s0.ecs.confusions
    &&& s1.map == s0.map
    &&& s1.run_state == s0.run_state
    &&& s1.player_entity == s0.player_entity
    &&& s1.player_pos == s0.player_pos
}

pub struct ItemCollectionSystem {}

impl ItemCollectionSystem {
    pub fn run(state: &mut State)
        requires
            old(state).wf(),
        ensures
            final(state).wf(),
            collect_ran(*old(state), *final(state)),
            final(state).ecs.positions@ == positions_after_pickups(
                old(state).ecs,
                old(state).ecs.num_entities(),
            ),
            final(state).ecs.in_backpacks@ == backpacks_after_pickups(
                old(state).ecs,
                old(state).ecs.num_entities(),
            ),
            final(state).log.entries@ == old(state).log.entries@ + pickup_log_upto(
                old(state).ecs,
                old(state).player_entity as int,
                old(state).ecs.num_entities(),
            ),
            forall|e: int|
                0 <= e < old(state).ecs.num_entities() ==> (#[trigger] final(state).ecs.wants_to_pickup_items[e]) is None,
            old(state).ecs.items_placed() ==> final(state).ecs.items_placed(),
            final(state).ecs.alive == old(state).ecs.alive,
            final(state).ecs.renderables == old(state).ecs.renderables,
            final(state).ecs.players == old(state).ecs.players,
            final(state).ecs.viewsheds == old(state).ecs.viewsheds,
            final(state).ecs.monsters == old(state).ecs.monsters,
            final(state).ecs.names == old(state).ecs.names,
            final(state).ecs.blocks_tiles == old(state).ecs.blocks_tiles,
            final(state).ecs.combat_stats == old(state).ecs.combat_stats,
            final(state).ecs.wants_to_melees == old(state).ecs.wants_to_melees,
            final(state).ecs.suffer_damages == old(state).ecs.suffer_damages,
            final(state).ecs.items == old(state).ecs.items,
            final(state).ecs.provides_healings == old(state).ecs.provides_healings,
            final(state).ecs.wants_to_use_items == old(state).ecs.wants_to_use_items,
            final(state).ecs.wants_to_drop_items == old(state).ecs.wants_to_drop_items,
            final(state).ecs.consumables == old(state).ecs.consumables,
            final(state).ecs.inflicts_damages == old(state).ecs.inflicts_damages,
            final(state).ecs.rangeds == old(state).ecs.rangeds,
            final(state).ecs.areas_of_effect == old(state).ecs.areas_of_effect,
            final(state).ecs.confusions == old(state).ecs.confusions,
            final(state).map == old(state).map,
            final(state).run_state == old(state).run_state,
            final(state).player_entity == old(state).player_entity,
            final(state).player_pos == old(state).player_pos,
    {
        proof {
            reveal(collect_ran);
        }
        let ghost w = state.ecs;
        let ghost player = state.player_entity as int;
        let ghost log0 = state.log.entries@;
        let n = state.ecs.alive.len();
        let mut e: usize = 0;
        while e < n
            invariant
                state.wf(),
                n == state.ecs.num_entities(),
                e <= n,
                w == old(state).ecs,
                player == state.player_entity as int,
                state.ecs.positions@ == positions_after_pickups(w, e as int),
                state.ecs.in_backpacks@ == backpacks_after_pickups(w, e as int),
                state.log.entries@ == log0 + pickup_log_upto(w, player, e as int),
                state.ecs.alive == w.alive,
                state.ecs.renderables == w.renderables,
                state.ecs.players == w.players,
                state.ecs.viewsheds == w.viewsheds,
                state.ecs.monsters == w.monsters,
                state.ecs.names == w.names,
                state.ecs.blocks_tiles == w.blocks_tiles,
                state.ecs.combat_stats == w.combat_stats,
                state.ecs.wants_to_melees == w.wants_to_melees,
                state.ecs.suffer_damages == w.suffer_damages,
                state.ecs.items == w.items,
                state.ecs.provides_healings == w.provides_healings,
                state.ecs.wants_to_pickup_items == w.wants_to_pickup_items,
                state.ecs.wants_to_use_items == w.wants_to_use_items,
                state.ecs.wants_to_drop_items == w.wants_to_drop_items,
                state.ecs.consumables == w.consumables,
                state.ecs.inflicts_damages == w.inflicts_damages,
                state.ecs.rangeds == w.rangeds,
                state.ecs.areas_of_effect == w.areas_of_effect,
                state.ecs.confusions == w.confusions,
                state.map == old(state).map,
                state.run_state == old(state).run_state,
                state.player_entity == old(state).player_entity,
                state.player_pos == old(state).player_pos,
            decreases n - e,
        {
            if let Some(pickup) = state.ecs.wants_to_pickup_items[e] {
                if pickup.item < n {
                    state.ecs.positions[pickup.item] = None;
                    state.ecs.in_backpacks[pickup.item] = Some(
                        InBackpack { owner: pickup.collected_by },
                    );
                    if pickup.collected_by == state.player_entity {
                        state.log.entries.push(
                            LogEntry::PickedUp { by: pickup.collected_by, item: pickup.item },
                        );
                    }
                }
            }
            e = e + 1;
        }

        proof {
            assert forall|e2: int| 0 <= e2 < n implies {
                (state.ecs.positions[e2] == w.positions[e2] && state.ecs.in_backpacks[e2]
                    == w.in_backpacks[e2]) || (state.ecs.positions[e2] is None
                    && state.ecs.in_backpacks[e2] is Some)
            } by {
                lemma_pickups_at(w, n as int, e2);
            }
        }

        let mut c: usize = 0;
        while c < n
            invariant
                state.wf(),
                n == state.ecs.num_entities(),
                c <= n,
                forall|e2: int|
                    0 <= e2 < c ==> (#[trigger] state.ecs.wants_to_pickup_items[e2]) is None,
                forall|e2: int|
                    c <= e2 < n ==> (#[trigger] state.ecs.wants_to_pickup_items[e2])
                        == old(state).ecs.wants_to_pickup_items[e2],
                state.ecs.positions@ == positions_after_pickups(
                    old(state).ecs,
                    old(state).ecs.num_entities(),
                ),
                state.ecs.in_backpacks@ == backpacks_after_pickups(
                    old(state).ecs,
                    old(state).ecs.num_entities(),
                ),
                state.log.entries@ == old(state).log.entries@ + pickup_log_upto(
                    old(state).ecs,
                    old(state).player_entity as int,
                    old(state).ecs.num_entities(),
                ),
                forall|e2: int|
                    0 <= e2 < n ==> ((state.ecs.positions[e2] == old(state).ecs.positions[e2]
                        && state.ecs.in_backpacks[e2] == old(state).ecs.in_backpacks[e2]) || ((
                    #[trigger] state.ecs.positions[e2]) is None && state.ecs.in_backpacks[e2]
                        is Some)),
                state.ecs.alive == old(state).ecs.alive,
                state.ecs.renderables == old(state).ecs.renderables,
                state.ecs.players == old(state).ecs.players,
                state.ecs.viewsheds == old(state).ecs.viewsheds,
                state.ecs.monsters == old(state).ecs.monsters,
                state.ecs.names == old(state).ecs.names,
                state.ecs.blocks_tiles == old(state).ecs.blocks_tiles,
                state.ecs.combat_stats == old(state).ecs.combat_stats,
                state.ecs.wants_to_melees == old(state).ecs.wants_to_melees,
                state.ecs.suffer_damages == old(state).ecs.suffer_damages,
                state.ecs.items == old(state).ecs.items,
                state.ecs.provides_healings == old(state).ecs.provides_healings,
                state.ecs.wants_to_use_items == old(state).ecs.wants_to_use_items,
                state.ecs.wants_to_drop_items == old(state).ecs.wants_to_drop_items,
                state.ecs.consumables == old(state).ecs.consumables,
                state.ecs.inflicts_damages == old(state).ecs.inflicts_damages,
                state.ecs.rangeds == old(state).ecs.rangeds,
                state.ecs.areas_of_effect == old(state).ecs.areas_of_effect,
                state.ecs.confusions == old(state).ecs.confusions,
                state.map == old(state).map,
                state.run_state == old(state).run_state,
                state.player_entity == old(state).player_entity,
                state.player_pos == old(state).player_pos,
            decreases n - c,
        {
            state.ecs.wants_to_pickup_items[c] = None;
            c = c + 1;
        }
    }
}

/// Entity `e` drops an item this turn: it holds a drop intent naming an
/// existing entity, and it stands somewhere; `pos` is the live ground
/// storage at that moment.
pub open spec fn drop_at(w: World, pos: Seq<Option<Position>>, e: int) -> bool {
    &&& w.is_alive(e)
    &&& w.wants_to_drop_items[e] is Some
    &&& 0 <= w.wants_to_drop_items[e]->Some_0.item < w.num_entities()
    &&& pos[e] is Some
}

pub open spec fn drop_item(w: World, e: int) -> int {
    w.wants_to_drop_items[e]->Some_0.item as int
}

/// Ground positions, backpacks and messages after the drop intents of the
/// first `k` entities are honored, in entity order: each dropped item takes
/// its dropper's current position and leaves the backpack.
pub open spec fn drops_fold(w: World, player: int, k: int) -> (
    Seq<Option<Position>>,
    Seq<Option<InBackpack>>,
    Seq<LogEntry>,
)
    decreases k,
{
    if k <= 0 {
        (w.positions@, w.in_backpacks@, Seq::empty())
    } else {
        let (pos, packs, logs) = drops_fold(w, player, k - 1);
        let e = k - 1;
        if drop_at(w, pos, e) {
            (
                pos.update(drop_item(w, e), pos[e]),
                packs.update(drop_item(w, e), None),
                if e == player {
                    logs.push(LogEntry::Dropped { who: e as usize, item: (drop_item(w, e)) as usize })
                } else {
                    logs
                },
            )
        } else {
            (pos, packs, logs)
        }
    }
}

/// Each position/backpack slot after the drops: dropped items end up on the
/// ground and out of every backpack; everything else keeps its old slots.
pub proof fn lemma_drops_at(w: World, player: int, k: int, e: int)
    requires
        w.wf(),
        0 <= e < w.num_entities(),
        0 <= k <= w.num_entities(),
    ensures
        drops_fold(w, player, k).0.len() == w.positions@.len(),
        drops_fold(w, player, k).1.len() == w.in_backpacks@.len(),
        (drops_fold(w, player, k).0[e] == w.positions[e] && drops_fold(w, player, k).1[e]
            == w.in_backpacks[e]) || (drops_fold(w, player, k).0[e] is Some && drops_fold(
            w,
            player,
            k,
        ).1[e] is None),
    decreases k,
{
    if k > 0 {
        lemma_drops_at(w, player, k - 1, e);
        if drop_at(w, drops_fold(w, player, k - 1).0, k - 1) {
            lemma_drops_at(w, player, k - 1, k - 1);
        }
    }
}

/// Dropped items keep coordinates on the grid: each slot of the resulting
/// ground storage is either unchanged or a copy of a dropper's position.
pub proof fn lemma_drops_in_bounds(w: World, player: int, k: int, e: int)
    requires
        w.wf(),
        0 <= e < w.num_entities(),
        0 <= k <= w.num_entities(),
    ensures
        drops_fold(w, player, k).0[e] == w.positions[e] || (exists|d: int|
            0 <= d < w.num_entities() && drops_fold(w, player, k).0[e] == #[trigger] w.positions[d]),
    decreases k,
{
    if k > 0 {
        lemma_drops_at(w, player, k - 1, e);
        lemma_drops_in_bounds(w, player, k - 1, e);
        let prev = drops_fold(w, player, k - 1);
        if drop_at(w, prev.0, k - 1) {
            lemma_drops_in_bounds(w, player, k - 1, k - 1);
            if e == drop_item(w, k - 1) {
                assert(drops_fold(w, player, k).0[e] == prev.0[k - 1]);
                if prev.0[k - 1] == w.positions[k - 1] {
                    assert(drops_fold(w, player, k).0[e] == w.positions[k - 1]);
                } else {
                    let d = choose|d: int|
                        0 <= d < w.num_entities() && prev.0[k - 1] == #[trigger] w.positions[d];
                    assert(drops_fold(w, player, k).0[e] == w.positions[d]);
                }
            }
        }
    }
}

/// Puts every dropped item on the ground at its dropper's feet and out of
/// the backpack, logging the player's own drops, then consumes all drop
/// intents.
/// One drop pass, relating the whole state before (`s0`) and after (`s1`):
/// each dropped item leaves its carrier's backpack for the dropper's tile in
/// entity order, each drop by the player is logged, all drop intents are
/// consumed, and nothing else changes.
#[verifier::opaque]
pub open spec fn drop_ran(s0: State, s1: State) -> bool {
    &&& s1.wf()
    &&& s1.ecs.positions@ == drops_fold(s0.ecs, s0.player_entity as int, s0.ecs.num_entities()).0
    &&& s1.ecs.in_backpacks@ == drops_fold(s0.ecs, s0.player_entity as int, s0.ecs.num_entities()).1
    &&& s1.log.entries@ == s0.log.entries@ + drops_fold(
        s0.ecs,
        s0.player_entity as int,
        s0.ecs.num_entities(),
    ).2
    &&& forall|e: int|
        0 <= e < s0.ecs.num_entities() ==> (#[trigger] s1.ecs.wants_to_drop_items[e]) is None
    &&& (s0.ecs.items_placed() ==> s1.ecs.items_placed())
    &&& s1.ecs.alive == s0.ecs.alive
    &&& s1.ecs.renderables == s0.ecs.renderables
    &&& s1.ecs.players == s0.ecs.players
    &&& s1.ecs.viewsheds == s0.ecs.viewsheds
    &&& s1.ecs.monsters == s0.ecs.monsters
    &&& s1.ecs.names == s0.ecs.names
    &&& s1.ecs.blocks_tiles == s0.ecs.blocks_tiles
    &&& s1.ecs.combat_stats == s0.ecs.combat_stats
    &&& s1.ecs.wants_to_melees == s0.ecs.wants_to_melees
    &&& s1.ecs.suffer_damages == s0.ecs.suffer_damages
    &&& s1.ecs.items == s0.ecs.items
    &&& s1.ecs.provides_healings == s0.ecs.provides_healings
    &&& s1.ecs.wants_to_pickup_items == s0.ecs.wants_to_pickup_items
    &&& s1.ecs.wants_to_use_items == s0.ecs.wants_to_use_items
    &&& s1.ecs.consumables == s0.ecs.consumables
    &&& s1.ecs.inflicts_damages == s0.ecs.inflicts_damages
    &&& s1.ecs.rangeds == s0.ecs.rangeds
    &&& s1.ecs.areas_of_effect == s0.ecs.areas_of_effect
    &&& s1.ecs.confusions == s0.ecs.confusions
    &&& s1.map == s0.map
    &&& s1.run_state == s0.run_state
    &&& s1.player_entity == s0.player_entity
    &&& s1.player_pos == s0.player_pos
}

pub struct ItemDropSystem {}

impl ItemDropSystem {
    pub fn run(state: &mut State)
        requires
            old(state).wf(),
        ensures
            final(state).wf(),
            drop_ran(*old(state), *final(state)),
            final(state).ecs.positions@ == drops_fold(
                old(state).ecs,
                old(state).player_entity as int,
                old(state).ecs.num_entities(),
            ).0,
            final(state).ecs.in_backpacks@ == drops_fold(
                old(state).ecs,
                old(state).player_entity as int,
                old(state).ecs.num_entities(),
            ).1,
            final(state).log.entries@ == old(state).log.entries@ + drops_fold(
                old(state).ecs,
                old(state).player_entity as int,
                old(state).ecs.num_entities(),
            ).2,
            forall|e: int|
                0 <= e < old(state).ecs.num_entities() ==> (#[trigger] final(state).ecs.wants_to_drop_items[e]) is None,
            old(state).ecs.items_placed() ==> final(state).ecs.items_placed(),
            final(state).ecs.alive == old(state).ecs.alive,
            final(state).ecs.renderables == old(state).ecs.renderables,
            final(state).ecs.players == old(state).ecs.players,
            final(state).ecs.viewsheds == old(state).ecs.viewsheds,
            final(state).ecs.monsters == old(state).ecs.monsters,
            final(state).ecs.names == old(state).ecs.names,
            final(state).ecs.blocks_tiles == old(state).ecs.blocks_tiles,
            final(state).ecs.combat_stats == old(state).ecs.combat_stats,
            final(state).ecs.wants_to_melees == old(state).ecs.wants_to_melees,
            final(state).ecs.suffer_damages == old(state).ecs.suffer_damages,
            final(state).ecs.items == old(state).ecs.items,
            final(state).ecs.provides_healings == old(state).ecs.provides_healings,
            final(state).ecs.wants_to_pickup_items == old(state).ecs.wants_to_pickup_items,
            final(state).ecs.wants_to_use_items == old(state).ecs.wants_to_use_items,
            final(state).ecs.consumables == old(state).ecs.consumables,
            final(state).ecs.inflicts_damages == old(state).ecs.inflicts_damages,
            final(state).ecs.rangeds == old(state).ecs.rangeds,
            final(state).ecs.areas_of_effect == old(state).ecs.areas_of_effect,
            final(state).ecs.confusions == old(state).ecs.confusions,
            final(state).map == old(state).map,
            final(state).run_state == old(state).run_state,
            final(state).player_entity == old(state).player_entity,
            final(state).player_pos == old(state).player_pos,
    {
        proof {
            reveal(drop_ran);
        }
        let ghost w = state.ecs;
        let ghost player = state.player_entity as int;
        let ghost log0 = state.log.entries@;
        let n = state.ecs.alive.len();
        let mut e: usize = 0;
        while e < n
            invariant
                state.wf(),
                n == state.ecs.num_entities(),
                e <= n,
                w == old(state).ecs,
                player == state.player_entity as int,
                state.ecs.positions@ == drops_fold(w, player, e as int).0,
                state.ecs.in_backpacks@ == drops_fold(w, player, e as int).1,
                state.log.entries@ == log0 + drops_fold(w, player, e as int).2,
                state.ecs.alive == w.alive,
                state.ecs.renderables == w.renderables,
                state.ecs.players == w.players,
                state.ecs.viewsheds == w.viewsheds,
                state.ecs.monsters == w.monsters,
                state.ecs.names == w.names,
                state.ecs.blocks_tiles == w.blocks_tiles,
                state.ecs.combat_stats == w.combat_stats,
                state.ecs.wants_to_melees == w.wants_to_melees,
                state.ecs.suffer_damages == w.suffer_damages,
                state.ecs.items == w.items,
                state.ecs.provides_healings == w.provides_healings,
                state.ecs.wants_to_pickup_items == w.wants_to_pickup_items,
                state.ecs.wants_to_use_items == w.wants_to_use_items,
                state.ecs.wants_to_drop_items == w.wants_to_drop_items,
                state.ecs.consumables == w.consumables,
                state.ecs.inflicts_damages == w.inflicts_damages,
                state.ecs.rangeds == w.rangeds,
                state.ecs.areas_of_effect == w.areas_of_effect,
                state.ecs.confusions == w.confusions,
                state.map == old(state).map,
                state.run_state == old(state).run_state,
                state.player_entity == old(state).player_entity,
                state.player_pos == old(state).player_pos,
            decreases n - e,
        {
            if state.ecs.alive[e] {
            if let Some(to_drop) = state.ecs.wants_to_drop_items[e] {
                if to_drop.item < n {
                    if let Some(dropper_pos) = state.ecs.positions[e] {
                        state.ecs.positions[to_drop.item] = Some(dropper_pos);
                        state.ecs.in_backpacks[to_drop.item] = None;
                        if e == state.player_entity {
                            state.log.entries.push(
                                LogEntry::Dropped { who: e, item: to_drop.item },
                            );
                        }
                    }
                }
            }
            }
            proof {
                if !drop_at(w, drops_fold(w, player, e as int).0, e as int) {
                    assert(drops_fold(w, player, e + 1) == drops_fold(w, player, e as int));
                }
            }
            e = e + 1;
        }

        proof {
            assert forall|e2: int| 0 <= e2 < n implies {
                (state.ecs.positions[e2] == w.positions[e2] && state.ecs.in_backpacks[e2]
                    == w.in_backpacks[e2]) || (state.ecs.positions[e2] is Some
                    && state.ecs.in_backpacks[e2] is None)
            } by {
                lemma_drops_at(w, player, n as int, e2);
            }
            assert forall|e2: int|
                0 <= e2 < n && state.ecs.alive[e2] && (#[trigger] state.ecs.positions[e2])
                    is Some implies {
                &&& 0 <= state.ecs.positions[e2]->Some_0.x < crate::map::WIDTH
                &&& 0 <= state.ecs.positions[e2]->Some_0.y < crate::map::HEIGHT
            } by {
                lemma_drops_in_bounds(w, player, n as int, e2);
                if state.ecs.positions[e2] != w.positions[e2] {
                    let d = choose|d: int|
                        0 <= d < w.num_entities() && state.ecs.positions[e2]
                            == #[trigger] w.positions[d];
                    assert(old(state).positions_in_bounds());
                }
            }
        }

        let mut c: usize = 0;
        while c < n
            invariant
                state.ecs.wf(),
                state.map.wf(),
                n == state.ecs.num_entities(),
                c <= n,
                forall|e2: int|
                    0 <= e2 < c ==> (#[trigger] state.ecs.wants_to_drop_items[e2]) is None,
                forall|e2: int|
                    c <= e2 < n ==> (#[trigger] state.ecs.wants_to_drop_items[e2]) == old(
                        state,
                    ).ecs.wants_to_drop_items[e2],
                state.ecs.positions@ == drops_fold(
                    old(state).ecs,
                    old(state).player_entity as int,
                    old(state).ecs.num_entities(),
                ).0,
                state.ecs.in_backpacks@ == drops_fold(
                    old(state).ecs,
                    old(state).player_entity as int,
                    old(state).ecs.num_entities(),
                ).1,
                state.log.entries@ == old(state).log.entries@ + drops_fold(
                    old(state).ecs,
                    old(state).player_entity as int,
                    old(state).ecs.num_entities(),
                ).2,
                forall|e2: int|
                    0 <= e2 < n ==> ((state.ecs.positions[e2] == old(state).ecs.positions[e2]
                        && state.ecs.in_backpacks[e2] == old(state).ecs.in_backpacks[e2]) || ((
                    #[trigger] state.ecs.positions[e2]) is Some && state.ecs.in_backpacks[e2]
                        is None)),
                forall|e2: int|
                    0 <= e2 < n && state.ecs.alive[e2] && (#[trigger] state.ecs.positions[e2])
                        is Some ==> {
                        &&& 0 <= state.ecs.positions[e2]->Some_0.x < crate::map::WIDTH
                        &&& 0 <= state.ecs.positions[e2]->Some_0.y < crate::map::HEIGHT
                    },
                forall|e2: int|
                    0 <= e2 < n ==> ((#[trigger] state.ecs.players[e2]) is Some <==> e2 == old(
                        state,
                    ).player_entity as int),
                state.ecs.alive[old(state).player_entity as int],
                old(state).player_entity < n,
                state.ecs.alive == old(state).ecs.alive,
                state.ecs.renderables == old(state).ecs.renderables,
                state.ecs.players == old(state).ecs.players,
                state.ecs.viewsheds == old(state).ecs.viewsheds,
                state.ecs.monsters == old(state).ecs.monsters,
                state.ecs.names == old(state).ecs.names,
                state.ecs.blocks_tiles == old(state).ecs.blocks_tiles,
                state.ecs.combat_stats == old(state).ecs.combat_stats,
                state.ecs.wants_to_melees == old(state).ecs.wants_to_melees,
                state.ecs.suffer_damages == old(state).ecs.suffer_damages,
                state.ecs.items == old(state).ecs.items,
                state.ecs.provides_healings == old(state).ecs.provides_healings,
                state.ecs.wants_to_pickup_items == old(state).ecs.wants_to_pickup_items,
                state.ecs.wants_to_use_items == old(state).ecs.wants_to_use_items,
                state.ecs.consumables == old(state).ecs.consumables,
                state.ecs.inflicts_damages == old(state).ecs.inflicts_damages,
                state.ecs.rangeds == old(state).ecs.rangeds,
                state.ecs.areas_of_effect == old(state).ecs.areas_of_effect,
                state.ecs.confusions == old(state).ecs.confusions,
                state.map == old(state).map,
                state.run_state == old(state).run_state,
                state.player_entity == old(state).player_entity,
                state.player_pos == old(state).player_pos,
            decreases n - c,
        {
            state.ecs.wants_to_drop_items[c] = None;
            c = c + 1;
        }
    }
}


/// The blast computation's sight range: the item's radius, held to the
/// field-of-view bound.
pub open spec fn blast_range(r: u32) -> int {
    if r > 1000 {
        1000
    } else {
        r as int
    }
}

/// A tile strictly inside the map border, as blast tiles must be.
pub open spec fn interior_pt(p: Point) -> bool {
    0 < p.x < WIDTH - 1 && 0 < p.y < HEIGHT - 1
}

/// Entity `t` is hit by a use of `intent.item`: the player itself for an
/// untargeted use; every occupant of the target tile for a plain targeted
/// use; every occupant of a blast tile (an interior tile in sight of the
/// target point within the item's radius) for an area item.
pub open spec fn targeted(w: World, map: GameMap, player: int, intent: WantsToUseItem, t: int) -> bool {
    if intent.target is None {
        t == player
    } else {
        let p = intent.target->Some_0;
        if !(0 <= p.x < WIDTH && 0 <= p.y < HEIGHT) {
            false
        } else if 0 <= intent.item < w.num_entities() && w.areas_of_effect[intent.item as int] is Some {
            exists|bx: int, by: int|
                0 < bx < WIDTH - 1 && 0 < by < HEIGHT - 1 && #[trigger] visible_from(
                    map.tiles@,
                    p.x as int,
                    p.y as int,
                    blast_range(w.areas_of_effect[intent.item as int]->Some_0.radius),
                    bx,
                    by,
                ) && map.tile_content[idx_of(bx, by)]@.contains(t as usize)
        } else {
            map.tile_content[idx_of(p.x as int, p.y as int)]@.contains(t as usize)
        }
    }
}

pub open spec fn targeted_valid(
    w: World,
    map: GameMap,
    player: int,
    intent: WantsToUseItem,
    t: int,
) -> bool {
    0 <= t < w.num_entities() && targeted(w, map, player, intent, t)
}

/// Hit points after healing: raised by the heal amount but never above
/// max_hp (nor above what hit points can represent).
pub open spec fn hp_healed(hp: int, max_hp: int, heal: int) -> int {
    min(min(max_hp, i32::MAX as int), hp + heal)
}

/// Healing a full-health actor leaves its hit points exactly at max_hp.
pub proof fn lemma_heal_capped(hp: int, max_hp: int, heal: int)
    requires
        hp == max_hp,
        hp <= i32::MAX,
        0 <= heal,
    ensures
        hp_healed(hp, max_hp, heal) == max_hp,
{
}

proof fn lemma_push_contains(s: Seq<usize>, v: usize)
    ensures
        forall|x: usize| s.contains(x) ==> #[trigger] s.push(v).contains(x),
        s.push(v).contains(v),
        forall|x: usize|
            #[trigger] s.push(v).contains(x) ==> s.contains(x) || x == v,
{
    assert forall|x: usize| s.contains(x) implies #[trigger] s.push(v).contains(x) by {
        let i = choose|i: int| 0 <= i < s.len() && s[i] == x;
        assert(s.push(v)[i] == x);
    }
    assert(s.push(v)[s.len() as int] == v);
    assert forall|x: usize| #[trigger] s.push(v).contains(x) implies s.contains(x) || x == v by {
        let i = choose|i: int| 0 <= i < s.push(v).len() && s.push(v)[i] == x;
        if i < s.len() {
            assert(s[i] == x);
        }
    }
}

fn contains_entity(v: &Vec<usize>, t: usize) -> (r: bool)
    ensures
        r == v@.contains(t),
{
    let mut k: usize = 0;
    while k < v.len()
        invariant
            k <= v@.len(),
            forall|j: int| 0 <= j < k ==> v@[j] != t,
        decreases v@.len() - k,
    {
        if v[k] == t {
            assert(v@[k as int] == t);
            return true;
        }
        k = k + 1;
    }
    false
}

/// The entities a use of `intent.item` resolves to, one entry standing for
/// each hit entity.
#[verifier::spinoff_prover]
#[verifier::rlimit(100)]
fn collect_targets(state: &State, intent: WantsToUseItem) -> (targets: Vec<usize>)
    requires
        state.wf(),
    ensures
        forall|t: int|
            0 <= t < state.ecs.num_entities() ==> (targets@.contains(t as usize) == targeted(
                state.ecs,
                state.map,
                state.player_entity as int,
                intent,
                t,
            )),
        forall|k: int| 0 <= k < targets@.len() ==> (#[trigger] targets@[k]) < state.ecs.num_entities(),
{
    let ghost w = state.ecs;
    let ghost mapg = state.map;
    let ghost player = state.player_entity as int;
    let n = state.ecs.alive.len();
    let mut targets: Vec<usize> = Vec::new();

    match intent.target {
        None => {
            targets.push(state.player_entity);
            proof {
                assert(targets@[0] == state.player_entity);
            }
        },
        Some(p) => {
            if p.x < 0 || p.x >= WIDTH as i32 || p.y < 0 || p.y >= HEIGHT as i32 {
                return targets;
            }
            let aoe = if intent.item < n {
                state.ecs.areas_of_effect[intent.item]
            } else {
                None
            };
            if let Some(aoe) = aoe {
                let r: i32 = if aoe.radius > 1000 {
                    1000
                } else {
                    aoe.radius as i32
                };
                let blast = crate::fov::field_of_view(&state.map.tiles, p.x, p.y, r);
                let ghost rr = blast_range(aoe.radius);
                let mut j: usize = 0;
                while j < blast.len()
                    invariant
                        state.wf(),
                        w == state.ecs,
                        mapg == state.map,
                        player == state.player_entity as int,
                        n == state.ecs.num_entities(),
                        intent.target == Some(p),
                        0 <= p.x < WIDTH,
                        0 <= p.y < HEIGHT,
                        intent.item < n,
                        w.areas_of_effect[intent.item as int] == Some(aoe),
                        rr == blast_range(aoe.radius),
                        j <= blast@.len(),
                        forall|x: int, y: int|
                            0 <= x < WIDTH && 0 <= y < HEIGHT ==> (blast@.contains(
                                crate::fov::pt(x, y),
                            ) == visible_from(mapg.tiles@, p.x as int, p.y as int, rr, x, y)),
                        forall|k: int|
                            0 <= k < blast@.len() ==> visible_from(
                                mapg.tiles@,
                                p.x as int,
                                p.y as int,
                                rr,
                                (#[trigger] blast@[k]).x as int,
                                blast@[k].y as int,
                            ),
                        forall|k: int|
                            0 <= k < targets@.len() ==> (#[trigger] targets@[k]) < n,
                        forall|k: int|
                            0 <= k < targets@.len() ==> targeted(
                                w,
                                mapg,
                                player,
                                intent,
                                #[trigger] targets@[k] as int,
                            ),
                        forall|j2: int, o: int|
                            0 <= j2 < j && interior_pt(#[trigger] blast@[j2]) && 0 <= o
                                < mapg.tile_content[idx_of(
                                blast@[j2].x as int,
                                blast@[j2].y as int,
                            )]@.len() && (#[trigger] mapg.tile_content[idx_of(
                                blast@[j2].x as int,
                                blast@[j2].y as int,
                            )]@[o]) < n ==> targets@.contains(
                                mapg.tile_content[idx_of(blast@[j2].x as int, blast@[j2].y as int)]@[o],
                            ),
                    decreases blast@.len() - j,
                {
                    let bt = blast[j];
                    if bt.x > 0 && bt.x < WIDTH as i32 - 1 && bt.y > 0 && bt.y < HEIGHT as i32 - 1 {
                        let idx = state.map.xy_idx(bt.x as usize, bt.y as usize);
                        let occ = state.map.tile_content[idx].len();
                        let mut o: usize = 0;
                        while o < occ
                            invariant
                                state.wf(),
                                w == state.ecs,
                                mapg == state.map,
                                player == state.player_entity as int,
                                n == state.ecs.num_entities(),
                                intent.target == Some(p),
                                0 <= p.x < WIDTH,
                                0 <= p.y < HEIGHT,
                                intent.item < n,
                                w.areas_of_effect[intent.item as int] == Some(aoe),
                                rr == blast_range(aoe.radius),
                                j < blast@.len(),
                                bt == blast@[j as int],
                                interior_pt(bt),
                                visible_from(mapg.tiles@, p.x as int, p.y as int, rr, bt.x as int, bt.y as int),
                                idx == idx_of(bt.x as int, bt.y as int),
                                occ == mapg.tile_content[idx as int]@.len(),
                                o <= occ,
                                forall|k: int|
                                    0 <= k < targets@.len() ==> (#[trigger] targets@[k]) < n,
                                forall|k: int|
                                    0 <= k < targets@.len() ==> targeted(
                                        w,
                                        mapg,
                                        player,
                                        intent,
                                        #[trigger] targets@[k] as int,
                                    ),
                                forall|j2: int, o2: int|
                                    0 <= j2 < j && interior_pt(#[trigger] blast@[j2]) && 0 <= o2
                                        < mapg.tile_content[idx_of(
                                        blast@[j2].x as int,
                                        blast@[j2].y as int,
                                    )]@.len() && (#[trigger] mapg.tile_content[idx_of(
                                        blast@[j2].x as int,
                                        blast@[j2].y as int,
                                    )]@[o2]) < n ==> targets@.contains(
                                        mapg.tile_content[idx_of(
                                            blast@[j2].x as int,
                                            blast@[j2].y as int,
                                        )]@[o2],
                                    ),
                                forall|o2: int|
                                    0 <= o2 < o && (#[trigger] mapg.tile_content[idx as int]@[o2])
                                        < n ==> targets@.contains(
                                        mapg.tile_content[idx as int]@[o2],
                                    ),
                            decreases occ - o,
                        {
                            let t = state.map.tile_content[idx][o];
                            if t < n {
                                let ghost prev = targets@;
                                targets.push(t);
                                proof {
                                    lemma_push_contains(prev, t);
                                    assert(mapg.tile_content[idx as int]@.contains(t));
                                    assert(mapg.tile_content[idx_of(bt.x as int, bt.y as int)]@.contains(t));
                                    assert(visible_from(
                                        mapg.tiles@,
                                        p.x as int,
                                        p.y as int,
                                        blast_range(
                                            w.areas_of_effect[intent.item as int]->Some_0.radius,
                                        ),
                                        bt.x as int,
                                        bt.y as int,
                                    ));
                                    assert(exists|bx: int, by: int|
                                        0 < bx < WIDTH - 1 && 0 < by < HEIGHT - 1
                                            && #[trigger] visible_from(
                                            mapg.tiles@,
                                            p.x as int,
                                            p.y as int,
                                            blast_range(
                                                w.areas_of_effect[intent.item as int]->Some_0.radius,
                                            ),
                                            bx,
                                            by,
                                        ) && mapg.tile_content[idx_of(bx, by)]@.contains(
                                            (t as int) as usize,
                                        ));
                                    assert(targeted(w, mapg, player, intent, t as int));
                                }
                            }
                            o = o + 1;
                        }
                    }
                    j = j + 1;
                }
                proof {
                    assert forall|t: int| 0 <= t < n implies (targets@.contains(t as usize)
                        == targeted(w, mapg, player, intent, t)) by {
                        if targets@.contains(t as usize) {
                            let k = choose|k: int|
                                0 <= k < targets@.len() && targets@[k] == t as usize;
                            assert(targeted(w, mapg, player, intent, targets@[k] as int));
                        }
                        if targeted(w, mapg, player, intent, t) {
                            let (bx, by) = choose|bx: int, by: int|
                                0 < bx < WIDTH - 1 && 0 < by < HEIGHT - 1 && #[trigger] visible_from(
                                    mapg.tiles@,
                                    p.x as int,
                                    p.y as int,
                                    rr,
                                    bx,
                                    by,
                                ) && mapg.tile_content[idx_of(bx, by)]@.contains(t as usize);
                            assert(blast@.contains(crate::fov::pt(bx, by)));
                            let j2 = choose|j2: int|
                                0 <= j2 < blast@.len() && blast@[j2] == crate::fov::pt(bx, by);
                            let o2 = choose|o2: int|
                                0 <= o2 < mapg.tile_content[idx_of(bx, by)]@.len()
                                    && mapg.tile_content[idx_of(bx, by)]@[o2] == t as usize;
                            assert(interior_pt(blast@[j2]));
                            assert(mapg.tile_content[idx_of(
                                blast@[j2].x as int,
                                blast@[j2].y as int,
                            )]@[o2] == t as usize);
                        }
                    }
                }
            } else {
                let idx = state.map.xy_idx(p.x as usize, p.y as usize);
                let occ = state.map.tile_content[idx].len();
                let mut o: usize = 0;
                while o < occ
                    invariant
                        state.wf(),
                        w == state.ecs,
                        mapg == state.map,
                        player == state.player_entity as int,
                        n == state.ecs.num_entities(),
                        intent.target == Some(p),
                        0 <= p.x < WIDTH,
                        0 <= p.y < HEIGHT,
                        !(0 <= intent.item < n && w.areas_of_effect[intent.item as int] is Some),
                        idx == idx_of(p.x as int, p.y as int),
                        occ == mapg.tile_content[idx as int]@.len(),
                        o <= occ,
                        forall|k: int|
                            0 <= k < targets@.len() ==> (#[trigger] targets@[k]) < n,
                        forall|k: int|
                            0 <= k < targets@.len() ==> mapg.tile_content[idx as int]@.contains(
                                #[trigger] targets@[k],
                            ),
                        forall|o2: int|
                            0 <= o2 < o && (#[trigger] mapg.tile_content[idx as int]@[o2]) < n
                                ==> targets@.contains(mapg.tile_content[idx as int]@[o2]),
                    decreases occ - o,
                {
                    let t = state.map.tile_content[idx][o];
                    if t < n {
                        let ghost prev = targets@;
                        targets.push(t);
                        proof {
                            lemma_push_contains(prev, t);
                            assert(mapg.tile_content[idx as int]@.contains(t));
                        }
                    }
                    o = o + 1;
                }
                proof {
                    assert forall|t: int| 0 <= t < n implies (targets@.contains(t as usize)
                        == targeted(w, mapg, player, intent, t)) by {
                        if targets@.contains(t as usize) {
                            let k = choose|k: int|
                                0 <= k < targets@.len() && targets@[k] == t as usize;
                        }
                        if targeted(w, mapg, player, intent, t) {
                            let o2 = choose|o2: int|
                                0 <= o2 < mapg.tile_content[idx as int]@.len()
                                    && mapg.tile_content[idx as int]@[o2] == t as usize;
                        }
                    }
                }
            }
        },
    }
    targets
}


/// A storage changed only by entity deletion: every slot is as before, or
/// cleared on an entity that died and was a consumable.
pub open spec fn only_deleted<T>(
    old_s: Seq<Option<T>>,
    new_s: Seq<Option<T>>,
    w0: World,
    new_alive: Seq<bool>,
) -> bool {
    &&& new_s.len() == old_s.len()
    &&& forall|t: int|
        0 <= t < old_s.len() ==> (#[trigger] new_s[t] == old_s[t] || (new_s[t] is None
            && !new_alive[t] && w0.consumables[t] is Some))
}

/// The effects of one use intent, before any consumable is destroyed:
/// healing raises every resolved target's hit points (clamped to max_hp),
/// damage joins the accumulate-then-apply pipeline, confusion overwrites the
/// target's counter with the item's; each applies exactly when the item
/// carries it. Every other component storage is untouched.
pub open spec fn effects_applied(s0: State, intent: WantsToUseItem, s1: State) -> bool {
    let w = s0.ecs;
    let n = w.num_entities();
    let item = intent.item as int;
    let player = s0.player_entity as int;
    &&& (w.provides_healings[item] is Some ==> forall|t: int|
        0 <= t < n ==> (#[trigger] s1.ecs.combat_stats[t]) == (if targeted_valid(
            w,
            s0.map,
            player,
            intent,
            t,
        ) && w.combat_stats[t] is Some {
            Some(
                (CombatStats {
                    max_hp: w.combat_stats[t]->Some_0.max_hp,
                    hp: hp_healed(
                        w.combat_stats[t]->Some_0.hp as int,
                        w.combat_stats[t]->Some_0.max_hp as int,
                        w.provides_healings[item]->Some_0.heal_amount as int,
                    ) as i32,
                    defense: w.combat_stats[t]->Some_0.defense,
                    power: w.combat_stats[t]->Some_0.power,
                }),
            )
        } else {
            w.combat_stats[t]
        }))
    &&& (w.provides_healings[item] is None ==> s1.ecs.combat_stats == w.combat_stats)
    &&& (w.inflicts_damages[item] is Some ==> forall|t: int|
        0 <= t < n ==> (if targeted_valid(w, s0.map, player, intent, t) {
            &&& (#[trigger] s1.ecs.suffer_damages[t]) is Some
            &&& suffer_seq(s1.ecs.suffer_damages[t]) == suffer_seq(w.suffer_damages[t]).push(
                w.inflicts_damages[item]->Some_0.damage,
            )
        } else {
            (#[trigger] s1.ecs.suffer_damages[t]) == w.suffer_damages[t]
        }))
    &&& (w.inflicts_damages[item] is None ==> s1.ecs.suffer_damages == w.suffer_damages)
    &&& (w.confusions[item] is Some ==> forall|t: int|
        0 <= t < n ==> (#[trigger] s1.ecs.confusions[t]) == (if targeted_valid(
            w,
            s0.map,
            player,
            intent,
            t,
        ) {
            Some((Confusion { turns: w.confusions[item]->Some_0.turns }))
        } else {
            w.confusions[t]
        }))
    &&& (w.confusions[item] is None ==> s1.ecs.confusions == w.confusions)
    &&& s1.ecs.alive == w.alive
    &&& s1.ecs.positions == w.positions
    &&& s1.ecs.renderables == w.renderables
    &&& s1.ecs.players == w.players
    &&& s1.ecs.viewsheds == w.viewsheds
    &&& s1.ecs.monsters == w.monsters
    &&& s1.ecs.names == w.names
    &&& s1.ecs.blocks_tiles == w.blocks_tiles
    &&& s1.ecs.wants_to_melees == w.wants_to_melees
    &&& s1.ecs.items == w.items
    &&& s1.ecs.provides_healings == w.provides_healings
    &&& s1.ecs.in_backpacks == w.in_backpacks
    &&& s1.ecs.wants_to_pickup_items == w.wants_to_pickup_items
    &&& s1.ecs.wants_to_use_items == w.wants_to_use_items
    &&& s1.ecs.wants_to_drop_items == w.wants_to_drop_items
    &&& s1.ecs.consumables == w.consumables
    &&& s1.ecs.inflicts_damages == w.inflicts_damages
    &&& s1.ecs.rangeds == w.rangeds
    &&& s1.ecs.areas_of_effect == w.areas_of_effect
    &&& s1.map == s0.map
    &&& s1.run_state == s0.run_state
    &&& s1.player_entity == s0.player_entity
    &&& s1.player_pos == s0.player_pos
    &&& s1.log.entries@.len() >= s0.log.entries@.len()
    &&& s1.log.entries@.subrange(0, s0.log.entries@.len() as int) == s0.log.entries@
}

/// Apply one use intent's effects to every resolved target and queue the
/// item for consumption if it is consumable. Does not clear intents or
/// destroy anything itself.
#[verifier::rlimit(100)]
fn use_one(state: &mut State, user: usize, intent: WantsToUseItem, consumed: &mut Vec<usize>)
    requires
        old(state).wf(),
    ensures
        final(state).wf(),
        !(intent.item < old(state).ecs.num_entities()) ==> {
            &&& final(state).ecs == old(state).ecs
            &&& final(consumed)@ == old(consumed)@
            &&& final(state).log == old(state).log
            &&& final(state).map == old(state).map
            &&& final(state).run_state == old(state).run_state
            &&& final(state).player_entity == old(state).player_entity
            &&& final(state).player_pos == old(state).player_pos
        },
        intent.item < old(state).ecs.num_entities() ==> {
            &&& effects_applied(*old(state), intent, *final(state))
            &&& (old(state).ecs.consumables[intent.item as int] is Some ==> final(consumed)@ == old(
                consumed,
            )@.push(intent.item))
            &&& (old(state).ecs.consumables[intent.item as int] is None ==> final(consumed)@ == old(
                consumed,
            )@)
        },
{
    let n = state.ecs.alive.len();
    if intent.item >= n {
        return ;
    }
    let ghost s0 = *state;
    let ghost w = state.ecs;
    let ghost player = state.player_entity as int;
    let item = intent.item;
    let targets = collect_targets(state, intent);

    // healing
    if state.ecs.provides_healings[item].is_some() {
        let heal = state.ecs.provides_healings[item].unwrap().heal_amount;
        let mut t: usize = 0;
        while t < n
            invariant
                state.wf(),
                n == state.ecs.num_entities(),
                t <= n,
                w == s0.ecs,
                player == s0.player_entity as int,
                item == intent.item,
                item < n,
                w.provides_healings[item as int] == Some(
                    crate::components::ProvidesHealing { heal_amount: heal },
                ),
                forall|t2: int|
                    0 <= t2 < n ==> (targets@.contains(t2 as usize) == targeted(
                        w,
                        s0.map,
                        player,
                        intent,
                        t2,
                    )),
                forall|t2: int|
                    0 <= t2 < t ==> (#[trigger] state.ecs.combat_stats[t2]) == (if targeted_valid(
                        w,
                        s0.map,
                        player,
                        intent,
                        t2,
                    ) && w.combat_stats[t2] is Some {
                        Some(
                            (CombatStats {
                                max_hp: w.combat_stats[t2]->Some_0.max_hp,
                                hp: hp_healed(
                                    w.combat_stats[t2]->Some_0.hp as int,
                                    w.combat_stats[t2]->Some_0.max_hp as int,
                                    heal as int,
                                ) as i32,
                                defense: w.combat_stats[t2]->Some_0.defense,
                                power: w.combat_stats[t2]->Some_0.power,
                            }),
                        )
                    } else {
                        w.combat_stats[t2]
                    }),
                forall|t2: int|
                    t <= t2 < n ==> (#[trigger] state.ecs.combat_stats[t2]) == w.combat_stats[t2],
                state.ecs.alive == w.alive,
                state.ecs.positions == w.positions,
                state.ecs.renderables == w.renderables,
                state.ecs.players == w.players,
                state.ecs.viewsheds == w.viewsheds,
                state.ecs.monsters == w.monsters,
                state.ecs.names == w.names,
                state.ecs.blocks_tiles == w.blocks_tiles,
                state.ecs.wants_to_melees == w.wants_to_melees,
                state.ecs.suffer_damages == w.suffer_damages,
                state.ecs.items == w.items,
                state.ecs.provides_healings == w.provides_healings,
                state.ecs.in_backpacks == w.in_backpacks,
                state.ecs.wants_to_pickup_items == w.wants_to_pickup_items,
                state.ecs.wants_to_use_items == w.wants_to_use_items,
                state.ecs.wants_to_drop_items == w.wants_to_drop_items,
                state.ecs.consumables == w.consumables,
                state.ecs.inflicts_damages == w.inflicts_damages,
                state.ecs.rangeds == w.rangeds,
                state.ecs.areas_of_effect == w.areas_of_effect,
                state.ecs.confusions == w.confusions,
                state.map == s0.map,
                state.run_state == s0.run_state,
                state.player_entity == s0.player_entity,
                state.player_pos == s0.player_pos,
                state.log.entries@.len() >= s0.log.entries@.len(),
                state.log.entries@.subrange(0, s0.log.entries@.len() as int) == s0.log.entries@,
            decreases n - t,
        {
            if contains_entity(&targets, t) && state.ecs.combat_stats[t].is_some() {
                let stats = state.ecs.combat_stats[t].unwrap();
                let cap: i128 = if (stats.max_hp as i128) < (i32::MAX as i128) {
                    stats.max_hp as i128
                } else {
                    i32::MAX as i128
                };
                let nh: i128 = stats.hp as i128 + heal as i128;
                let nh2: i128 = if nh > cap {
                    cap
                } else {
                    nh
                };
                state.ecs.combat_stats[t] = Some(
                    CombatStats {
                        max_hp: stats.max_hp,
                        hp: nh2 as i32,
                        defense: stats.defense,
                        power: stats.power,
                    },
                );
                if user == state.player_entity {
                    state.log.entries.push(
                        LogEntry::Healed { user, item, amount: heal },
                    );
                }
                proof {
                    assert(state.log.entries@.subrange(0, s0.log.entries@.len() as int)
                        =~= s0.log.entries@);
                }
            }
            t = t + 1;
        }
    }

    // damage
    if state.ecs.inflicts_damages[item].is_some() {
        let damage = state.ecs.inflicts_damages[item].unwrap().damage;
        let mut t: usize = 0;
        while t < n
            invariant
                state.wf(),
                n == state.ecs.num_entities(),
                t <= n,
                w == s0.ecs,
                player == s0.player_entity as int,
                item == intent.item,
                item < n,
                w.inflicts_damages[item as int] == Some(
                    crate::components::InflictsDamage { damage },
                ),
                forall|t2: int|
                    0 <= t2 < n ==> (targets@.contains(t2 as usize) == targeted(
                        w,
                        s0.map,
                        player,
                        intent,
                        t2,
                    )),
                forall|t2: int|
                    0 <= t2 < t && targeted_valid(w, s0.map, player, intent, t2) ==> {
                        &&& (#[trigger] state.ecs.suffer_damages[t2]) is Some
                        &&& suffer_seq(state.ecs.suffer_damages[t2]) == suffer_seq(
                            w.suffer_damages[t2],
                        ).push(damage)
                    },
                forall|t2: int|
                    (0 <= t2 < t && !targeted_valid(w, s0.map, player, intent, t2)) || t <= t2 < n
                        ==> (#[trigger] state.ecs.suffer_damages[t2]) == w.suffer_damages[t2],
                state.ecs.alive == w.alive,
                state.ecs.positions == w.positions,
                state.ecs.renderables == w.renderables,
                state.ecs.players == w.players,
                state.ecs.viewsheds == w.viewsheds,
                state.ecs.monsters == w.monsters,
                state.ecs.names == w.names,
                state.ecs.blocks_tiles == w.blocks_tiles,
                state.ecs.wants_to_melees == w.wants_to_melees,
                state.ecs.items == w.items,
                state.ecs.provides_healings == w.provides_healings,
                state.ecs.in_backpacks == w.in_backpacks,
                state.ecs.wants_to_pickup_items == w.wants_to_pickup_items,
                state.ecs.wants_to_use_items == w.wants_to_use_items,
                state.ecs.wants_to_drop_items == w.wants_to_drop_items,
                state.ecs.consumables == w.consumables,
                state.ecs.inflicts_damages == w.inflicts_damages,
                state.ecs.rangeds == w.rangeds,
                state.ecs.areas_of_effect == w.areas_of_effect,
                state.ecs.confusions == w.confusions,
                hold_stats(s0, intent, state.ecs),
                state.map == s0.map,
                state.run_state == s0.run_state,
                state.player_entity == s0.player_entity,
                state.player_pos == s0.player_pos,
                state.log.entries@.len() >= s0.log.entries@.len(),
                state.log.entries@.subrange(0, s0.log.entries@.len() as int) == s0.log.entries@,
            decreases n - t,
        {
            if contains_entity(&targets, t) {
                SufferDamage::new_damage(&mut state.ecs.suffer_damages, t, damage);
                if user == state.player_entity {
                    state.log.entries.push(
                        LogEntry::InflictedWithItem { user, item, target: t, damage },
                    );
                }
                proof {
                    assert(state.log.entries@.subrange(0, s0.log.entries@.len() as int)
                        =~= s0.log.entries@);
                }
            }
            t = t + 1;
        }
    }

    // confusion
    if state.ecs.confusions[item].is_some() {
        let turns = state.ecs.confusions[item].unwrap().turns;
        let mut t: usize = 0;
        while t < n
            invariant
                state.wf(),
                n == state.ecs.num_entities(),
                t <= n,
                w == s0.ecs,
                player == s0.player_entity as int,
                item == intent.item,
                item < n,
                w.confusions[item as int] == Some(Confusion { turns }),
                forall|t2: int|
                    0 <= t2 < n ==> (targets@.contains(t2 as usize) == targeted(
                        w,
                        s0.map,
                        player,
                        intent,
                        t2,
                    )),
                forall|t2: int|
                    0 <= t2 < t ==> (#[trigger] state.ecs.confusions[t2]) == (if targeted_valid(
                        w,
                        s0.map,
                        player,
                        intent,
                        t2,
                    ) {
                        Some((Confusion { turns }))
                    } else {
                        w.confusions[t2]
                    }),
                forall|t2: int|
                    t <= t2 < n ==> (#[trigger] state.ecs.confusions[t2]) == w.confusions[t2],
                hold_stats(s0, intent, state.ecs),
                hold_suffer(s0, intent, state.ecs),
                state.ecs.alive == w.alive,
                state.ecs.positions == w.positions,
                state.ecs.renderables == w.renderables,
                state.ecs.players == w.players,
                state.ecs.viewsheds == w.viewsheds,
                state.ecs.monsters == w.monsters,
                state.ecs.names == w.names,
                state.ecs.blocks_tiles == w.blocks_tiles,
                state.ecs.wants_to_melees == w.wants_to_melees,
                state.ecs.items == w.items,
                state.ecs.provides_healings == w.provides_healings,
                state.ecs.in_backpacks == w.in_backpacks,
                state.ecs.wants_to_pickup_items == w.wants_to_pickup_items,
                state.ecs.wants_to_use_items == w.wants_to_use_items,
                state.ecs.wants_to_drop_items == w.wants_to_drop_items,
                state.ecs.consumables == w.consumables,
                state.ecs.inflicts_damages == w.inflicts_damages,
                state.ecs.rangeds == w.rangeds,
                state.ecs.areas_of_effect == w.areas_of_effect,
                state.map == s0.map,
                state.run_state == s0.run_state,
                state.player_entity == s0.player_entity,
                state.player_pos == s0.player_pos,
                state.log.entries@.len() >= s0.log.entries@.len(),
                state.log.entries@.subrange(0, s0.log.entries@.len() as int) == s0.log.entries@,
            decreases n - t,
        {
            if contains_entity(&targets, t) {
                state.ecs.confusions[t] = Some(Confusion { turns });
                if user == state.player_entity {
                    state.log.entries.push(
                        LogEntry::ConfusedWithItem { user, item, target: t },
                    );
                }
                proof {
                    assert(state.log.entries@.subrange(0, s0.log.entries@.len() as int)
                        =~= s0.log.entries@);
                }
            }
            t = t + 1;
        }
    }

    if state.ecs.consumables[item].is_some() {
        consumed.push(item);
    }
}

/// The stats storage agrees with the healing effect of `intent` (or is
/// untouched when the item heals nothing).
pub open spec fn hold_stats(s0: State, intent: WantsToUseItem, w1: World) -> bool {
    let w = s0.ecs;
    let item = intent.item as int;
    let player = s0.player_entity as int;
    &&& (w.provides_healings[item] is Some ==> forall|t: int|
        0 <= t < w.num_entities() ==> (#[trigger] w1.combat_stats[t]) == (if targeted_valid(
            w,
            s0.map,
            player,
            intent,
            t,
        ) && w.combat_stats[t] is Some {
            Some(
                (CombatStats {
                    max_hp: w.combat_stats[t]->Some_0.max_hp,
                    hp: hp_healed(
                        w.combat_stats[t]->Some_0.hp as int,
                        w.combat_stats[t]->Some_0.max_hp as int,
                        w.provides_healings[item]->Some_0.heal_amount as int,
                    ) as i32,
                    defense: w.combat_stats[t]->Some_0.defense,
                    power: w.combat_stats[t]->Some_0.power,
                }),
            )
        } else {
            w.combat_stats[t]
        }))
    &&& (w.provides_healings[item] is None ==> w1.combat_stats == w.combat_stats)
}

/// The damage accumulators agree with the damage effect of `intent`.
pub open spec fn hold_suffer(s0: State, intent: WantsToUseItem, w1: World) -> bool {
    let w = s0.ecs;
    let item = intent.item as int;
    let player = s0.player_entity as int;
    &&& (w.inflicts_damages[item] is Some ==> forall|t: int|
        0 <= t < w.num_entities() ==> (if targeted_valid(w, s0.map, player, intent, t) {
            &&& (#[trigger] w1.suffer_damages[t]) is Some
            &&& suffer_seq(w1.suffer_damages[t]) == suffer_seq(w.suffer_damages[t]).push(
                w.inflicts_damages[item]->Some_0.damage,
            )
        } else {
            (#[trigger] w1.suffer_damages[t]) == w.suffer_damages[t]
        }))
    &&& (w.inflicts_damages[item] is None ==> w1.suffer_damages == w.suffer_damages)
}


/// Exactly one entity holds a use intent, and it is alive to act on it.
pub open spec fn sole_user(w: World, u: int) -> bool {
    &&& 0 <= u < w.num_entities()
    &&& w.is_alive(u)
    &&& w.wants_to_use_items[u] is Some
    &&& forall|e: int|
        0 <= e < w.num_entities() && e != u ==> (#[trigger] w.wants_to_use_items[e]) is None
}

/// The whole store after one use intent is resolved: the item's effects land
/// on every resolved target, and a consumable item (other than the player)
/// is destroyed afterward whether or not any effect fired.
pub open spec fn use_applied_core(s0: State, u: int, w1: World) -> bool {
    let w = s0.ecs;
    let n = w.num_entities();
    let intent = w.wants_to_use_items[u]->Some_0;
    let item = intent.item as int;
    let player = s0.player_entity as int;
    if !(0 <= item < n) {
        &&& w1.alive == w.alive
        &&& w1.positions == w.positions
        &&& w1.renderables == w.renderables
        &&& w1.players == w.players
        &&& w1.viewsheds == w.viewsheds
        &&& w1.monsters == w.monsters
        &&& w1.names == w.names
        &&& w1.blocks_tiles == w.blocks_tiles
        &&& w1.combat_stats == w.combat_stats
        &&& w1.wants_to_melees == w.wants_to_melees
        &&& w1.suffer_damages == w.suffer_damages
        &&& w1.items == w.items
        &&& w1.provides_healings == w.provides_healings
        &&& w1.in_backpacks == w.in_backpacks
        &&& w1.wants_to_pickup_items == w.wants_to_pickup_items
        &&& w1.wants_to_drop_items == w.wants_to_drop_items
        &&& w1.consumables == w.consumables
        &&& w1.inflicts_damages == w.inflicts_damages
        &&& w1.rangeds == w.rangeds
        &&& w1.areas_of_effect == w.areas_of_effect
        &&& w1.confusions == w.confusions
    } else {
        let del = w.consumables[item] is Some && item != player;
        &&& (del ==> w1.alive@ == w.alive@.update(item, false))
        &&& (!del ==> w1.alive == w.alive)
        &&& forall|t: int|
            0 <= t < n ==> (#[trigger] w1.combat_stats[t]) == (if del && t == item {
                None
            } else if w.provides_healings[item] is Some && targeted_valid(
                w,
                s0.map,
                player,
                intent,
                t,
            ) && w.combat_stats[t] is Some {
                Some(
                    (CombatStats {
                        max_hp: w.combat_stats[t]->Some_0.max_hp,
                        hp: hp_healed(
                            w.combat_stats[t]->Some_0.hp as int,
                            w.combat_stats[t]->Some_0.max_hp as int,
                            w.provides_healings[item]->Some_0.heal_amount as int,
                        ) as i32,
                        defense: w.combat_stats[t]->Some_0.defense,
                        power: w.combat_stats[t]->Some_0.power,
                    }),
                )
            } else {
                w.combat_stats[t]
            })
        &&& forall|t: int|
            0 <= t < n ==> (if del && t == item {
                (#[trigger] w1.suffer_damages[t]) is None
            } else if w.inflicts_damages[item] is Some && targeted_valid(
                w,
                s0.map,
                player,
                intent,
                t,
            ) {
                &&& (#[trigger] w1.suffer_damages[t]) is Some
                &&& suffer_seq(w1.suffer_damages[t]) == suffer_seq(w.suffer_damages[t]).push(
                    w.inflicts_damages[item]->Some_0.damage,
                )
            } else {
                (#[trigger] w1.suffer_damages[t]) == w.suffer_damages[t]
            })
        &&& forall|t: int|
            0 <= t < n ==> (#[trigger] w1.confusions[t]) == (if del && t == item {
                None
            } else if w.confusions[item] is Some && targeted_valid(w, s0.map, player, intent, t) {
                Some((Confusion { turns: w.confusions[item]->Some_0.turns }))
            } else {
                w.confusions[t]
            })
        &&& (del ==> {
            &&& w1.positions@ == w.positions@.update(item, None)
            &&& w1.renderables@ == w.renderables@.update(item, None)
            &&& w1.players@ == w.players@.update(item, None)
            &&& w1.viewsheds@ == w.viewsheds@.update(item, None)
            &&& w1.monsters@ == w.monsters@.update(item, None)
            &&& w1.names@ == w.names@.update(item, None)
            &&& w1.blocks_tiles@ == w.blocks_tiles@.update(item, None)
            &&& w1.wants_to_melees@ == w.wants_to_melees@.update(item, None)
            &&& w1.items@ == w.items@.update(item, None)
            &&& w1.provides_healings@ == w.provides_healings@.update(item, None)
            &&& w1.in_backpacks@ == w.in_backpacks@.update(item, None)
            &&& w1.wants_to_pickup_items@ == w.wants_to_pickup_items@.update(item, None)
            &&& w1.wants_to_drop_items@ == w.wants_to_drop_items@.update(item, None)
            &&& w1.consumables@ == w.consumables@.update(item, None)
            &&& w1.inflicts_damages@ == w.inflicts_damages@.update(item, None)
            &&& w1.rangeds@ == w.rangeds@.update(item, None)
            &&& w1.areas_of_effect@ == w.areas_of_effect@.update(item, None)
        })
        &&& (!del ==> {
            &&& w1.positions == w.positions
            &&& w1.renderables == w.renderables
            &&& w1.players == w.players
            &&& w1.viewsheds == w.viewsheds
            &&& w1.monsters == w.monsters
            &&& w1.names == w.names
            &&& w1.blocks_tiles == w.blocks_tiles
            &&& w1.wants_to_melees == w.wants_to_melees
            &&& w1.items == w.items
            &&& w1.provides_healings == w.provides_healings
            &&& w1.in_backpacks == w.in_backpacks
            &&& w1.wants_to_pickup_items == w.wants_to_pickup_items
            &&& w1.wants_to_drop_items == w.wants_to_drop_items
            &&& w1.consumables == w.consumables
            &&& w1.inflicts_damages == w.inflicts_damages
            &&& w1.rangeds == w.rangeds
            &&& w1.areas_of_effect == w.areas_of_effect
        })
    }
}

/// Resolves every use intent of a living user: the item's healing, damage
/// and confusion effects each land on every resolved target, consumable
/// items are destroyed afterward (deferred, never mid-iteration), and all
/// use intents are consumed.
/// One item-use pass, relating the whole state before (`s0`) and after
/// (`s1`): a sole use intent is resolved in full, all use intents are
/// consumed, only consumables disappear, survivors keep the listed slots,
/// the log only grows, and the rest of the state is untouched.
#[verifier::opaque]
pub open spec fn use_ran(s0: State, s1: State) -> bool {
    &&& s1.wf()
    &&& forall|e: int|
        0 <= e < s0.ecs.num_entities() ==> (#[trigger] s1.ecs.wants_to_use_items[e]) is None
    &&& forall|u: int| sole_user(s0.ecs, u) ==> use_applied_core(s0, u, s1.ecs)
    &&& forall|t: int|
        0 <= t < s0.ecs.num_entities() && (#[trigger] s1.ecs.alive[t]) ==> s0.ecs.alive[t]
    &&& forall|t: int|
        0 <= t < s0.ecs.num_entities() && s0.ecs.alive[t] && !(#[trigger] s1.ecs.alive[t])
            ==> s0.ecs.consumables[t] is Some
    &&& only_deleted(s0.ecs.positions@, s1.ecs.positions@, s0.ecs, s1.ecs.alive@)
    &&& only_deleted(s0.ecs.items@, s1.ecs.items@, s0.ecs, s1.ecs.alive@)
    &&& only_deleted(s0.ecs.in_backpacks@, s1.ecs.in_backpacks@, s0.ecs, s1.ecs.alive@)
    &&& only_deleted(s0.ecs.names@, s1.ecs.names@, s0.ecs, s1.ecs.alive@)
    &&& only_deleted(s0.ecs.wants_to_melees@, s1.ecs.wants_to_melees@, s0.ecs, s1.ecs.alive@)
    &&& only_deleted(
        s0.ecs.wants_to_pickup_items@,
        s1.ecs.wants_to_pickup_items@,
        s0.ecs,
        s1.ecs.alive@,
    )
    &&& only_deleted(
        s0.ecs.wants_to_drop_items@,
        s1.ecs.wants_to_drop_items@,
        s0.ecs,
        s1.ecs.alive@,
    )
    &&& (s0.ecs.items_placed() ==> s1.ecs.items_placed())
    &&& s1.log.entries@.len() >= s0.log.entries@.len()
    &&& s1.log.entries@.subrange(0, s0.log.entries@.len() as int) == s0.log.entries@
    &&& s1.map == s0.map
    &&& s1.run_state == s0.run_state
    &&& s1.player_entity == s0.player_entity
    &&& s1.player_pos == s0.player_pos
}

pub struct ItemUseSystem {}

impl ItemUseSystem {
    pub fn run(state: &mut State)
        requires
            old(state).wf(),
        ensures
            final(state).wf(),
            use_ran(*old(state), *final(state)),
            forall|e: int|
                0 <= e < old(state).ecs.num_entities() ==> (#[trigger] final(state).ecs.wants_to_use_items[e]) is None,
            forall|u: int|
                sole_user(old(state).ecs, u) ==> use_applied_core(
                    *old(state),
                    u,
                    final(state).ecs,
                ),
            forall|t: int|
                0 <= t < old(state).ecs.num_entities() && (#[trigger] final(state).ecs.alive[t])
                    ==> old(state).ecs.alive[t],
            forall|t: int|
                0 <= t < old(state).ecs.num_entities() && old(state).ecs.alive[t] && !(
                #[trigger] final(state).ecs.alive[t]) ==> old(state).ecs.consumables[t] is Some,
            only_deleted(
                old(state).ecs.positions@,
                final(state).ecs.positions@,
                old(state).ecs,
                final(state).ecs.alive@,
            ),
            only_deleted(
                old(state).ecs.items@,
                final(state).ecs.items@,
                old(state).ecs,
                final(state).ecs.alive@,
            ),
            only_deleted(
                old(state).ecs.in_backpacks@,
                final(state).ecs.in_backpacks@,
                old(state).ecs,
                final(state).ecs.alive@,
            ),
            only_deleted(
                old(state).ecs.names@,
                final(state).ecs.names@,
                old(state).ecs,
                final(state).ecs.alive@,
            ),
            only_deleted(
                old(state).ecs.wants_to_melees@,
                final(state).ecs.wants_to_melees@,
                old(state).ecs,
                final(state).ecs.alive@,
            ),
            only_deleted(
                old(state).ecs.wants_to_pickup_items@,
                final(state).ecs.wants_to_pickup_items@,
                old(state).ecs,
                final(state).ecs.alive@,
            ),
            only_deleted(
                old(state).ecs.wants_to_drop_items@,
                final(state).ecs.wants_to_drop_items@,
                old(state).ecs,
                final(state).ecs.alive@,
            ),
            old(state).ecs.items_placed() ==> final(state).ecs.items_placed(),
            final(state).log.entries@.len() >= old(state).log.entries@.len(),
            final(state).log.entries@.subrange(0, old(state).log.entries@.len() as int) == old(
                state,
            ).log.entries@,
            final(state).map == old(state).map,
            final(state).run_state == old(state).run_state,
            final(state).player_entity == old(state).player_entity,
            final(state).player_pos == old(state).player_pos,
    {
        proof {
            reveal(use_ran);
        }
        let ghost s0 = *state;
        let ghost w0 = state.ecs;
        let n = state.ecs.alive.len();
        let mut consumed: Vec<usize> = Vec::new();
        let mut e: usize = 0;
        while e < n
            invariant
                state.wf(),
                n == state.ecs.num_entities(),
                e <= n,
                s0 == *old(state),
                w0 == s0.ecs,
                state.ecs.alive == w0.alive,
                state.ecs.positions == w0.positions,
                state.ecs.renderables == w0.renderables,
                state.ecs.players == w0.players,
                state.ecs.viewsheds == w0.viewsheds,
                state.ecs.monsters == w0.monsters,
                state.ecs.names == w0.names,
                state.ecs.blocks_tiles == w0.blocks_tiles,
                state.ecs.wants_to_melees == w0.wants_to_melees,
                state.ecs.items == w0.items,
                state.ecs.provides_healings == w0.provides_healings,
                state.ecs.in_backpacks == w0.in_backpacks,
                state.ecs.wants_to_pickup_items == w0.wants_to_pickup_items,
                state.ecs.wants_to_use_items == w0.wants_to_use_items,
                state.ecs.wants_to_drop_items == w0.wants_to_drop_items,
                state.ecs.consumables == w0.consumables,
                state.ecs.inflicts_damages == w0.inflicts_damages,
                state.ecs.rangeds == w0.rangeds,
                state.ecs.areas_of_effect == w0.areas_of_effect,
                forall|i: int|
                    0 <= i < consumed@.len() ==> (#[trigger] consumed@[i]) < n
                        && w0.consumables[consumed@[i] as int] is Some,
                forall|u2: int|
                    sole_user(w0, u2) && e <= u2 ==> state.ecs == w0 && consumed@.len() == 0
                        && state.log == s0.log,
                forall|u2: int|
                    sole_user(w0, u2) && u2 < e ==> {
                        &&& (w0.wants_to_use_items[u2]->Some_0.item < n ==> effects_applied(
                            s0,
                            w0.wants_to_use_items[u2]->Some_0,
                            *state,
                        ))
                        &&& (w0.wants_to_use_items[u2]->Some_0.item >= n ==> state.ecs == w0
                            && state.log == s0.log)
                        &&& (w0.consumables[w0.wants_to_use_items[u2]->Some_0.item as int] is Some
                            && w0.wants_to_use_items[u2]->Some_0.item < n ==> consumed@
                            =~= seq![w0.wants_to_use_items[u2]->Some_0.item])
                        &&& (!(w0.consumables[w0.wants_to_use_items[u2]->Some_0.item as int]
                            is Some && w0.wants_to_use_items[u2]->Some_0.item < n) ==> consumed@.len()
                            == 0)
                    },
                state.log.entries@.len() >= s0.log.entries@.len(),
                state.log.entries@.subrange(0, s0.log.entries@.len() as int) == s0.log.entries@,
                state.map == s0.map,
                state.run_state == s0.run_state,
                state.player_entity == s0.player_entity,
                state.player_pos == s0.player_pos,
            decreases n - e,
        {
            let ghost pre = *state;
            let ghost consumed_pre = consumed@;
            let acts = state.ecs.alive[e] && state.ecs.wants_to_use_items[e].is_some();
            if acts {
                let intent = state.ecs.wants_to_use_items[e].unwrap();
                use_one(state, e, intent, &mut consumed);
                proof {
                    assert(pre.ecs.wants_to_use_items[e as int] is Some);
                    assert forall|u2: int| sole_user(w0, u2) && u2 < e + 1 implies {
                        &&& (w0.wants_to_use_items[u2]->Some_0.item < n ==> effects_applied(
                            s0,
                            w0.wants_to_use_items[u2]->Some_0,
                            *state,
                        ))
                        &&& (w0.wants_to_use_items[u2]->Some_0.item >= n ==> state.ecs == w0
                            && state.log == s0.log)
                        &&& (w0.consumables[w0.wants_to_use_items[u2]->Some_0.item as int] is Some
                            && w0.wants_to_use_items[u2]->Some_0.item < n ==> consumed@
                            =~= seq![w0.wants_to_use_items[u2]->Some_0.item])
                        &&& (!(w0.consumables[w0.wants_to_use_items[u2]->Some_0.item as int]
                            is Some && w0.wants_to_use_items[u2]->Some_0.item < n) ==> consumed@.len()
                            == 0)
                    } by {
                        assert(w0.wants_to_use_items[e as int] is Some);
                        assert(u2 == e as int);
                        assert(pre.ecs == w0);
                        assert(pre.log == s0.log);
                        assert(pre == s0);
                        assert(consumed_pre.len() == 0);
                        if intent.item < n {
                            assert(effects_applied(pre, intent, *state));
                        } else {
                            assert(state.ecs == pre.ecs);
                            assert(state.log == pre.log);
                        }
                    }
                }
            } else {
                proof {
                    assert forall|u2: int| sole_user(w0, u2) implies u2 != e as int by {
                        if u2 == e as int {
                            assert(w0.is_alive(u2) && w0.wants_to_use_items[u2] is Some);
                        }
                    }
                }
            }
            e = e + 1;
        }

        let ghost w1 = state.ecs;
        let ghost log1 = state.log;
        let m = consumed.len();
        let mut k: usize = 0;
        while k < m
            invariant
                state.ecs.wf(),
                state.map.wf(),
                n == state.ecs.num_entities(),
                m == consumed@.len(),
                k <= m,
                s0 == *old(state),
                w0 == s0.ecs,
                w1.wf(),
                n == w1.num_entities(),
                forall|i: int|
                    0 <= i < consumed@.len() ==> (#[trigger] consumed@[i]) < n
                        && w0.consumables[consumed@[i] as int] is Some,
                forall|t: int|
                    0 <= t < n && (#[trigger] state.ecs.alive[t]) ==> w0.alive[t],
                forall|t: int|
                    0 <= t < n && w0.alive[t] && !(#[trigger] state.ecs.alive[t])
                        ==> w0.consumables[t] is Some,
                only_deleted(w0.positions@, state.ecs.positions@, w0, state.ecs.alive@),
                only_deleted(w0.items@, state.ecs.items@, w0, state.ecs.alive@),
                only_deleted(w0.in_backpacks@, state.ecs.in_backpacks@, w0, state.ecs.alive@),
                only_deleted(w0.names@, state.ecs.names@, w0, state.ecs.alive@),
                only_deleted(w0.wants_to_melees@, state.ecs.wants_to_melees@, w0, state.ecs.alive@),
                only_deleted(
                    w0.wants_to_pickup_items@,
                    state.ecs.wants_to_pickup_items@,
                    w0,
                    state.ecs.alive@,
                ),
                only_deleted(
                    w0.wants_to_drop_items@,
                    state.ecs.wants_to_drop_items@,
                    w0,
                    state.ecs.alive@,
                ),
                forall|t: int|
                    0 <= t < n ==> ((#[trigger] state.ecs.players[t]) is Some <==> t
                        == s0.player_entity as int),
                state.ecs.alive[s0.player_entity as int],
                s0.player_entity < n,
                forall|t: int|
                    0 <= t < n && state.ecs.alive[t] && (#[trigger] state.ecs.positions[t])
                        is Some ==> {
                        &&& 0 <= state.ecs.positions[t]->Some_0.x < WIDTH
                        &&& 0 <= state.ecs.positions[t]->Some_0.y < HEIGHT
                    },
                forall|u2: int|
                    sole_user(w0, u2) ==> {
                        &&& (k == 0 ==> state.ecs == w1)
                        &&& (k > 0 ==> use_applied_core(s0, u2, state.ecs))
                        &&& (w0.wants_to_use_items[u2]->Some_0.item < n ==> effects_applied(
                            s0,
                            w0.wants_to_use_items[u2]->Some_0,
                            (State {
                                ecs: w1,
                                map: s0.map,
                                run_state: s0.run_state,
                                player_entity: s0.player_entity,
                                player_pos: s0.player_pos,
                                log: log1,
                            }),
                        ))
                        &&& (w0.wants_to_use_items[u2]->Some_0.item >= n ==> w1 == w0)
                        &&& (w0.consumables[w0.wants_to_use_items[u2]->Some_0.item as int] is Some
                            && w0.wants_to_use_items[u2]->Some_0.item < n ==> consumed@
                            =~= seq![w0.wants_to_use_items[u2]->Some_0.item])
                        &&& (!(w0.consumables[w0.wants_to_use_items[u2]->Some_0.item as int]
                            is Some && w0.wants_to_use_items[u2]->Some_0.item < n) ==> consumed@.len()
                            == 0)
                    },
                forall|e2: int|
                    0 <= e2 < n ==> ((#[trigger] state.ecs.wants_to_use_items[e2])
                        == w0.wants_to_use_items[e2] || state.ecs.wants_to_use_items[e2] is None),
                state.log.entries@.len() >= s0.log.entries@.len(),
                state.log.entries@.subrange(0, s0.log.entries@.len() as int) == s0.log.entries@,
                state.map == s0.map,
                state.run_state == s0.run_state,
                state.player_entity == s0.player_entity,
                state.player_pos == s0.player_pos,
            decreases m - k,
        {
            let victim = consumed[k];
            if victim != state.player_entity {
                let ghost pre_ecs = state.ecs;
                state.ecs.delete_entity(victim);
                proof {
                    assert forall|u2: int| sole_user(w0, u2) implies {
                        &&& (k + 1 > 0 ==> use_applied_core(s0, u2, state.ecs))
                    } by {
                        assert(consumed@ =~= seq![w0.wants_to_use_items[u2]->Some_0.item]);
                        assert(victim == w0.wants_to_use_items[u2]->Some_0.item);
                        assert(pre_ecs == w1);
                    }
                }
            } else {
                proof {
                    assert forall|u2: int| sole_user(w0, u2) implies {
                        &&& (k + 1 > 0 ==> use_applied_core(s0, u2, state.ecs))
                    } by {
                        assert(consumed@ =~= seq![w0.wants_to_use_items[u2]->Some_0.item]);
                        assert(victim == w0.wants_to_use_items[u2]->Some_0.item);
                        assert(state.ecs == w1);
                    }
                }
            }
            k = k + 1;
        }
        proof {
            assert forall|u2: int| sole_user(w0, u2) && m == 0 implies use_applied_core(
                s0,
                u2,
                state.ecs,
            ) by {
                assert(state.ecs == w1);
                let itm = w0.wants_to_use_items[u2]->Some_0.item;
                if itm < n {
                    assert(!(w0.consumables[itm as int] is Some));
                } else {
                    assert(w1 == w0);
                }
            }
        }

        let mut c: usize = 0;
        while c < n
            invariant
                state.ecs.wf(),
                state.map.wf(),
                n == state.ecs.num_entities(),
                c <= n,
                s0 == *old(state),
                w0 == s0.ecs,
                forall|e2: int|
                    0 <= e2 < c ==> (#[trigger] state.ecs.wants_to_use_items[e2]) is None,
                forall|e2: int|
                    c <= e2 < n ==> ((#[trigger] state.ecs.wants_to_use_items[e2])
                        == w0.wants_to_use_items[e2] || state.ecs.wants_to_use_items[e2] is None),
                forall|t: int|
                    0 <= t < n && (#[trigger] state.ecs.alive[t]) ==> w0.alive[t],
                forall|t: int|
                    0 <= t < n && w0.alive[t] && !(#[trigger] state.ecs.alive[t])
                        ==> w0.consumables[t] is Some,
                only_deleted(w0.positions@, state.ecs.positions@, w0, state.ecs.alive@),
                only_deleted(w0.items@, state.ecs.items@, w0, state.ecs.alive@),
                only_deleted(w0.in_backpacks@, state.ecs.in_backpacks@, w0, state.ecs.alive@),
                only_deleted(w0.names@, state.ecs.names@, w0, state.ecs.alive@),
                only_deleted(w0.wants_to_melees@, state.ecs.wants_to_melees@, w0, state.ecs.alive@),
                only_deleted(
                    w0.wants_to_pickup_items@,
                    state.ecs.wants_to_pickup_items@,
                    w0,
                    state.ecs.alive@,
                ),
                only_deleted(
                    w0.wants_to_drop_items@,
                    state.ecs.wants_to_drop_items@,
                    w0,
                    state.ecs.alive@,
                ),
                forall|t: int|
                    0 <= t < n ==> ((#[trigger] state.ecs.players[t]) is Some <==> t
                        == s0.player_entity as int),
                state.ecs.alive[s0.player_entity as int],
                s0.player_entity < n,
                forall|t: int|
                    0 <= t < n && state.ecs.alive[t] && (#[trigger] state.ecs.positions[t])
                        is Some ==> {
                        &&& 0 <= state.ecs.positions[t]->Some_0.x < WIDTH
                        &&& 0 <= state.ecs.positions[t]->Some_0.y < HEIGHT
                    },
                forall|u2: int| sole_user(w0, u2) ==> use_applied_core(s0, u2, state.ecs),
                state.log.entries@.len() >= s0.log.entries@.len(),
                state.log.entries@.subrange(0, s0.log.entries@.len() as int) == s0.log.entries@,
                state.map == s0.map,
                state.run_state == s0.run_state,
                state.player_entity == s0.player_entity,
                state.player_pos == s0.player_pos,
            decreases n - c,
        {
            state.ecs.wants_to_use_items[c] = None;
            c = c + 1;
        }
    }
}

} // verus!
