use vstd::prelude::*;

use crate::State;
use crate::components::CombatStats;
use crate::components::LogEntry;
use crate::world::World;

verus! {

/// The sum of a batch of pending damage amounts.
pub open spec fn total(amounts: Seq<u32>) -> int
    decreases amounts.len(),
{
    if amounts.len() == 0 {
        0
    } else {
        total(amounts.drop_last()) + amounts.last()
    }
}

/// Hit points after damage is applied: the plain difference, held at the
/// representable minimum in the degenerate case (hp may go negative; only
/// the death sweep reads it).
pub open spec fn hp_after(hp: int, tot: int) -> int {
    if hp - tot < i32::MIN as int {
        i32::MIN as int
    } else {
        hp - tot
    }
}

/// N simultaneous damage instances lower hp by exactly their sum.
pub proof fn lemma_simultaneous_damage(hp: int, amounts: Seq<u32>)
    requires
        i32::MIN <= hp - total(amounts),
    ensures
        hp_after(hp, total(amounts)) == hp - total(amounts),
{
}

proof fn lemma_total_nonneg(amounts: Seq<u32>)
    ensures
        total(amounts) >= 0,
    decreases amounts.len(),
{
    if amounts.len() > 0 {
        lemma_total_nonneg(amounts.drop_last());
    }
}

fn sum_amounts(v: &Vec<u32>) -> (t: i128)
    ensures
        t == total(v@),
        0 <= t <= 0xffff_ffff_ffff_ffff_ffff_ffff,
{
    let n = v.len();
    let mut acc: i128 = 0;
    let mut k: usize = 0;
    while k < n
        invariant
            n == v@.len(),
            k <= n,
            acc == total(v@.take(k as int)),
            0 <= acc <= k * 0xffff_ffff,
        decreases n - k,
    {
        let a = v[k];
        proof {
            assert(v@.take(k + 1).drop_last() =~= v@.take(k as int));
            assert(v@.take(k + 1).last() == v@[k as int]);
        }
        acc = acc + a as i128;
        k = k + 1;
    }
    proof {
        assert(v@.take(n as int) =~= v@);
    }
    acc
}

/// An entity the sweep removes: it is alive, its hit points have reached
/// zero, and it is not the player (the player's death is only reported).
pub open spec fn dead_now(w: World, player: int, e: int) -> bool {
    &&& w.is_alive(e)
    &&& w.combat_stats[e] is Some
    &&& w.combat_stats[e]->Some_0.hp <= 0
    &&& e != player
}

/// The stats storage after damage application: each entity with pending
/// damage has the batch total subtracted from its hit points.
pub open spec fn stats_after_damage(w: World, e: int) -> Option<CombatStats> {
    if w.is_alive(e) && w.combat_stats[e] is Some && w.suffer_damages[e] is Some {
        let s = w.combat_stats[e]->Some_0;
        Some(
            CombatStats {
                hp: hp_after(s.hp as int, total(w.suffer_damages[e]->Some_0.amount@)) as i32,
                ..s
            },
        )
    } else {
        w.combat_stats[e]
    }
}

/// The messages the death sweep writes, in entity order: a stylized message
/// for the player, an obituary for every named other.
pub open spec fn death_log_upto(w: World, player: int, n: int) -> Seq<LogEntry>
    decreases n,
{
    if n <= 0 {
        Seq::empty()
    } else {
        let prefix = death_log_upto(w, player, n - 1);
        let e = n - 1;
        if w.is_alive(e) && w.combat_stats[e] is Some && w.combat_stats[e]->Some_0.hp <= 0 {
            if e == player {
                prefix.push(LogEntry::PlayerDeath)
            } else if w.names[e] is Some {
                prefix.push(LogEntry::Death { victim: e as usize })
            } else {
                prefix
            }
        } else {
            prefix
        }
    }
}

/// One damage-application pass, relating the whole state before (`s0`) and
/// after (`s1`): each entity's pending damage total is subtracted from its
/// hit points in one step, every accumulator is cleared, and nothing else
/// changes.
#[verifier::opaque]
pub open spec fn damage_ran(s0: State, s1: State) -> bool {
    &&& s1.wf()
    &&& forall|e: int|
        0 <= e < s0.ecs.num_entities() ==> (#[trigger] s1.ecs.combat_stats[e])
            == stats_after_damage(s0.ecs, e)
    &&& forall|e: int|
        0 <= e < s0.ecs.num_entities() ==> (#[trigger] s1.ecs.suffer_damages[e]) is None
    &&& s1.ecs.alive == s0.ecs.alive
    &&& s1.ecs.positions == s0.ecs.positions
    &&& s1.ecs.renderables == s0.ecs.renderables
    &&& s1.ecs.players == s0.ecs.players
    &&& s1.ecs.viewsheds == s0.ecs.viewsheds
    &&& s1.ecs.monsters == s0.ecs.monsters
    &&& s1.ecs.names == s0.ecs.names
    &&& s1.ecs.blocks_tiles == s0.ecs.blocks_tiles
    &&& s1.ecs.wants_to_melees == s0.ecs.wants_to_melees
    &&& s1.ecs.items == s0.ecs.items
    &&& s1.ecs.provides_healings == s0.ecs.provides_healings
    &&& s1.ecs.in_backpacks == s0.ecs.in_backpacks
    &&& s1.ecs.wants_to_pickup_items == s0.ecs.wants_to_pickup_items
    &&& s1.ecs.wants_to_use_items == s0.ecs.wants_to_use_items
    &&& s1.ecs.wants_to_drop_items == s0.ecs.wants_to_drop_items
    &&& s1.ecs.consumables == s0.ecs.consumables
    &&& s1.ecs.inflicts_damages == s0.ecs.inflicts_damages
    &&& s1.ecs.rangeds == s0.ecs.rangeds
    &&& s1.ecs.areas_of_effect == s0.ecs.areas_of_effect
    &&& s1.ecs.confusions == s0.ecs.confusions
    &&& s1.map == s0.map
    &&& s1.run_state == s0.run_state
    &&& s1.player_entity == s0.player_entity
    &&& s1.player_pos == s0.player_pos
    &&& s1.log == s0.log
}

/// Subtracts each entity's accumulated damage total from its hit points (no
/// floor: hp may go negative until the sweep) and clears every accumulator.
pub struct DamageSystem {}

impl DamageSystem {
    pub fn run(state: &mut State)
        requires
            old(state).wf(),
        ensures
            final(state).wf(),
            damage_ran(*old(state), *final(state)),
            forall|e: int|
                0 <= e < old(state).ecs.num_entities() ==> (#[trigger] final(state).ecs.combat_stats[e]) == stats_after_damage(old(state).ecs, e),
            forall|e: int|
                0 <= e < old(state).ecs.num_entities() ==> (#[trigger] final(state).ecs.suffer_damages[e]) is None,
            final(state).ecs.alive == old(state).ecs.alive,
            final(state).ecs.positions == old(state).ecs.positions,
            final(state).ecs.renderables == old(state).ecs.renderables,
            final(state).ecs.players == old(state).ecs.players,
            final(state).ecs.viewsheds == old(state).ecs.viewsheds,
            final(state).ecs.monsters == old(state).ecs.monsters,
            final(state).ecs.names == old(state).ecs.names,
            final(state).ecs.blocks_tiles == old(state).ecs.blocks_tiles,
            final(state).ecs.wants_to_melees == old(state).ecs.wants_to_melees,
            final(state).ecs.items == old(state).ecs.items,
            final(state).ecs.provides_healings == old(state).ecs.provides_healings,
            final(state).ecs.in_backpacks == old(state).ecs.in_backpacks,
            final(state).ecs.wants_to_pickup_items == old(state).ecs.wants_to_pickup_items,
            final(state).ecs.wants_to_use_items == old(state).ecs.wants_to_use_items,
            final(state).ecs.wants_to_drop_items == old(state).ecs.wants_to_drop_items,
            final(state).ecs.consumables == old(state).ecs.consumables,
            final(state).ecs.inflicts_damages == old(state).ecs.inflicts_damages,
            final(state).ecs.rangeds == old(state).ecs.rangeds,
            final(state).ecs.areas_of_effect == old(state).ecs.areas_of_effect,
            final(state).ecs.confusions == old(state).ecs.confusions,
            final(state).map == old(state).map,
            final(state).run_state == old(state).run_state,
            final(state).player_entity == old(state).player_entity,
            final(state).player_pos == old(state).player_pos,
            final(state).log == old(state).log,
    {
        proof {
            reveal(damage_ran);
        }
        let ghost w = state.ecs;
        let n = state.ecs.alive.len();
        let mut e: usize = 0;
        while e < n
            invariant
                state.wf(),
                n == state.ecs.num_entities(),
                e <= n,
                w == old(state).ecs,
                forall|e2: int|
                    0 <= e2 < e ==> (#[trigger] state.ecs.combat_stats[e2]) == stats_after_damage(
                        w,
                        e2,
                    ),
                forall|e2: int| e <= e2 < n ==> state.ecs.combat_stats[e2] == w.combat_stats[e2],
                state.ecs.alive == w.alive,
                state.ecs.positions == w.positions,
                state.ecs.renderables == w.renderables,
                state.ecs.players == w.players,
                state.ecs.viewsheds == w.viewsheds,
                state.ecs.monsters == w.monsters,
                state.ecs.names == w.names,
                state.ecs.blocks_tiles == w.blocks_tiles,
                state.ecs.wants_to_melees == w.wants_to_melees,
                state.ecs.suffer_damages == w.suffer_damages,
                state.ecs.items == w.items,
                state.ecs.provides_healings == w.provides_healings,
                state.ecs.in_backpacks == w.in_backpacks,
                state.ecs.wants_to_pickup_items == w.wants_to_pickup_items,
                state.ecs.wants_to_use_items == w.wants_to_use_items,
                state.ecs.wants_to_drop_items == w.wants_to_drop_items,
                state.ecs.consumables == w.consumables,
                state.ecs.inflicts_damages == w.inflicts_damages,
                state.ecs.rangeds == w.rangeds,
                state.ecs.areas_of_effect == w.areas_of_effect,
                state.ecs.confusions == w.confusions,
                state.map == old(state).map,
                state.run_state == old(state).run_state,
                state.player_entity == old(state).player_entity,
                state.player_pos == old(state).player_pos,
                state.log == old(state).log,
            decreases n - e,
        {
            let applies = state.ecs.alive[e] && state.ecs.combat_stats[e].is_some()
                && state.ecs.suffer_damages[e].is_some();
            if applies {
                let tot = match &state.ecs.suffer_damages[e] {
                    Some(sd) => sum_amounts(&sd.amount),
                    None => 0,
                };
                proof {
                    lemma_total_nonneg(w.suffer_damages[e as int]->Some_0.amount@);
                }
                let stats = state.ecs.combat_stats[e].unwrap();
                let nh = stats.hp as i128 - tot;
                let new_hp: i32 = if nh < i32::MIN as i128 {
                    i32::MIN
                } else {
                    nh as i32
                };
                state.ecs.combat_stats[e] = Some(
                    CombatStats {
                        max_hp: stats.max_hp,
                        hp: new_hp,
                        defense: stats.defense,
                        power: stats.power,
                    },
                );
            }
            e = e + 1;
        }

        let mut c: usize = 0;
        while c < n
            invariant
                state.wf(),
                n == state.ecs.num_entities(),
                c <= n,
                w == old(state).ecs,
                forall|e2: int|
                    0 <= e2 < n ==> (#[trigger] state.ecs.combat_stats[e2]) == stats_after_damage(
                        w,
                        e2,
                    ),
                forall|e2: int| 0 <= e2 < c ==> (#[trigger] state.ecs.suffer_damages[e2]) is None,
                forall|e2: int| c <= e2 < n ==> state.ecs.suffer_damages[e2] == w.suffer_damages[e2],
                state.ecs.alive == w.alive,
                state.ecs.positions == w.positions,
                state.ecs.renderables == w.renderables,
                state.ecs.players == w.players,
                state.ecs.viewsheds == w.viewsheds,
                state.ecs.monsters == w.monsters,
                state.ecs.names == w.names,
                state.ecs.blocks_tiles == w.blocks_tiles,
                state.ecs.wants_to_melees == w.wants_to_melees,
                state.ecs.items == w.items,
                state.ecs.provides_healings == w.provides_healings,
                state.ecs.in_backpacks == w.in_backpacks,
                state.ecs.wants_to_pickup_items == w.wants_to_pickup_items,
                state.ecs.wants_to_use_items == w.wants_to_use_items,
                state.ecs.wants_to_drop_items == w.wants_to_drop_items,
                state.ecs.consumables == w.consumables,
                state.ecs.inflicts_damages == w.inflicts_damages,
                state.ecs.rangeds == w.rangeds,
                state.ecs.areas_of_effect == w.areas_of_effect,
                state.ecs.confusions == w.confusions,
                state.map == old(state).map,
                state.run_state == old(state).run_state,
                state.player_entity == old(state).player_entity,
                state.player_pos == old(state).player_pos,
                state.log == old(state).log,
            decreases n - c,
        {
            state.ecs.suffer_damages[c] = None;
            c = c + 1;
        }
    }
}

/// The optional-component storage after the first `k` listed entities have
/// been stripped of their components.
pub open spec fn cleared_upto<T>(s0: Seq<Option<T>>, dead: Seq<usize>, k: int) -> Seq<Option<T>>
    decreases k,
{
    if k <= 0 {
        s0
    } else {
        cleared_upto(s0, dead, k - 1).update(dead[k - 1] as int, None)
    }
}

/// The liveness flags after the first `k` listed entities have been removed.
pub open spec fn deadened_upto(s0: Seq<bool>, dead: Seq<usize>, k: int) -> Seq<bool>
    decreases k,
{
    if k <= 0 {
        s0
    } else {
        deadened_upto(s0, dead, k - 1).update(dead[k - 1] as int, false)
    }
}

/// Entity `e` appears among the first `k` entries of the removal list.
pub open spec fn listed(dead: Seq<usize>, k: int, e: int) -> bool {
    exists|j: int| 0 <= j < k && (#[trigger] dead[j]) as int == e
}

proof fn lemma_cleared_at<T>(s0: Seq<Option<T>>, dead: Seq<usize>, k: int, e: int)
    requires
        0 <= e < s0.len(),
        0 <= k <= dead.len(),
        forall|j: int| 0 <= j < k ==> (#[trigger] dead[j]) < s0.len(),
    ensures
        cleared_upto(s0, dead, k).len() == s0.len(),
        cleared_upto(s0, dead, k)[e] == (if listed(dead, k, e) {
            Option::<T>::None
        } else {
            s0[e]
        }),
    decreases k,
{
    if k > 0 {
        lemma_cleared_at(s0, dead, k - 1, e);
        if dead[k - 1] as int == e {
            assert(listed(dead, k, e));
        } else {
            if listed(dead, k - 1, e) {
                let j = choose|j: int| 0 <= j < k - 1 && (#[trigger] dead[j]) as int == e;
                assert(listed(dead, k, e));
            }
            if listed(dead, k, e) {
                let j = choose|j: int| 0 <= j < k && (#[trigger] dead[j]) as int == e;
                assert(j < k - 1);
                assert(listed(dead, k - 1, e));
            }
        }
    }
}

proof fn lemma_deadened_at(s0: Seq<bool>, dead: Seq<usize>, k: int, e: int)
    requires
        0 <= e < s0.len(),
        0 <= k <= dead.len(),
        forall|j: int| 0 <= j < k ==> (#[trigger] dead[j]) < s0.len(),
    ensures
        deadened_upto(s0, dead, k).len() == s0.len(),
        deadened_upto(s0, dead, k)[e] == (if listed(dead, k, e) {
            false
        } else {
            s0[e]
        }),
    decreases k,
{
    if k > 0 {
        lemma_deadened_at(s0, dead, k - 1, e);
        if dead[k - 1] as int == e {
            assert(listed(dead, k, e));
        } else {
            if listed(dead, k - 1, e) {
                let j = choose|j: int| 0 <= j < k - 1 && (#[trigger] dead[j]) as int == e;
                assert(listed(dead, k, e));
            }
            if listed(dead, k, e) {
                let j = choose|j: int| 0 <= j < k && (#[trigger] dead[j]) as int == e;
                assert(j < k - 1);
                assert(listed(dead, k - 1, e));
            }
        }
    }
}

/// One death sweep, relating the whole state before (`s0`) and after (`s1`):
/// exactly the entities dead at entry are removed and stripped of their
/// components, every survivor keeps every slot, and the obituaries are
/// appended to the log.
#[verifier::opaque]
pub open spec fn sweep_ran(s0: State, s1: State) -> bool {
    &&& s1.wf()
    &&& s1.ecs.num_entities() == s0.ecs.num_entities()
    &&& forall|e: int|
        0 <= e < s0.ecs.num_entities() ==> s1.ecs.alive[e] == (s0.ecs.alive[e] && !dead_now(
            s0.ecs,
            s0.player_entity as int,
            e,
        ))
    &&& forall|e: int|
        0 <= e < s0.ecs.num_entities() && !dead_now(s0.ecs, s0.player_entity as int, e) ==> {
            &&& s1.ecs.positions[e] == s0.ecs.positions[e]
            &&& s1.ecs.renderables[e] == s0.ecs.renderables[e]
            &&& s1.ecs.players[e] == s0.ecs.players[e]
            &&& s1.ecs.viewsheds[e] == s0.ecs.viewsheds[e]
            &&& s1.ecs.monsters[e] == s0.ecs.monsters[e]
            &&& s1.ecs.names[e] == s0.ecs.names[e]
            &&& s1.ecs.blocks_tiles[e] == s0.ecs.blocks_tiles[e]
            &&& s1.ecs.combat_stats[e] == s0.ecs.combat_stats[e]
            &&& s1.ecs.wants_to_melees[e] == s0.ecs.wants_to_melees[e]
            &&& s1.ecs.suffer_damages[e] == s0.ecs.suffer_damages[e]
            &&& s1.ecs.items[e] == s0.ecs.items[e]
            &&& s1.ecs.provides_healings[e] == s0.ecs.provides_healings[e]
            &&& s1.ecs.in_backpacks[e] == s0.ecs.in_backpacks[e]
            &&& s1.ecs.wants_to_pickup_items[e] == s0.ecs.wants_to_pickup_items[e]
            &&& s1.ecs.wants_to_use_items[e] == s0.ecs.wants_to_use_items[e]
            &&& s1.ecs.wants_to_drop_items[e] == s0.ecs.wants_to_drop_items[e]
            &&& s1.ecs.consumables[e] == s0.ecs.consumables[e]
            &&& s1.ecs.inflicts_damages[e] == s0.ecs.inflicts_damages[e]
            &&& s1.ecs.rangeds[e] == s0.ecs.rangeds[e]
            &&& s1.ecs.areas_of_effect[e] == s0.ecs.areas_of_effect[e]
            &&& s1.ecs.confusions[e] == s0.ecs.confusions[e]
        }
    &&& forall|e: int|
        0 <= e < s0.ecs.num_entities() && dead_now(s0.ecs, s0.player_entity as int, e) ==> {
            &&& (#[trigger] s1.ecs.positions[e]) is None
            &&& s1.ecs.combat_stats[e] is None
            &&& s1.ecs.in_backpacks[e] is None
            &&& s1.ecs.items[e] is None
            &&& s1.ecs.wants_to_melees[e] is None
            &&& s1.ecs.wants_to_pickup_items[e] is None
            &&& s1.ecs.wants_to_use_items[e] is None
            &&& s1.ecs.wants_to_drop_items[e] is None
        }
    &&& (crate::intents_clear(s0.ecs) ==> crate::intents_clear(s1.ecs))
    &&& (s0.ecs.items_placed() ==> s1.ecs.items_placed())
    &&& s1.log.entries@ == s0.log.entries@ + death_log_upto(
        s0.ecs,
        s0.player_entity as int,
        s0.ecs.num_entities(),
    )
    &&& s1.map == s0.map
    &&& s1.run_state == s0.run_state
    &&& s1.player_entity == s0.player_entity
    &&& s1.player_pos == s0.player_pos
}

/// Sweep the dead: every non-player entity whose hit points reached zero is
/// removed (after the scan, never during it); a death message is logged for
/// each named casualty, and a stylized one when the player's own hit points
/// are gone. The player entity itself is never removed.
pub fn delete_the_dead(state: &mut State)
    requires
        old(state).wf(),
    ensures
        sweep_ran(*old(state), *final(state)),
        final(state).wf(),
        final(state).ecs.num_entities() == old(state).ecs.num_entities(),
        forall|e: int|
            0 <= e < old(state).ecs.num_entities() ==> final(state).ecs.alive[e] == (old(
                state,
            ).ecs.alive[e] && !dead_now(old(state).ecs, old(state).player_entity as int, e)),
        forall|e: int|
            0 <= e < old(state).ecs.num_entities() && !dead_now(
                old(state).ecs,
                old(state).player_entity as int,
                e,
            ) ==> {
                &&& final(state).ecs.positions[e] == old(state).ecs.positions[e]
                &&& final(state).ecs.renderables[e] == old(state).ecs.renderables[e]
                &&& final(state).ecs.players[e] == old(state).ecs.players[e]
                &&& final(state).ecs.viewsheds[e] == old(state).ecs.viewsheds[e]
                &&& final(state).ecs.monsters[e] == old(state).ecs.monsters[e]
                &&& final(state).ecs.names[e] == old(state).ecs.names[e]
                &&& final(state).ecs.blocks_tiles[e] == old(state).ecs.blocks_tiles[e]
                &&& final(state).ecs.combat_stats[e] == old(state).ecs.combat_stats[e]
                &&& final(state).ecs.wants_to_melees[e] == old(state).ecs.wants_to_melees[e]
                &&& final(state).ecs.suffer_damages[e] == old(state).ecs.suffer_damages[e]
                &&& final(state).ecs.items[e] == old(state).ecs.items[e]
                &&& final(state).ecs.provides_healings[e] == old(state).ecs.provides_healings[e]
                &&& final(state).ecs.in_backpacks[e] == old(state).ecs.in_backpacks[e]
                &&& final(state).ecs.wants_to_pickup_items[e] == old(
                    state,
                ).ecs.wants_to_pickup_items[e]
                &&& final(state).ecs.wants_to_use_items[e] == old(state).ecs.wants_to_use_items[e]
                &&& final(state).ecs.wants_to_drop_items[e] == old(state).ecs.wants_to_drop_items[e]
                &&& final(state).ecs.consumables[e] == old(state).ecs.consumables[e]
                &&& final(state).ecs.inflicts_damages[e] == old(state).ecs.inflicts_damages[e]
                &&& final(state).ecs.rangeds[e] == old(state).ecs.rangeds[e]
                &&& final(state).ecs.areas_of_effect[e] == old(state).ecs.areas_of_effect[e]
                &&& final(state).ecs.confusions[e] == old(state).ecs.confusions[e]
            },
        forall|e: int|
            0 <= e < old(state).ecs.num_entities() && dead_now(
                old(state).ecs,
                old(state).player_entity as int,
                e,
            ) ==> {
                &&& (#[trigger] final(state).ecs.positions[e]) is None
                &&& final(state).ecs.combat_stats[e] is None
                &&& final(state).ecs.in_backpacks[e] is None
                &&& final(state).ecs.items[e] is None
                &&& final(state).ecs.wants_to_melees[e] is None
                &&& final(state).ecs.wants_to_pickup_items[e] is None
                &&& final(state).ecs.wants_to_use_items[e] is None
                &&& final(state).ecs.wants_to_drop_items[e] is None
            },
        crate::intents_clear(old(state).ecs) ==> crate::intents_clear(final(state).ecs),
        old(state).ecs.items_placed() ==> final(state).ecs.items_placed(),
        final(state).log.entries@ == old(state).log.entries@ + death_log_upto(
            old(state).ecs,
            old(state).player_entity as int,
            old(state).ecs.num_entities(),
        ),
        final(state).map == old(state).map,
        final(state).run_state == old(state).run_state,
        final(state).player_entity == old(state).player_entity,
        final(state).player_pos == old(state).player_pos,
{
    proof {
        reveal(sweep_ran);
    }
    let ghost w = state.ecs;
    let ghost player = state.player_entity as int;
    let ghost log0 = state.log.entries@;
    let n = state.ecs.alive.len();
    let mut dead: Vec<usize> = Vec::new();
    let mut e: usize = 0;
    while e < n
        invariant
            state.wf(),
            n == state.ecs.num_entities(),
            e <= n,
            w == state.ecs,
            player == state.player_entity as int,
            state.log.entries@ == log0 + death_log_upto(w, player, e as int),
            forall|j: int| 0 <= j < dead@.len() ==> dead_now(w, player, (#[trigger] dead@[j]) as int),
            forall|e2: int|
                0 <= e2 < e && dead_now(w, player, e2) ==> listed(dead@, dead@.len() as int, e2),
            state.map == old(state).map,
            state.run_state == old(state).run_state,
            state.player_entity == old(state).player_entity,
            state.player_pos == old(state).player_pos,
        decreases n - e,
    {
        let doomed = state.ecs.alive[e] && state.ecs.combat_stats[e].is_some();
        if doomed {
            let stats = state.ecs.combat_stats[e].unwrap();
            if stats.hp <= 0 {
                if e == state.player_entity {
                    state.log.entries.push(LogEntry::PlayerDeath);
                } else {
                    if state.ecs.names[e].is_some() {
                        state.log.entries.push(LogEntry::Death { victim: e });
                    }
                    let ghost prev = dead@;
                    dead.push(e);
                    proof {
                        assert(dead@[prev.len() as int] == e);
                        assert forall|e2: int|
                            0 <= e2 < e + 1 && dead_now(w, player, e2) implies listed(
                            dead@,
                            dead@.len() as int,
                            e2,
                        ) by {
                            if e2 == e as int {
                                assert((dead@[prev.len() as int]) as int == e2);
                            } else {
                                let j = choose|j: int|
                                    0 <= j < prev.len() && (#[trigger] prev[j]) as int == e2;
                                assert((dead@[j]) as int == e2);
                            }
                        }
                    }
                }
            }
        }
        e = e + 1;
    }

    let ghost deads = dead@;
    let m = dead.len();
    let mut k: usize = 0;
    while k < m
        invariant
            n == state.ecs.num_entities(),
            m == deads.len(),
            deads == dead@,
            k <= m,
            state.ecs.wf(),
            forall|j: int| 0 <= j < m ==> (#[trigger] deads[j]) < n,
            w.wf(),
            n == w.num_entities(),
            state.ecs.alive@ == deadened_upto(w.alive@, deads, k as int),
            state.ecs.positions@ == cleared_upto(w.positions@, deads, k as int),
            state.ecs.renderables@ == cleared_upto(w.renderables@, deads, k as int),
            state.ecs.players@ == cleared_upto(w.players@, deads, k as int),
            state.ecs.viewsheds@ == cleared_upto(w.viewsheds@, deads, k as int),
            state.ecs.monsters@ == cleared_upto(w.monsters@, deads, k as int),
            state.ecs.names@ == cleared_upto(w.names@, deads, k as int),
            state.ecs.blocks_tiles@ == cleared_upto(w.blocks_tiles@, deads, k as int),
            state.ecs.combat_stats@ == cleared_upto(w.combat_stats@, deads, k as int),
            state.ecs.wants_to_melees@ == cleared_upto(w.wants_to_melees@, deads, k as int),
            state.ecs.suffer_damages@ == cleared_upto(w.suffer_damages@, deads, k as int),
            state.ecs.items@ == cleared_upto(w.items@, deads, k as int),
            state.ecs.provides_healings@ == cleared_upto(w.provides_healings@, deads, k as int),
            state.ecs.in_backpacks@ == cleared_upto(w.in_backpacks@, deads, k as int),
            state.ecs.wants_to_pickup_items@ == cleared_upto(
                w.wants_to_pickup_items@,
                deads,
                k as int,
            ),
            state.ecs.wants_to_use_items@ == cleared_upto(w.wants_to_use_items@, deads, k as int),
            state.ecs.wants_to_drop_items@ == cleared_upto(w.wants_to_drop_items@, deads, k as int),
            state.ecs.consumables@ == cleared_upto(w.consumables@, deads, k as int),
            state.ecs.inflicts_damages@ == cleared_upto(w.inflicts_damages@, deads, k as int),
            state.ecs.rangeds@ == cleared_upto(w.rangeds@, deads, k as int),
            state.ecs.areas_of_effect@ == cleared_upto(w.areas_of_effect@, deads, k as int),
            state.ecs.confusions@ == cleared_upto(w.confusions@, deads, k as int),
            state.log.entries@ == log0 + death_log_upto(w, player, n as int),
            state.map == old(state).map,
            state.run_state == old(state).run_state,
            state.player_entity == old(state).player_entity,
            state.player_pos == old(state).player_pos,
        decreases m - k,
    {
        let victim = dead[k];
        state.ecs.delete_entity(victim);
        k = k + 1;
    }

    proof {
        assert(w == old(state).ecs);
        let nn = w.num_entities();
        assert forall|j: int| 0 <= j < m implies (#[trigger] deads[j]) < nn by {
            assert(dead_now(w, player, deads[j] as int));
        }
        assert forall|e2: int| 0 <= e2 < nn implies listed(deads, m as int, e2) == dead_now(
            w,
            player,
            e2,
        ) by {
            if listed(deads, m as int, e2) {
                let j = choose|j: int| 0 <= j < m && (#[trigger] deads[j]) as int == e2;
                assert(dead_now(w, player, deads[j] as int));
            }
        }
        assert forall|e: int|
            0 <= e < old(state).ecs.num_entities() implies state.ecs.alive[e] == (old(
            state,
        ).ecs.alive[e] && !dead_now(old(state).ecs, old(state).player_entity as int, e)) by {
            lemma_deadened_at(w.alive@, deads, m as int, e);
        }
        assert forall|e: int|
            0 <= e < old(state).ecs.num_entities() && !dead_now(
                old(state).ecs,
                old(state).player_entity as int,
                e,
            ) implies {
            &&& state.ecs.positions[e] == old(state).ecs.positions[e]
            &&& state.ecs.renderables[e] == old(state).ecs.renderables[e]
            &&& state.ecs.players[e] == old(state).ecs.players[e]
            &&& state.ecs.viewsheds[e] == old(state).ecs.viewsheds[e]
            &&& state.ecs.monsters[e] == old(state).ecs.monsters[e]
            &&& state.ecs.names[e] == old(state).ecs.names[e]
            &&& state.ecs.blocks_tiles[e] == old(state).ecs.blocks_tiles[e]
            &&& state.ecs.combat_stats[e] == old(state).ecs.combat_stats[e]
            &&& state.ecs.wants_to_melees[e] == old(state).ecs.wants_to_melees[e]
            &&& state.ecs.suffer_damages[e] == old(state).ecs.suffer_damages[e]
            &&& state.ecs.items[e] == old(state).ecs.items[e]
            &&& state.ecs.provides_healings[e] == old(state).ecs.provides_healings[e]
            &&& state.ecs.in_backpacks[e] == old(state).ecs.in_backpacks[e]
            &&& state.ecs.wants_to_pickup_items[e] == old(state).ecs.wants_to_pickup_items[e]
            &&& state.ecs.wants_to_use_items[e] == old(state).ecs.wants_to_use_items[e]
            &&& state.ecs.wants_to_drop_items[e] == old(state).ecs.wants_to_drop_items[e]
            &&& state.ecs.consumables[e] == old(state).ecs.consumables[e]
            &&& state.ecs.inflicts_damages[e] == old(state).ecs.inflicts_damages[e]
            &&& state.ecs.rangeds[e] == old(state).ecs.rangeds[e]
            &&& state.ecs.areas_of_effect[e] == old(state).ecs.areas_of_effect[e]
            &&& state.ecs.confusions[e] == old(state).ecs.confusions[e]
        } by {
            lemma_cleared_at(w.positions@, deads, m as int, e);
            lemma_cleared_at(w.renderables@, deads, m as int, e);
            lemma_cleared_at(w.players@, deads, m as int, e);
            lemma_cleared_at(w.viewsheds@, deads, m as int, e);
            lemma_cleared_at(w.monsters@, deads, m as int, e);
            lemma_cleared_at(w.names@, deads, m as int, e);
            lemma_cleared_at(w.blocks_tiles@, deads, m as int, e);
            lemma_cleared_at(w.combat_stats@, deads, m as int, e);
            lemma_cleared_at(w.wants_to_melees@, deads, m as int, e);
            lemma_cleared_at(w.suffer_damages@, deads, m as int, e);
            lemma_cleared_at(w.items@, deads, m as int, e);
            lemma_cleared_at(w.provides_healings@, deads, m as int, e);
            lemma_cleared_at(w.in_backpacks@, deads, m as int, e);
            lemma_cleared_at(w.wants_to_pickup_items@, deads, m as int, e);
            lemma_cleared_at(w.wants_to_use_items@, deads, m as int, e);
            lemma_cleared_at(w.wants_to_drop_items@, deads, m as int, e);
            lemma_cleared_at(w.consumables@, deads, m as int, e);
            lemma_cleared_at(w.inflicts_damages@, deads, m as int, e);
            lemma_cleared_at(w.rangeds@, deads, m as int, e);
            lemma_cleared_at(w.areas_of_effect@, deads, m as int, e);
            lemma_cleared_at(w.confusions@, deads, m as int, e);
        }
        assert forall|e: int|
            0 <= e < old(state).ecs.num_entities() && dead_now(
                old(state).ecs,
                old(state).player_entity as int,
                e,
            ) implies {
            &&& (#[trigger] state.ecs.positions[e]) is None
            &&& state.ecs.combat_stats[e] is None
            &&& state.ecs.in_backpacks[e] is None
            &&& state.ecs.items[e] is None
            &&& state.ecs.wants_to_melees[e] is None
            &&& state.ecs.wants_to_pickup_items[e] is None
            &&& state.ecs.wants_to_use_items[e] is None
            &&& state.ecs.wants_to_drop_items[e] is None
        } by {
            lemma_cleared_at(w.positions@, deads, m as int, e);
            lemma_cleared_at(w.combat_stats@, deads, m as int, e);
            lemma_cleared_at(w.in_backpacks@, deads, m as int, e);
            lemma_cleared_at(w.items@, deads, m as int, e);
            lemma_cleared_at(w.wants_to_melees@, deads, m as int, e);
            lemma_cleared_at(w.wants_to_pickup_items@, deads, m as int, e);
            lemma_cleared_at(w.wants_to_use_items@, deads, m as int, e);
            lemma_cleared_at(w.wants_to_drop_items@, deads, m as int, e);
        }
        if crate::intents_clear(w) {
            assert forall|e: int| 0 <= e < n implies (#[trigger] state.ecs.wants_to_melees[e])
                is None by {
                lemma_cleared_at(w.wants_to_melees@, deads, m as int, e);
                assert(w.wants_to_melees[e] is None);
            }
            assert forall|e: int|
                0 <= e < n implies (#[trigger] state.ecs.wants_to_pickup_items[e]) is None by {
                lemma_cleared_at(w.wants_to_pickup_items@, deads, m as int, e);
                assert(w.wants_to_pickup_items[e] is None);
            }
            assert forall|e: int|
                0 <= e < n implies (#[trigger] state.ecs.wants_to_use_items[e]) is None by {
                lemma_cleared_at(w.wants_to_use_items@, deads, m as int, e);
                assert(w.wants_to_use_items[e] is None);
            }
            assert forall|e: int|
                0 <= e < n implies (#[trigger] state.ecs.wants_to_drop_items[e]) is None by {
                lemma_cleared_at(w.wants_to_drop_items@, deads, m as int, e);
                assert(w.wants_to_drop_items[e] is None);
            }
        }
        assert forall|e: int|
            0 <= e < nn implies ((#[trigger] state.ecs.players[e]) is Some <==> e
                == player) by {
            lemma_cleared_at(w.players@, deads, m as int, e);
            assert(!dead_now(w, player, player as int));
        }
        assert(state.ecs.alive[player]) by {
            lemma_deadened_at(w.alive@, deads, m as int, player);
        }
        assert forall|e: int|
            0 <= e < nn && state.ecs.alive[e] && (#[trigger] state.ecs.positions[e])
                is Some implies {
            &&& 0 <= state.ecs.positions[e]->Some_0.x < crate::map::WIDTH
            &&& 0 <= state.ecs.positions[e]->Some_0.y < crate::map::HEIGHT
        } by {
            lemma_cleared_at(w.positions@, deads, m as int, e);
            lemma_deadened_at(w.alive@, deads, m as int, e);
        }
    }
}

} // verus!
