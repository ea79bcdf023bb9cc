use vstd::prelude::*;

use crate::State;
use crate::components::LogEntry;
use crate::components::SufferDamage;
use crate::components::suffer_seq;
use crate::world::World;

verus! {

/// Damage of one blow: attack power less defense, never negative.
pub open spec fn spec_melee_damage(power: int, defense: int) -> int {
    if power > defense {
        power - defense
    } else {
        0
    }
}

/// Combat never deals negative damage.
pub proof fn lemma_damage_nonnegative(power: int, defense: int)
    ensures
        spec_melee_damage(power, defense) >= 0,
{
}

pub fn melee_damage(power: u32, defense: u32) -> (d: u32)
    ensures
        d == spec_melee_damage(power as int, defense as int),
{
    if power > defense {
        power - defense
    } else {
        0
    }
}

/// Entity `e` swings this turn: it is alive with positive hit points, named,
/// and holds a melee intent.
pub open spec fn attacks(w: World, e: int) -> bool {
    &&& w.is_alive(e)
    &&& w.wants_to_melees[e] is Some
    &&& w.names[e] is Some
    &&& w.combat_stats[e] is Some
    &&& w.combat_stats[e]->Some_0.hp > 0
}

pub open spec fn attack_target(w: World, e: int) -> int {
    w.wants_to_melees[e]->Some_0.target as int
}

/// The swing connects: its target also has combat stats and positive hit
/// points.
pub open spec fn attack_lands(w: World, e: int) -> bool {
    &&& attacks(w, e)
    &&& 0 <= attack_target(w, e) < w.num_entities()
    &&& w.combat_stats[attack_target(w, e)] is Some
    &&& w.combat_stats[attack_target(w, e)]->Some_0.hp > 0
}

pub open spec fn hit_damage(w: World, e: int) -> int {
    spec_melee_damage(
        w.combat_stats[e]->Some_0.power as int,
        w.combat_stats[attack_target(w, e)]->Some_0.defense as int,
    )
}

/// The damage amounts entity `t` accumulates from the attackers below `n`,
/// in attacker order; zero-damage swings contribute nothing.
pub open spec fn hits_upto(w: World, t: int, n: int) -> Seq<u32>
    decreases n,
{
    if n <= 0 {
        Seq::empty()
    } else {
        let prefix = hits_upto(w, t, n - 1);
        if attack_lands(w, n - 1) && attack_target(w, n - 1) == t && hit_damage(w, n - 1) > 0 {
            prefix.push(hit_damage(w, n - 1) as u32)
        } else {
            prefix
        }
    }
}

/// The log entries the attackers below `n` produce, in attacker order: a hit
/// message for each damaging swing, a no-effect message for each one fully
/// absorbed.
pub open spec fn melee_log_upto(w: World, n: int) -> Seq<LogEntry>
    decreases n,
{
    if n <= 0 {
        Seq::empty()
    } else {
        let prefix = melee_log_upto(w, n - 1);
        let e = n - 1;
        if attack_lands(w, e) {
            if hit_damage(w, e) == 0 {
                prefix.push(
                    LogEntry::NoScratch {
                        attacker: e as usize,
                        target: attack_target(w, e) as usize,
                    },
                )
            } else {
                prefix.push(
                    LogEntry::Hit {
                        attacker: e as usize,
                        target: attack_target(w, e) as usize,
                        damage: hit_damage(w, e) as u32,
                    },
                )
            }
        } else {
            prefix
        }
    }
}

/// One melee pass, relating the whole state before (`s0`) and after (`s1`):
/// each target accumulates the damage of every landing swing in attacker
/// order, each swing is logged, all melee intents are consumed, and nothing
/// else changes.
#[verifier::opaque]
pub open spec fn melee_ran(s0: State, s1: State) -> bool {
    &&& s1.wf()
    &&& forall|t: int|
        0 <= t < s0.ecs.num_entities() ==> suffer_seq(#[trigger] s1.ecs.suffer_damages[t])
            == suffer_seq(s0.ecs.suffer_damages[t]) + hits_upto(
            s0.ecs,
            t,
            s0.ecs.num_entities(),
        )
    &&& s1.log.entries@ == s0.log.entries@ + melee_log_upto(s0.ecs, s0.ecs.num_entities())
    &&& forall|e: int|
        0 <= e < s0.ecs.num_entities() ==> (#[trigger] s1.ecs.wants_to_melees[e]) is None
    &&& s1.ecs.alive == s0.ecs.alive
    &&& s1.ecs.positions == s0.ecs.positions
    &&& s1.ecs.renderables == s0.ecs.renderables
    &&& s1.ecs.players == s0.ecs.players
    &&& s1.ecs.viewsheds == s0.ecs.viewsheds
    &&& s1.ecs.monsters == s0.ecs.monsters
    &&& s1.ecs.names == s0.ecs.names
    &&& s1.ecs.blocks_tiles == s0.ecs.blocks_tiles
    &&& s1.ecs.combat_stats == s0.ecs.combat_stats
    &&& s1.ecs.items == s0.ecs.items
    &&& s1.ecs.provides_healings == s0.ecs.provides_healings
    &&& s1.ecs.in_backpacks == s0.ecs.in_backpacks
    &&& s1.ecs.wants_to_pickup_items == s0.ecs.wants_to_pickup_items
    &&& s1.ecs.wants_to_use_items == s0.ecs.wants_to_use_items
    &&& s1.ecs.wants_to_drop_items == s0.ecs.wants_to_drop_items
    &&& s1.ecs.consumables == s0.ecs.consumables
    &&& s1.ecs.inflicts_damages == s0.ecs.inflicts_damages
    &&& s1.ecs.rangeds == s0.ecs.rangeds
    &&& s1.ecs.areas_of_effect == s0.ecs.areas_of_effect
    &&& s1.ecs.confusions == s0.ecs.confusions
    &&& s1.map == s0.map
    &&& s1.run_state == s0.run_state
    &&& s1.player_entity == s0.player_entity
    &&& s1.player_pos == s0.player_pos
}

/// Resolves every melee intent of a living attacker against a living target:
/// damage max(0, power - defense) is accumulated onto the target (several
/// simultaneous hits all append), a message is logged for each swing, and
/// every intent is consumed whether or not it had any effect.
pub struct MeleeCombatSystem {}

impl MeleeCombatSystem {
    pub fn run(state: &mut State)
        requires
            old(state).wf(),
        ensures
            final(state).wf(),
            melee_ran(*old(state), *final(state)),
            forall|t: int|
                0 <= t < old(state).ecs.num_entities() ==> suffer_seq(
                    #[trigger] final(state).ecs.suffer_damages[t],
                ) == suffer_seq(old(state).ecs.suffer_damages[t]) + hits_upto(
                    old(state).ecs,
                    t,
                    old(state).ecs.num_entities(),
                ),
            final(state).log.entries@ == old(state).log.entries@ + melee_log_upto(
                old(state).ecs,
                old(state).ecs.num_entities(),
            ),
            forall|e: int|
                0 <= e < old(state).ecs.num_entities() ==> (#[trigger] final(state).ecs.wants_to_melees[e]) is None,
            final(state).ecs.alive == old(state).ecs.alive,
            final(state).ecs.positions == old(state).ecs.positions,
            final(state).ecs.renderables == old(state).ecs.renderables,
            final(state).ecs.players == old(state).ecs.players,
            final(state).ecs.viewsheds == old(state).ecs.viewsheds,
            final(state).ecs.monsters == old(state).ecs.monsters,
            final(state).ecs.names == old(state).ecs.names,
            final(state).ecs.blocks_tiles == old(state).ecs.blocks_tiles,
            final(state).ecs.combat_stats == old(state).ecs.combat_stats,
            final(state).ecs.items == old(state).ecs.items,
            final(state).ecs.provides_healings == old(state).ecs.provides_healings,
            final(state).ecs.in_backpacks == old(state).ecs.in_backpacks,
            final(state).ecs.wants_to_pickup_items == old(state).ecs.wants_to_pickup_items,
            final(state).ecs.wants_to_use_items == old(state).ecs.wants_to_use_items,
            final(state).ecs.wants_to_drop_items == old(state).ecs.wants_to_drop_items,
            final(state).ecs.consumables == old(state).ecs.consumables,
            final(state).ecs.inflicts_damages == old(state).ecs.inflicts_damages,
            final(state).ecs.rangeds == old(state).ecs.rangeds,
            final(state).ecs.areas_of_effect == old(state).ecs.areas_of_effect,
            final(state).ecs.confusions == old(state).ecs.confusions,
            final(state).map == old(state).map,
            final(state).run_state == old(state).run_state,
            final(state).player_entity == old(state).player_entity,
            final(state).player_pos == old(state).player_pos,
    {
        proof {
            reveal(melee_ran);
        }
        let ghost w = state.ecs;
        let ghost log0 = state.log.entries@;
        let n = state.ecs.alive.len();
        let mut e: usize = 0;
        while e < n
            invariant
                state.wf(),
                n == state.ecs.num_entities(),
                e <= n,
                w.wf(),
                n == w.num_entities(),
                forall|t: int|
                    0 <= t < n ==> suffer_seq(#[trigger] state.ecs.suffer_damages[t]) == suffer_seq(
                        w.suffer_damages[t],
                    ) + hits_upto(w, t, e as int),
                state.log.entries@ == log0 + melee_log_upto(w, e as int),
                state.ecs.alive == w.alive,
                state.ecs.positions == w.positions,
                state.ecs.renderables == w.renderables,
                state.ecs.players == w.players,
                state.ecs.viewsheds == w.viewsheds,
                state.ecs.monsters == w.monsters,
                state.ecs.names == w.names,
                state.ecs.blocks_tiles == w.blocks_tiles,
                state.ecs.combat_stats == w.combat_stats,
                state.ecs.wants_to_melees == w.wants_to_melees,
                state.ecs.items == w.items,
                state.ecs.provides_healings == w.provides_healings,
                state.ecs.in_backpacks == w.in_backpacks,
                state.ecs.wants_to_pickup_items == w.wants_to_pickup_items,
                state.ecs.wants_to_use_items == w.wants_to_use_items,
                state.ecs.wants_to_drop_items == w.wants_to_drop_items,
                state.ecs.consumables == w.consumables,
                state.ecs.inflicts_damages == w.inflicts_damages,
                state.ecs.rangeds == w.rangeds,
                state.ecs.areas_of_effect == w.areas_of_effect,
                state.ecs.confusions == w.confusions,
                state.map == old(state).map,
                state.run_state == old(state).run_state,
                state.player_entity == old(state).player_entity,
                state.player_pos == old(state).player_pos,
                w == old(state).ecs,
            decreases n - e,
        {
            let swings = state.ecs.alive[e] && state.ecs.wants_to_melees[e].is_some()
                && state.ecs.names[e].is_some() && state.ecs.combat_stats[e].is_some();
            if swings {
                let stats = state.ecs.combat_stats[e].unwrap();
                if stats.hp > 0 {
                    let target = state.ecs.wants_to_melees[e].unwrap().target;
                    let target_ok = target < n && state.ecs.combat_stats[target].is_some();
                    if target_ok {
                        let target_stats = state.ecs.combat_stats[target].unwrap();
                        if target_stats.hp > 0 {
                            let damage = melee_damage(stats.power, target_stats.defense);
                            if damage == 0 {
                                state.log.entries.push(
                                    LogEntry::NoScratch { attacker: e, target },
                                );
                            } else {
                                let ghost pre = state.ecs.suffer_damages@;
                                SufferDamage::new_damage(
                                    &mut state.ecs.suffer_damages,
                                    target,
                                    damage,
                                );
                                state.log.entries.push(
                                    LogEntry::Hit { attacker: e, target, damage },
                                );
                                proof {
                                    assert(attack_lands(w, e as int));
                                    assert(hit_damage(w, e as int) == damage);
                                    assert forall|t: int| 0 <= t < n implies suffer_seq(
                                        #[trigger] state.ecs.suffer_damages[t],
                                    ) == suffer_seq(w.suffer_damages[t]) + hits_upto(
                                        w,
                                        t,
                                        e + 1,
                                    ) by {
                                        if t == target {
                                            assert(suffer_seq(state.ecs.suffer_damages[t])
                                                == suffer_seq(pre[t]).push(damage));
                                            assert(hits_upto(w, t, e + 1) == hits_upto(
                                                w,
                                                t,
                                                e as int,
                                            ).push(damage));
                                            assert(suffer_seq(w.suffer_damages[t]) + hits_upto(
                                                w,
                                                t,
                                                e + 1,
                                            ) =~= (suffer_seq(w.suffer_damages[t]) + hits_upto(
                                                w,
                                                t,
                                                e as int,
                                            )).push(damage));
                                        } else {
                                            assert(state.ecs.suffer_damages[t] == pre[t]);
                                            assert(hits_upto(w, t, e + 1) == hits_upto(
                                                w,
                                                t,
                                                e as int,
                                            ));
                                        }
                                    }
                                }
                            }
                        }
                    }
                }
            }
            proof {
                if !(attack_lands(w, e as int)) {
                    assert(melee_log_upto(w, e + 1) == melee_log_upto(w, e as int));
                    assert forall|t: int| 0 <= t < n implies hits_upto(w, t, e + 1) == hits_upto(
                        w,
                        t,
                        e as int,
                    ) by {}
                } else if hit_damage(w, e as int) == 0 {
                    assert forall|t: int| 0 <= t < n implies hits_upto(w, t, e + 1) == hits_upto(
                        w,
                        t,
                        e as int,
                    ) by {}
                }
            }
            e = e + 1;
        }

        // every intent is consumed, whether or not it resolved
        let mut c: usize = 0;
        while c < n
            invariant
                state.wf(),
                n == state.ecs.num_entities(),
                c <= n,
                forall|e2: int| 0 <= e2 < c ==> (#[trigger] state.ecs.wants_to_melees[e2]) is None,
                forall|t: int|
                    0 <= t < n ==> suffer_seq(#[trigger] state.ecs.suffer_damages[t]) == suffer_seq(
                        old(state).ecs.suffer_damages[t],
                    ) + hits_upto(old(state).ecs, t, n as int),
                state.log.entries@ == old(state).log.entries@ + melee_log_upto(
                    old(state).ecs,
                    n as int,
                ),
                state.ecs.alive == old(state).ecs.alive,
                state.ecs.positions == old(state).ecs.positions,
                state.ecs.renderables == old(state).ecs.renderables,
                state.ecs.players == old(state).ecs.players,
                state.ecs.viewsheds == old(state).ecs.viewsheds,
                state.ecs.monsters == old(state).ecs.monsters,
                state.ecs.names == old(state).ecs.names,
                state.ecs.blocks_tiles == old(state).ecs.blocks_tiles,
                state.ecs.combat_stats == old(state).ecs.combat_stats,
                state.ecs.items == old(state).ecs.items,
                state.ecs.provides_healings == old(state).ecs.provides_healings,
                state.ecs.in_backpacks == old(state).ecs.in_backpacks,
                state.ecs.wants_to_pickup_items == old(state).ecs.wants_to_pickup_items,
                state.ecs.wants_to_use_items == old(state).ecs.wants_to_use_items,
                state.ecs.wants_to_drop_items == old(state).ecs.wants_to_drop_items,
                state.ecs.consumables == old(state).ecs.consumables,
                state.ecs.inflicts_damages == old(state).ecs.inflicts_damages,
                state.ecs.rangeds == old(state).ecs.rangeds,
                state.ecs.areas_of_effect == old(state).ecs.areas_of_effect,
                state.ecs.confusions == old(state).ecs.confusions,
                state.map == old(state).map,
                state.run_state == old(state).run_state,
                state.player_entity == old(state).player_entity,
                state.player_pos == old(state).player_pos,
            decreases n - c,
        {
            state.ecs.wants_to_melees[c] = None;
            c = c + 1;
        }
    }
}

} // verus!
