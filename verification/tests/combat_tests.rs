use rogue_core::GameMap;
use rogue_core::RunState;
use rogue_core::State;
use rogue_core::World;
use rogue_core::components::GameLog;
use rogue_core::components::LogEntry;
use rogue_core::components::Point;
use rogue_core::components::SufferDamage;
use rogue_core::components::WantsToMelee;
use rogue_core::damage_system::DamageSystem;
use rogue_core::damage_system::delete_the_dead;
use rogue_core::map::HEIGHT;
use rogue_core::map::WIDTH;
use rogue_core::melee_combat_system::MeleeCombatSystem;
use rogue_core::melee_combat_system::melee_damage;
use rogue_core::spawner;

fn fresh_state() -> State {
    let mut world = World::new();
    let player = spawner::player(&mut world, 10, 10);
    State {
        ecs: world,
        map: GameMap::new(WIDTH, HEIGHT),
        run_state: RunState::AwaitingInput,
        player_entity: player,
        player_pos: Point { x: 10, y: 10 },
        log: GameLog {
            entries: Vec::new(),
        },
    }
}

fn add_monster(state: &mut State, x: usize, y: usize) -> usize {
    let mut rng = rltk::RandomNumberGenerator::seeded(1);
    spawner::random_monster(&mut state.ecs, &mut rng, x, y);
    state.ecs.alive.len() - 1
}

#[test]
fn melee_damage_is_power_minus_defense_floored_at_zero() {
    assert_eq!(melee_damage(5, 2), 3);
    assert_eq!(melee_damage(5, 1), 4);
    assert_eq!(melee_damage(2, 5), 0);
    assert_eq!(melee_damage(3, 3), 0);
}

#[test]
fn player_melee_deals_four_damage_and_monster_drops_to_twelve() {
    // player: power 5, defense 2, hp 30; monster: defense 1, hp 16
    let mut state = fresh_state();
    let monster = add_monster(&mut state, 11, 10);
    let player = state.player_entity;
    state.ecs.wants_to_melees[player] = Some(WantsToMelee { target: monster });

    MeleeCombatSystem::run(&mut state);
    let pending = state.ecs.suffer_damages[monster].as_ref().unwrap();
    assert_eq!(pending.amount, vec![4]);
    assert!(state.ecs.wants_to_melees[player].is_none());
    assert_eq!(
        state.log.entries,
        vec![LogEntry::Hit {
            attacker: player,
            target: monster,
            damage: 4
        }]
    );

    DamageSystem::run(&mut state);
    assert_eq!(state.ecs.combat_stats[monster].unwrap().hp, 12);
    assert!(state.ecs.suffer_damages[monster].is_none());
    // the player's own hp is untouched
    assert_eq!(state.ecs.combat_stats[player].unwrap().hp, 30);
}

#[test]
fn fully_absorbed_hit_logs_no_effect_and_no_damage() {
    let mut state = fresh_state();
    let monster = add_monster(&mut state, 11, 10);
    // raise the monster's defense above the player's power
    let mut stats = state.ecs.combat_stats[monster].unwrap();
    stats.defense = 9;
    state.ecs.combat_stats[monster] = Some(stats);
    let player = state.player_entity;
    state.ecs.wants_to_melees[player] = Some(WantsToMelee { target: monster });

    MeleeCombatSystem::run(&mut state);
    assert!(state.ecs.suffer_damages[monster].is_none());
    assert_eq!(
        state.log.entries,
        vec![LogEntry::NoScratch {
            attacker: player,
            target: monster
        }]
    );
}

#[test]
fn simultaneous_hits_apply_as_their_sum() {
    let mut state = fresh_state();
    let monster = add_monster(&mut state, 11, 10);
    SufferDamage::new_damage(&mut state.ecs.suffer_damages, monster, 4);
    SufferDamage::new_damage(&mut state.ecs.suffer_damages, monster, 5);
    assert_eq!(
        state.ecs.suffer_damages[monster].as_ref().unwrap().amount,
        vec![4, 5]
    );
    DamageSystem::run(&mut state);
    assert_eq!(state.ecs.combat_stats[monster].unwrap().hp, 16 - 9);
}

#[test]
fn death_sweep_removes_exactly_the_dead_but_never_the_player() {
    let mut state = fresh_state();
    let m1 = add_monster(&mut state, 11, 10);
    let m2 = add_monster(&mut state, 12, 10);
    let m3 = add_monster(&mut state, 13, 10);
    // m1 dead, m2 exactly zero, m3 alive
    let mut s1 = state.ecs.combat_stats[m1].unwrap();
    s1.hp = -3;
    state.ecs.combat_stats[m1] = Some(s1);
    let mut s2 = state.ecs.combat_stats[m2].unwrap();
    s2.hp = 0;
    state.ecs.combat_stats[m2] = Some(s2);
    // the player is also at zero: reported, not removed
    let player = state.player_entity;
    let mut sp = state.ecs.combat_stats[player].unwrap();
    sp.hp = 0;
    state.ecs.combat_stats[player] = Some(sp);

    delete_the_dead(&mut state);

    assert!(!state.ecs.alive[m1]);
    assert!(!state.ecs.alive[m2]);
    assert!(state.ecs.alive[m3]);
    assert!(state.ecs.alive[player]);
    assert!(state.ecs.positions[m1].is_none());
    assert!(state.ecs.combat_stats[m1].is_none());
    assert!(state.log.entries.contains(&LogEntry::PlayerDeath));
    assert!(state.log.entries.contains(&LogEntry::Death { victim: m1 }));
    assert!(state.log.entries.contains(&LogEntry::Death { victim: m2 }));
    assert!(!state.log.entries.contains(&LogEntry::Death { victim: m3 }));
}

#[test]
fn damage_application_allows_negative_hp_until_the_sweep() {
    let mut state = fresh_state();
    let monster = add_monster(&mut state, 11, 10);
    SufferDamage::new_damage(&mut state.ecs.suffer_damages, monster, 100);
    DamageSystem::run(&mut state);
    assert_eq!(state.ecs.combat_stats[monster].unwrap().hp, 16 - 100);
    assert!(state.ecs.alive[monster]);
    delete_the_dead(&mut state);
    assert!(!state.ecs.alive[monster]);
}
