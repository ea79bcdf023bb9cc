use rogue_core::GameMap;
use rogue_core::Rect;
use rogue_core::RunState;
use rogue_core::State;
use rogue_core::World;
use rogue_core::components::GameLog;
use rogue_core::components::InBackpack;
use rogue_core::components::Point;
use rogue_core::components::WantsToDropItem;
use rogue_core::components::WantsToPickupItem;
use rogue_core::components::WantsToUseItem;
use rogue_core::inventory_system::ItemCollectionSystem;
use rogue_core::inventory_system::ItemDropSystem;
use rogue_core::inventory_system::ItemUseSystem;
use rogue_core::map::HEIGHT;
use rogue_core::map::WIDTH;
use rogue_core::map_indexing_system::MapIndexingSystem;
use rogue_core::spawner;

/// A state whose map is one huge open room.
fn open_state() -> State {
    let mut world = World::new();
    let player = spawner::player(&mut world, 10, 10);
    let mut map = GameMap::new(WIDTH, HEIGHT);
    map.apply_room(&Rect {
        x1: 0,
        y1: 0,
        x2: WIDTH - 2,
        y2: HEIGHT - 2,
    });
    map.populate_blocked();
    State {
        ecs: world,
        map,
        run_state: RunState::AwaitingInput,
        player_entity: player,
        player_pos: Point { x: 10, y: 10 },
        log: GameLog {
            entries: Vec::new(),
        },
    }
}

fn add_monster(state: &mut State, x: usize, y: usize) -> usize {
    let mut rng = rltk::RandomNumberGenerator::seeded(1);
    spawner::random_monster(&mut state.ecs, &mut rng, x, y);
    state.ecs.alive.len() - 1
}

/// Put a freshly spawned item into the player's backpack.
fn pocket(state: &mut State, item: usize) {
    let player = state.player_entity;
    state.ecs.positions[item] = None;
    state.ecs.in_backpacks[item] = Some(InBackpack { owner: player });
}

#[test]
fn pickup_moves_item_off_the_ground_into_the_backpack() {
    let mut state = open_state();
    spawner::health_potion(&mut state.ecs, 10, 10);
    let potion = state.ecs.alive.len() - 1;
    let player = state.player_entity;
    // on the ground: position, no backpack
    assert!(state.ecs.positions[potion].is_some());
    assert!(state.ecs.in_backpacks[potion].is_none());

    state.ecs.wants_to_pickup_items[player] = Some(WantsToPickupItem {
        collected_by: player,
        item: potion,
    });
    ItemCollectionSystem::run(&mut state);

    // carried: backpack, no position -- never both, never neither
    assert!(state.ecs.positions[potion].is_none());
    assert_eq!(
        state.ecs.in_backpacks[potion],
        Some(InBackpack { owner: player })
    );
    assert!(state.ecs.wants_to_pickup_items[player].is_none());
}

#[test]
fn drop_puts_item_back_on_the_ground_at_the_dropper() {
    let mut state = open_state();
    spawner::health_potion(&mut state.ecs, 10, 10);
    let potion = state.ecs.alive.len() - 1;
    let player = state.player_entity;
    pocket(&mut state, potion);

    state.ecs.wants_to_drop_items[player] = Some(WantsToDropItem { item: potion });
    ItemDropSystem::run(&mut state);

    let pos = state.ecs.positions[potion].unwrap();
    assert_eq!((pos.x, pos.y), (10, 10));
    assert!(state.ecs.in_backpacks[potion].is_none());
    assert!(state.ecs.wants_to_drop_items[player].is_none());
}

#[test]
fn healing_is_capped_at_max_hp() {
    let mut state = open_state();
    spawner::health_potion(&mut state.ecs, 10, 10);
    let potion = state.ecs.alive.len() - 1;
    let player = state.player_entity;
    pocket(&mut state, potion);

    // hp already at max_hp: healing changes nothing
    assert_eq!(state.ecs.combat_stats[player].unwrap().hp, 30);
    state.ecs.wants_to_use_items[player] = Some(WantsToUseItem {
        item: potion,
        target: None,
    });
    MapIndexingSystem::run(&mut state);
    ItemUseSystem::run(&mut state);
    assert_eq!(state.ecs.combat_stats[player].unwrap().hp, 30);
    // the potion was consumed regardless
    assert!(!state.ecs.alive[potion]);
}

#[test]
fn healing_restores_up_to_the_cap() {
    let mut state = open_state();
    spawner::health_potion(&mut state.ecs, 10, 10);
    let potion = state.ecs.alive.len() - 1;
    let player = state.player_entity;
    pocket(&mut state, potion);

    let mut stats = state.ecs.combat_stats[player].unwrap();
    stats.hp = 25;
    state.ecs.combat_stats[player] = Some(stats);
    state.ecs.wants_to_use_items[player] = Some(WantsToUseItem {
        item: potion,
        target: None,
    });
    MapIndexingSystem::run(&mut state);
    ItemUseSystem::run(&mut state);
    // 25 + 8 would overshoot: capped at 30
    assert_eq!(state.ecs.combat_stats[player].unwrap().hp, 30);
}

#[test]
fn fireball_hits_monsters_inside_the_blast_and_spares_the_one_outside() {
    let mut state = open_state();
    let inside_a = add_monster(&mut state, 12, 10);
    let inside_b = add_monster(&mut state, 10, 12);
    let outside = add_monster(&mut state, 30, 30);
    spawner::fireball_scroll(&mut state.ecs, 10, 10);
    let scroll = state.ecs.alive.len() - 1;
    let player = state.player_entity;
    pocket(&mut state, scroll);

    state.ecs.wants_to_use_items[player] = Some(WantsToUseItem {
        item: scroll,
        target: Some(Point { x: 10, y: 10 }),
    });
    MapIndexingSystem::run(&mut state);
    ItemUseSystem::run(&mut state);

    assert_eq!(
        state.ecs.suffer_damages[inside_a].as_ref().unwrap().amount,
        vec![20]
    );
    assert_eq!(
        state.ecs.suffer_damages[inside_b].as_ref().unwrap().amount,
        vec![20]
    );
    assert!(state.ecs.suffer_damages[outside].is_none());
    // consumed after resolution
    assert!(!state.ecs.alive[scroll]);
    assert!(state.ecs.wants_to_use_items[player].is_none());
}

#[test]
fn confusion_scroll_overwrites_the_target_counter() {
    let mut state = open_state();
    let monster = add_monster(&mut state, 12, 10);
    spawner::confusion_scroll(&mut state.ecs, 10, 10);
    let scroll = state.ecs.alive.len() - 1;
    let player = state.player_entity;
    pocket(&mut state, scroll);

    // a stale counter is overwritten, not stacked
    state.ecs.confusions[monster] = Some(rogue_core::components::Confusion { turns: 1 });
    state.ecs.wants_to_use_items[player] = Some(WantsToUseItem {
        item: scroll,
        target: Some(Point { x: 12, y: 10 }),
    });
    MapIndexingSystem::run(&mut state);
    ItemUseSystem::run(&mut state);

    assert_eq!(
        state.ecs.confusions[monster],
        Some(rogue_core::components::Confusion { turns: 4 })
    );
    assert!(!state.ecs.alive[scroll]);
}

#[test]
fn magic_missile_hits_only_the_target_tile() {
    let mut state = open_state();
    let on_tile = add_monster(&mut state, 14, 10);
    let neighbor = add_monster(&mut state, 15, 10);
    spawner::magic_missile_scroll(&mut state.ecs, 10, 10);
    let scroll = state.ecs.alive.len() - 1;
    let player = state.player_entity;
    pocket(&mut state, scroll);

    state.ecs.wants_to_use_items[player] = Some(WantsToUseItem {
        item: scroll,
        target: Some(Point { x: 14, y: 10 }),
    });
    MapIndexingSystem::run(&mut state);
    ItemUseSystem::run(&mut state);

    assert_eq!(
        state.ecs.suffer_damages[on_tile].as_ref().unwrap().amount,
        vec![8]
    );
    assert!(state.ecs.suffer_damages[neighbor].is_none());
}

#[test]
fn inventory_lists_carried_items_in_order() {
    let mut state = open_state();
    spawner::health_potion(&mut state.ecs, 10, 10);
    let potion = state.ecs.alive.len() - 1;
    spawner::confusion_scroll(&mut state.ecs, 10, 10);
    let scroll = state.ecs.alive.len() - 1;
    pocket(&mut state, potion);
    pocket(&mut state, scroll);

    let inv = rogue_core::gui::inventory_of(&state);
    assert_eq!(inv, vec![potion, scroll]);

    match rogue_core::gui::show_inventory(&state, rogue_core::gui::MenuInput::Select(1)) {
        rogue_core::gui::ItemMenuResult::Selected((e, name)) => {
            assert_eq!(e, scroll);
            assert_eq!(name, "Pergaminho de Confusão");
        }
        _ => panic!("expected a selection"),
    }
    match rogue_core::gui::show_inventory(&state, rogue_core::gui::MenuInput::Cancel) {
        rogue_core::gui::ItemMenuResult::Cancel => {}
        _ => panic!("expected cancel"),
    }
}
