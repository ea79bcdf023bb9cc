use rogue_core::GameMap;
use rogue_core::Rect;
use rogue_core::RunState;
use rogue_core::State;
use rogue_core::TickEvent;
use rogue_core::World;
use rogue_core::components::GameLog;
use rogue_core::components::Point;
use rogue_core::components::Viewshed;
use rogue_core::components::WantsToMelee;
use rogue_core::fov::field_of_view;
use rogue_core::gui::ItemMenuResult;
use rogue_core::map::HEIGHT;
use rogue_core::map::WIDTH;
use rogue_core::map_indexing_system::MapIndexingSystem;
use rogue_core::monster_ai_system::MonsterAISystem;
use rogue_core::player::Command;
use rogue_core::player::player_input;
use rogue_core::spawner;
use rogue_core::visibility_system::VisibilitySystem;
use rogue_core::gui::MainMenuInput;
use rogue_core::gui::MainMenuResult;
use rogue_core::gui::MainMenuSelection;
use rogue_core::gui::main_menu;

fn open_state() -> State {
    let mut world = World::new();
    let player = spawner::player(&mut world, 10, 10);
    let mut map = GameMap::new(WIDTH, HEIGHT);
    map.apply_room(&Rect {
        x1: 0,
        y1: 0,
        x2: WIDTH - 2,
        y2: HEIGHT - 2,
    });
    map.populate_blocked();
    State {
        ecs: world,
        map,
        run_state: RunState::MonsterTurn,
        player_entity: player,
        player_pos: Point { x: 10, y: 10 },
        log: GameLog {
            entries: Vec::new(),
        },
    }
}

fn add_monster(state: &mut State, x: usize, y: usize) -> usize {
    let mut rng = rltk::RandomNumberGenerator::seeded(1);
    spawner::random_monster(&mut state.ecs, &mut rng, x, y);
    state.ecs.alive.len() - 1
}

/// Give the monster a viewshed that sees the player.
fn let_monster_see_player(state: &mut State, monster: usize) {
    let tiles = vec![state.player_pos];
    state.ecs.viewsheds[monster] = Some(Viewshed {
        range: 8,
        visible_tiles: tiles,
        dirty: false,
    });
}

#[test]
fn adjacent_monster_queues_melee_and_stays_put() {
    // diagonal neighbor: Euclidean distance about 1.4, inside melee reach
    let mut state = open_state();
    let monster = add_monster(&mut state, 11, 11);
    MapIndexingSystem::run(&mut state);
    MonsterAISystem::run(&mut state);

    assert_eq!(
        state.ecs.wants_to_melees[monster],
        Some(WantsToMelee {
            target: state.player_entity
        })
    );
    let pos = state.ecs.positions[monster].unwrap();
    assert_eq!((pos.x, pos.y), (11, 11));
}

#[test]
fn distant_visible_monster_steps_exactly_one_tile_closer() {
    // same row, six tiles away, clear floor between
    let mut state = open_state();
    let monster = add_monster(&mut state, 16, 10);
    let_monster_see_player(&mut state, monster);
    MapIndexingSystem::run(&mut state);
    MonsterAISystem::run(&mut state);

    assert!(state.ecs.wants_to_melees[monster].is_none());
    let pos = state.ecs.positions[monster].unwrap();
    let (dx, dy) = (pos.x - 16, pos.y - 10);
    // exactly one king move, toward the player, never a teleport
    assert!(dx.abs() <= 1 && dy.abs() <= 1);
    assert!((dx, dy) != (0, 0));
    assert!(pos.x < 16);
    assert!(state.ecs.viewsheds[monster].as_ref().unwrap().dirty);
}

#[test]
fn monster_that_cannot_see_the_player_stays_put() {
    let mut state = open_state();
    let monster = add_monster(&mut state, 16, 10);
    // empty viewshed: the player is out of sight
    state.ecs.viewsheds[monster] = Some(Viewshed {
        range: 8,
        visible_tiles: Vec::new(),
        dirty: false,
    });
    MapIndexingSystem::run(&mut state);
    MonsterAISystem::run(&mut state);
    let pos = state.ecs.positions[monster].unwrap();
    assert_eq!((pos.x, pos.y), (16, 10));
    assert!(state.ecs.wants_to_melees[monster].is_none());
}

#[test]
fn confused_monster_only_counts_down() {
    let mut state = open_state();
    let monster = add_monster(&mut state, 11, 11);
    state.ecs.confusions[monster] = Some(rogue_core::components::Confusion { turns: 2 });
    MapIndexingSystem::run(&mut state);
    MonsterAISystem::run(&mut state);
    assert_eq!(
        state.ecs.confusions[monster],
        Some(rogue_core::components::Confusion { turns: 1 })
    );
    assert!(state.ecs.wants_to_melees[monster].is_none());
    MonsterAISystem::run(&mut state);
    assert!(state.ecs.confusions[monster].is_none());
}

#[test]
fn ai_is_a_no_op_outside_the_monster_turn() {
    let mut state = open_state();
    state.run_state = RunState::PlayerTurn;
    let monster = add_monster(&mut state, 11, 11);
    MapIndexingSystem::run(&mut state);
    MonsterAISystem::run(&mut state);
    assert!(state.ecs.wants_to_melees[monster].is_none());
}

#[test]
fn player_move_into_monster_queues_melee() {
    let mut state = open_state();
    state.run_state = RunState::AwaitingInput;
    let monster = add_monster(&mut state, 11, 10);
    MapIndexingSystem::run(&mut state);
    let r = player_input(&mut state, Some(Command::Move { dx: 1, dy: 0 }));
    assert_eq!(r, RunState::PlayerTurn);
    assert_eq!(
        state.ecs.wants_to_melees[state.player_entity],
        Some(WantsToMelee { target: monster })
    );
    // the player did not move
    let pos = state.ecs.positions[state.player_entity].unwrap();
    assert_eq!((pos.x, pos.y), (10, 10));
}

#[test]
fn player_walks_onto_free_tile_and_dirties_viewshed() {
    let mut state = open_state();
    state.run_state = RunState::AwaitingInput;
    MapIndexingSystem::run(&mut state);
    // settle the viewshed first so the walk visibly re-dirties it
    VisibilitySystem::run(&mut state);
    assert!(!state.ecs.viewsheds[state.player_entity].as_ref().unwrap().dirty);
    let r = player_input(&mut state, Some(Command::Move { dx: 0, dy: 1 }));
    assert_eq!(r, RunState::PlayerTurn);
    let pos = state.ecs.positions[state.player_entity].unwrap();
    assert_eq!((pos.x, pos.y), (10, 11));
    assert_eq!(state.player_pos, Point { x: 10, y: 11 });
    assert!(state.ecs.viewsheds[state.player_entity].as_ref().unwrap().dirty);
}

#[test]
fn walls_block_movement() {
    let mut state = open_state();
    // a fresh all-wall map: every step is blocked
    state.map = GameMap::new(WIDTH, HEIGHT);
    state.map.populate_blocked();
    state.run_state = RunState::AwaitingInput;
    let r = player_input(&mut state, Some(Command::Move { dx: 1, dy: 0 }));
    assert_eq!(r, RunState::PlayerTurn);
    let pos = state.ecs.positions[state.player_entity].unwrap();
    assert_eq!((pos.x, pos.y), (10, 10));
}

#[test]
fn player_visibility_marks_revealed_and_visible_tiles() {
    let mut state = open_state();
    VisibilitySystem::run(&mut state);
    let own = state.map.xy_idx(10, 10);
    assert!(state.map.visible_tiles[own]);
    assert!(state.map.revealed_tiles[own]);
    // far corner is out of range
    let far = state.map.xy_idx(70, 40);
    assert!(!state.map.visible_tiles[far]);
    // revealed marks stick after the player moves away and looks again
    state.ecs.positions[state.player_entity] =
        Some(rogue_core::components::Position { x: 30, y: 30 });
    state.player_pos = Point { x: 30, y: 30 };
    if let Some(vs) = state.ecs.viewsheds[state.player_entity].as_mut() {
        vs.dirty = true;
    }
    VisibilitySystem::run(&mut state);
    assert!(!state.map.visible_tiles[own]);
    assert!(state.map.revealed_tiles[own]);
}

#[test]
fn field_of_view_respects_range_and_walls() {
    let mut map = GameMap::new(WIDTH, HEIGHT);
    map.apply_room(&Rect {
        x1: 0,
        y1: 0,
        x2: WIDTH - 2,
        y2: HEIGHT - 2,
    });
    // a wall due east of the origin
    let wall = map.xy_idx(13, 10);
    map.tiles[wall] = rogue_core::TileType::Wall;

    let fov = field_of_view(&map.tiles, 10, 10, 8);
    assert!(fov.contains(&Point { x: 10, y: 10 }));
    assert!(fov.contains(&Point { x: 12, y: 10 }));
    // the wall itself is seen, the tile behind it is not
    assert!(fov.contains(&Point { x: 13, y: 10 }));
    assert!(!fov.contains(&Point { x: 14, y: 10 }));
    // out of range
    assert!(!fov.contains(&Point { x: 19, y: 10 }));
    // within range on the clear side
    assert!(fov.contains(&Point { x: 10, y: 16 }));
}

#[test]
fn tick_cycles_through_the_turn_states() {
    let mut rng = rltk::RandomNumberGenerator::seeded(11);
    let mut state = rogue_core::new_game(&mut rng);
    assert_eq!(state.run_state, RunState::PreRun);
    state.tick(TickEvent::Nothing);
    assert_eq!(state.run_state, RunState::AwaitingInput);
    state.tick(TickEvent::Nothing);
    assert_eq!(state.run_state, RunState::AwaitingInput);
    state.tick(TickEvent::Key(Command::Move { dx: 0, dy: -1 }));
    assert_eq!(state.run_state, RunState::PlayerTurn);
    state.tick(TickEvent::Nothing);
    assert_eq!(state.run_state, RunState::MonsterTurn);
    state.tick(TickEvent::Nothing);
    assert_eq!(state.run_state, RunState::AwaitingInput);
    state.tick(TickEvent::Key(Command::OpenInventory));
    assert_eq!(state.run_state, RunState::ShowInventory);
    state.tick(TickEvent::Menu(ItemMenuResult::Cancel));
    assert_eq!(state.run_state, RunState::AwaitingInput);
}

#[test]
fn targeting_accepts_only_cells_in_sight_and_range() {
    let mut state = open_state();
    VisibilitySystem::run(&mut state);
    let near = Point { x: 12, y: 10 };
    let far = Point { x: 40, y: 10 };
    match rogue_core::gui::ranged_target(&state, 6, rogue_core::gui::TargetInput::Tile(near)) {
        ItemMenuResult::RangeSelected(p) => assert_eq!(p, near),
        _ => panic!("expected a selection"),
    }
    match rogue_core::gui::ranged_target(&state, 6, rogue_core::gui::TargetInput::Tile(far)) {
        ItemMenuResult::Cancel => {}
        _ => panic!("expected cancel"),
    }
}

#[test]
fn main_menu_cycles_and_confirms() {
    assert_eq!(
        main_menu(MainMenuSelection::NewGame, MainMenuInput::Down),
        MainMenuResult::NoSelection(MainMenuSelection::Load)
    );
    assert_eq!(
        main_menu(MainMenuSelection::NewGame, MainMenuInput::Up),
        MainMenuResult::NoSelection(MainMenuSelection::Quit)
    );
    assert_eq!(
        main_menu(MainMenuSelection::Quit, MainMenuInput::Confirm),
        MainMenuResult::Selected(MainMenuSelection::Quit)
    );
    assert_eq!(
        main_menu(MainMenuSelection::Load, MainMenuInput::NoInput),
        MainMenuResult::NoSelection(MainMenuSelection::Load)
    );
}

#[test]
fn a_full_turn_resolves_combat_through_the_pipeline() {
    let mut state = open_state();
    state.run_state = RunState::AwaitingInput;
    let monster = add_monster(&mut state, 11, 10);
    // seed the caches as the pre-run phase would
    MapIndexingSystem::run(&mut state);

    // walking into the monster queues the attack and takes the turn
    state.tick(TickEvent::Key(Command::Move { dx: 1, dy: 0 }));
    assert_eq!(state.run_state, RunState::PlayerTurn);
    // the player's turn resolves the melee and applies 5 - 1 = 4 damage
    state.tick(TickEvent::Nothing);
    assert_eq!(state.run_state, RunState::MonsterTurn);
    assert_eq!(state.ecs.combat_stats[monster].unwrap().hp, 12);
    assert!(state.ecs.wants_to_melees[state.player_entity].is_none());

    // three more rounds of attacks bring the monster to zero and the sweep
    // removes it at the end of the tick that applies the killing blow
    for _ in 0..3 {
        state.run_state = RunState::AwaitingInput;
        state.tick(TickEvent::Key(Command::Move { dx: 1, dy: 0 }));
        state.tick(TickEvent::Nothing);
    }
    assert!(!state.ecs.alive[monster]);
    assert!(state
        .log
        .entries
        .contains(&rogue_core::components::LogEntry::Death { victim: monster }));
}

#[test]
fn tooltips_list_named_entities_on_visible_tiles_only() {
    let mut state = open_state();
    let monster = add_monster(&mut state, 12, 10);
    VisibilitySystem::run(&mut state);
    assert_eq!(rogue_core::gui::names_at(&state, 12, 10), vec![monster]);
    assert!(rogue_core::gui::names_at(&state, 13, 10).is_empty());
    // an unseen far tile yields nothing even with someone standing there
    let far = add_monster(&mut state, 70, 40);
    let _ = far;
    assert!(rogue_core::gui::names_at(&state, 70, 40).is_empty());
}

#[test]
fn drop_menu_opens_and_drops_an_item_through_the_scheduler() {
    let mut state = open_state();
    state.run_state = RunState::AwaitingInput;
    // a potion carried by the player
    spawner::health_potion(&mut state.ecs, 10, 10);
    let potion = state.ecs.alive.len() - 1;
    state.ecs.positions[potion] = None;
    state.ecs.in_backpacks[potion] = Some(rogue_core::components::InBackpack {
        owner: state.player_entity,
    });

    state.tick(TickEvent::Key(Command::OpenDropMenu));
    assert_eq!(state.run_state, RunState::ShowDropItem);
    state.tick(TickEvent::Menu(ItemMenuResult::NoResponse));
    assert_eq!(state.run_state, RunState::ShowDropItem);
    state.tick(TickEvent::Menu(ItemMenuResult::Selected((
        potion,
        "Poção de Vida".to_string(),
    ))));
    assert_eq!(state.run_state, RunState::PlayerTurn);
    state.tick(TickEvent::Nothing);
    // the drop pass put the potion back on the player's tile
    assert!(state.ecs.in_backpacks[potion].is_none());
    let pos = state.ecs.positions[potion].unwrap();
    assert_eq!((pos.x, pos.y), (state.player_pos.x, state.player_pos.y));
}
