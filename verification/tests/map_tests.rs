use rogue_core::Rect;
use rogue_core::TileType;
use rogue_core::idx_xy;
use rogue_core::map::GameMap;
use rogue_core::map::HEIGHT;
use rogue_core::map::WIDTH;
use rogue_core::map::new_map;
use rogue_core::map::new_map_test;
use rogue_core::pathfind::find_path;
use rogue_core::xy_idx;

#[test]
fn intersects_partial() {
    let r1 = Rect {
        x1: 0,
        y1: 0,
        x2: 5,
        y2: 5,
    };
    let r2 = Rect {
        x1: 2,
        y1: 2,
        x2: 7,
        y2: 7,
    };
    assert!(r1.intersects(&r2));
    assert!(r2.intersects(&r1));
}

#[test]
fn intersects_contained() {
    let r1 = Rect {
        x1: 0,
        y1: 0,
        x2: 5,
        y2: 5,
    };
    let r2 = Rect {
        x1: 2,
        y1: 2,
        x2: 3,
        y2: 3,
    };
    assert!(r1.intersects(&r2));
    assert!(r2.intersects(&r1));
}

#[test]
fn intersects_separated() {
    let r1 = Rect {
        x1: 0,
        y1: 0,
        x2: 5,
        y2: 5,
    };
    let r2 = Rect {
        x1: 6,
        y1: 6,
        x2: 7,
        y2: 7,
    };
    assert!(!r1.intersects(&r2));
    assert!(!r2.intersects(&r1));
}

#[test]
fn index_roundtrip_samples() {
    assert_eq!(xy_idx(3, 2), 2 * 80 + 3);
    for &(x, y) in &[(0i32, 0i32), (79, 49), (40, 25), (1, 48)] {
        let idx = xy_idx(x, y);
        assert_eq!(idx_xy(idx), (x, y));
    }
}

#[test]
fn map_methods_roundtrip() {
    let map = GameMap::new(WIDTH, HEIGHT);
    let idx = map.xy_idx(17, 31);
    assert_eq!(map.idx_xy(idx), (17, 31));
}

#[test]
fn generated_rooms_are_disjoint_and_in_bounds() {
    let mut rng = rltk::RandomNumberGenerator::seeded(7);
    let map = new_map(&mut rng);
    assert!(map.rooms.len() <= 30);
    for (i, a) in map.rooms.iter().enumerate() {
        assert!(a.x1 <= a.x2 && a.x2 < WIDTH);
        assert!(a.y1 <= a.y2 && a.y2 < HEIGHT);
        for b in map.rooms.iter().skip(i + 1) {
            assert!(!a.intersects(b));
            assert!(!b.intersects(a));
        }
    }
    // room interiors really are carved to floor
    for room in map.rooms.iter() {
        for x in room.x1 + 1..=room.x2 {
            for y in room.y1 + 1..=room.y2 {
                assert_eq!(map.tiles[y * WIDTH + x], TileType::Floor);
            }
        }
    }
}

#[test]
fn two_room_dungeon_centers_are_mutually_reachable() {
    // two non-intersecting rooms joined by one L-shaped corridor
    let mut map = GameMap::new(WIDTH, HEIGHT);
    let a = Rect {
        x1: 5,
        y1: 5,
        x2: 12,
        y2: 12,
    };
    let b = Rect {
        x1: 40,
        y1: 20,
        x2: 48,
        y2: 28,
    };
    assert!(!a.intersects(&b));
    map.apply_room(&a);
    map.apply_room(&b);
    let (ax, ay) = a.center();
    let (bx, by) = b.center();
    map.apply_horizontal_tunnel(ax, bx, ay);
    map.apply_vertical_tunnel(ay, by, bx);
    map.rooms.push(a);
    map.rooms.push(b);
    map.populate_blocked();

    let start = map.xy_idx(ax, ay);
    let goal = map.xy_idx(bx, by);
    let there = find_path(&map, start, goal);
    assert!(there.is_some());
    let back = find_path(&map, goal, start);
    assert!(back.is_some());
    let path = there.unwrap();
    assert_eq!(path[0], start);
    assert_eq!(*path.last().unwrap(), goal);
    // every step of the found path walks on floor
    for &step in path.iter().skip(1) {
        assert_eq!(map.tiles[step], TileType::Floor);
    }
}

#[test]
fn walled_off_tiles_are_unreachable() {
    let mut map = GameMap::new(WIDTH, HEIGHT);
    let a = Rect {
        x1: 5,
        y1: 5,
        x2: 12,
        y2: 12,
    };
    let b = Rect {
        x1: 40,
        y1: 20,
        x2: 48,
        y2: 28,
    };
    map.apply_room(&a);
    map.apply_room(&b);
    map.populate_blocked();
    let (ax, ay) = a.center();
    let (bx, by) = b.center();
    // no corridor was carved, so the rooms stay separate
    assert!(find_path(&map, map.xy_idx(ax, ay), map.xy_idx(bx, by)).is_none());
}

#[test]
fn test_arena_has_walled_border_and_open_center() {
    let mut rng = rltk::RandomNumberGenerator::seeded(3);
    let tiles = new_map_test(&mut rng);
    assert_eq!(tiles.len(), WIDTH * HEIGHT);
    for x in 0..WIDTH as i32 {
        assert_eq!(tiles[xy_idx(x, 0)], TileType::Wall);
        assert_eq!(tiles[xy_idx(x, HEIGHT as i32 - 1)], TileType::Wall);
    }
    for y in 0..HEIGHT as i32 {
        assert_eq!(tiles[xy_idx(0, y)], TileType::Wall);
        assert_eq!(tiles[xy_idx(WIDTH as i32 - 1, y)], TileType::Wall);
    }
    assert_eq!(tiles[xy_idx(40, 25)], TileType::Floor);
}

#[test]
fn new_game_starts_at_prerun_with_welcome() {
    let mut rng = rltk::RandomNumberGenerator::seeded(11);
    let state = rogue_core::new_game(&mut rng);
    assert_eq!(state.run_state, rogue_core::RunState::PreRun);
    assert_eq!(state.log.entries.len(), 1);
    assert_eq!(
        state.log.entries[0],
        rogue_core::components::LogEntry::Welcome
    );
    assert!(state.ecs.players[state.player_entity].is_some());
}

#[test]
fn generator_always_yields_a_room_with_a_carved_elbow_to_its_predecessor() {
    for seed in 0..8u64 {
        let mut rng = rltk::RandomNumberGenerator::seeded(seed);
        let map = new_map(&mut rng);
        assert!(!map.rooms.is_empty(), "seed {seed} produced no room");
        // the per-tile caches start empty
        for i in 0..WIDTH * HEIGHT {
            assert!(!map.blocked[i]);
            assert!(map.tile_content[i].is_empty());
            assert!(!map.revealed_tiles[i]);
            assert!(!map.visible_tiles[i]);
        }
        // one of the two L-shaped elbows between consecutive centers is floor
        let run_h = |y: usize, x1: usize, x2: usize| -> bool {
            let (lo, hi) = (x1.min(x2), x1.max(x2));
            (lo..=hi).all(|x| map.tiles[y * WIDTH + x] == TileType::Floor)
        };
        let run_v = |x: usize, y1: usize, y2: usize| -> bool {
            let (lo, hi) = (y1.min(y2), y1.max(y2));
            (lo..=hi).all(|y| map.tiles[y * WIDTH + x] == TileType::Floor)
        };
        for w in map.rooms.windows(2) {
            let (ax, ay) = w[0].center();
            let (bx, by) = w[1].center();
            let elbow_one = run_h(ay, ax, bx) && run_v(bx, ay, by);
            let elbow_two = run_h(by, ax, bx) && run_v(ax, ay, by);
            assert!(elbow_one || elbow_two, "seed {seed}: rooms not joined");
        }
    }
}

#[test]
fn new_game_places_the_player_at_the_first_rooms_center() {
    let mut rng = rltk::RandomNumberGenerator::seeded(13);
    let state = rogue_core::new_game(&mut rng);
    assert!(!state.map.rooms.is_empty());
    let (cx, cy) = state.map.rooms[0].center();
    assert_eq!(state.player_pos.x as usize, cx);
    assert_eq!(state.player_pos.y as usize, cy);
    let pos = state.ecs.positions[state.player_entity].unwrap();
    assert_eq!((pos.x as usize, pos.y as usize), (cx, cy));
}
