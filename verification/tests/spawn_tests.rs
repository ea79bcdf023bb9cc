use rogue_core::Rect;
use rogue_core::World;
use rogue_core::map::new_map;
use rogue_core::spawner;

#[test]
fn random_items_come_in_more_than_one_kind() {
    // a fresh generator per seed keeps the draws deterministic
    let mut kinds = [false; 4];
    for seed in 0..32u64 {
        let mut rng = rltk::RandomNumberGenerator::seeded(seed);
        let mut world = World::new();
        spawner::random_item(&mut world, &mut rng, 10, 10);
        let e = world.alive.len() - 1;
        if world.provides_healings[e].is_some() {
            kinds[0] = true;
        } else if world.areas_of_effect[e].is_some() {
            kinds[1] = true;
        } else if world.inflicts_damages[e].is_some() {
            kinds[2] = true;
        } else if world.confusions[e].is_some() {
            kinds[3] = true;
        }
    }
    assert!(kinds.iter().filter(|k| **k).count() >= 2);
}

#[test]
fn random_monsters_come_in_both_kinds() {
    let mut saw_goblin = false;
    let mut saw_orc = false;
    for seed in 0..32u64 {
        let mut rng = rltk::RandomNumberGenerator::seeded(seed);
        let mut world = World::new();
        spawner::random_monster(&mut world, &mut rng, 10, 10);
        let e = world.alive.len() - 1;
        let name = &world.names[e].as_ref().unwrap().name;
        if name == "Goblin" {
            saw_goblin = true;
        }
        if name == "Orc" {
            saw_orc = true;
        }
    }
    assert!(saw_goblin && saw_orc);
}

#[test]
fn spawned_room_population_stays_inside_the_room() {
    let mut rng = rltk::RandomNumberGenerator::seeded(5);
    let mut world = World::new();
    let room = Rect {
        x1: 10,
        y1: 10,
        x2: 18,
        y2: 18,
    };
    spawner::spawn_room(&mut world, &mut rng, &room);
    for e in 0..world.alive.len() {
        let pos = world.positions[e].expect("every spawned entity is placed");
        assert!(room.x1 < (pos.x as usize) && (pos.x as usize) <= room.x2);
        assert!(room.y1 < (pos.y as usize) && (pos.y as usize) <= room.y2);
        assert!(world.monsters[e].is_some() || world.items[e].is_some());
    }
}

#[test]
fn consecutive_generated_rooms_are_connected() {
    let mut rng = rltk::RandomNumberGenerator::seeded(9);
    let mut map = new_map(&mut rng);
    map.populate_blocked();
    assert!(map.rooms.len() >= 2, "this seed produces several rooms");
    for w in map.rooms.windows(2) {
        let (ax, ay) = w[0].center();
        let (bx, by) = w[1].center();
        let start = map.xy_idx(ax, ay);
        let goal = map.xy_idx(bx, by);
        assert!(rogue_core::pathfind::find_path(&map, start, goal).is_some());
    }
}

#[test]
fn spawn_room_yields_monsters_then_at_least_one_item() {
    for seed in 0..16u64 {
        let mut rng = rltk::RandomNumberGenerator::seeded(seed);
        let mut world = World::new();
        let room = Rect {
            x1: 20,
            y1: 20,
            x2: 28,
            y2: 28,
        };
        spawner::spawn_room(&mut world, &mut rng, &room);
        let n = world.alive.len();
        assert!(n <= 7);
        // the additions split into a monster block followed by an item block
        let monsters = (0..n).take_while(|&e| world.monsters[e].is_some()).count();
        for e in 0..monsters {
            assert!(world.monsters[e].is_some() && world.items[e].is_none());
        }
        for e in monsters..n {
            assert!(world.items[e].is_some() && world.monsters[e].is_none());
        }
        assert!(monsters <= 4);
        let items = n - monsters;
        assert!(1 <= items && items <= 3, "seed {seed}: {items} items");
        // spawn tiles are pairwise distinct within each block
        for a in 0..monsters {
            for b in a + 1..monsters {
                assert_ne!(world.positions[a], world.positions[b]);
            }
        }
        for a in monsters..n {
            for b in a + 1..n {
                assert_ne!(world.positions[a], world.positions[b]);
            }
        }
    }
}

#[test]
fn item_spawners_set_original_names_and_render_order() {
    let mut world = World::new();
    spawner::health_potion(&mut world, 1, 1);
    spawner::magic_missile_scroll(&mut world, 1, 2);
    spawner::fireball_scroll(&mut world, 1, 3);
    spawner::confusion_scroll(&mut world, 1, 4);
    let names: Vec<&str> = (0..4)
        .map(|e| world.names[e].as_ref().unwrap().name.as_str())
        .collect();
    assert_eq!(
        names,
        vec![
            "Poção de Vida",
            "Pergaminho de Míssil Mágico",
            "Pergaminho de Bola de Fogo",
            "Pergaminho de Confusão",
        ]
    );
    for e in 0..4 {
        assert_eq!(world.renderables[e].as_ref().unwrap().render_order, 2);
    }
    let fireball = world.inflicts_damages[2].as_ref().unwrap();
    assert_eq!(fireball.damage, 20);
    assert_eq!(world.areas_of_effect[2].as_ref().unwrap().radius, 3);
}
