use vstd::prelude::*;

use crate::Rect;
use crate::components::BlocksTile;
use crate::components::CombatStats;
use crate::components::Color;
use crate::components::Consumable;
use crate::components::Entity;
use crate::components::InflictsDamage;
use crate::components::Item;
use crate::components::Monster;
use crate::components::Name;
use crate::components::Player;
use crate::components::Position;
use crate::components::ProvidesHealing;
use crate::components::Ranged;
use crate::components::Renderable;
use crate::components::Viewshed;
use crate::components::AreaOfEffect;
use crate::components::Confusion;
use crate::map::HEIGHT;
use crate::map::WIDTH;
use crate::rng::rng_coin;
use crate::rng::rng_range;
use crate::rng::rng_roll_dice;
use crate::world::World;

verus! {

/// How many monsters a room may hold.
pub const MAX_MONSTERS: usize = 4;
/// How many items a room may hold.
pub const MAX_ITEMS: usize = 2;

/// `w1` grows out of `w0`: every entity of `w0` keeps all its component
/// slots, and only fresh entities were appended.
pub open spec fn extends(w0: World, w1: World) -> bool {
    let n = w0.num_entities();
    &&& w1.num_entities() >= n
    &&& forall|i: int| 0 <= i < n ==> (#[trigger] w1.alive@[i]) == w0.alive@[i]
    &&& forall|i: int| 0 <= i < n ==> (#[trigger] w1.positions@[i]) == w0.positions@[i]
    &&& forall|i: int| 0 <= i < n ==> (#[trigger] w1.renderables@[i]) == w0.renderables@[i]
    &&& forall|i: int| 0 <= i < n ==> (#[trigger] w1.players@[i]) == w0.players@[i]
    &&& forall|i: int| 0 <= i < n ==> (#[trigger] w1.viewsheds@[i]) == w0.viewsheds@[i]
    &&& forall|i: int| 0 <= i < n ==> (#[trigger] w1.monsters@[i]) == w0.monsters@[i]
    &&& forall|i: int| 0 <= i < n ==> (#[trigger] w1.names@[i]) == w0.names@[i]
    &&& forall|i: int| 0 <= i < n ==> (#[trigger] w1.blocks_tiles@[i]) == w0.blocks_tiles@[i]
    &&& forall|i: int| 0 <= i < n ==> (#[trigger] w1.combat_stats@[i]) == w0.combat_stats@[i]
    &&& forall|i: int| 0 <= i < n ==> (#[trigger] w1.wants_to_melees@[i]) == w0.wants_to_melees@[i]
    &&& forall|i: int| 0 <= i < n ==> (#[trigger] w1.suffer_damages@[i]) == w0.suffer_damages@[i]
    &&& forall|i: int| 0 <= i < n ==> (#[trigger] w1.items@[i]) == w0.items@[i]
    &&& forall|i: int|
        0 <= i < n ==> (#[trigger] w1.provides_healings@[i]) == w0.provides_healings@[i]
    &&& forall|i: int| 0 <= i < n ==> (#[trigger] w1.in_backpacks@[i]) == w0.in_backpacks@[i]
    &&& forall|i: int|
        0 <= i < n ==> (#[trigger] w1.wants_to_pickup_items@[i]) == w0.wants_to_pickup_items@[i]
    &&& forall|i: int|
        0 <= i < n ==> (#[trigger] w1.wants_to_use_items@[i]) == w0.wants_to_use_items@[i]
    &&& forall|i: int|
        0 <= i < n ==> (#[trigger] w1.wants_to_drop_items@[i]) == w0.wants_to_drop_items@[i]
    &&& forall|i: int| 0 <= i < n ==> (#[trigger] w1.consumables@[i]) == w0.consumables@[i]
    &&& forall|i: int|
        0 <= i < n ==> (#[trigger] w1.inflicts_damages@[i]) == w0.inflicts_damages@[i]
    &&& forall|i: int| 0 <= i < n ==> (#[trigger] w1.rangeds@[i]) == w0.rangeds@[i]
    &&& forall|i: int|
        0 <= i < n ==> (#[trigger] w1.areas_of_effect@[i]) == w0.areas_of_effect@[i]
    &&& forall|i: int| 0 <= i < n ==> (#[trigger] w1.confusions@[i]) == w0.confusions@[i]
}

/// Growing a store twice still only appends.
pub proof fn lemma_extends_trans(w0: World, w1: World, w2: World)
    requires
        extends(w0, w1),
        extends(w1, w2),
    ensures
        extends(w0, w2),
{
}

/// A live monster entity at `i`: placed, drawn, sighted, named, blocking,
/// and with a monster's combat stats.
pub open spec fn monster_at(w: World, i: int, x: int, y: int) -> bool {
    &&& w.is_alive(i)
    &&& w.positions[i] == Some((Position { x: x as i32, y: y as i32 }))
    &&& w.monsters[i] is Some
    &&& w.blocks_tiles[i] is Some
    &&& w.viewsheds[i] matches Some(v) && v.range == 8 && v.dirty
    &&& w.names[i] is Some
    &&& w.combat_stats[i] == Some((CombatStats { max_hp: 16, hp: 16, defense: 1, power: 4 }))
    &&& w.players[i] is None
    &&& w.items[i] is None
}

/// A live item entity at `i`: placed, drawn, marked as an item, and carrying
/// at least one usable effect.
pub open spec fn item_at(w: World, i: int, x: int, y: int) -> bool {
    &&& w.is_alive(i)
    &&& w.positions[i] == Some((Position { x: x as i32, y: y as i32 }))
    &&& w.items[i] is Some
    &&& w.in_backpacks[i] is None
    &&& w.consumables[i] is Some
    &&& w.names[i] is Some
    &&& w.players[i] is None
    &&& w.monsters[i] is None
    &&& w.blocks_tiles[i] is None
    &&& (w.provides_healings[i] is Some || w.inflicts_damages[i] is Some || w.confusions[i]
        is Some)
}

/// The new entities of one room population, split at `m`: a block of
/// monsters first, then a block of items, at most MAX_MONSTERS monsters and
/// one to MAX_ITEMS + 1 items, on pairwise distinct tiles within each block.
pub open spec fn monsters_then_items(w0: World, w1: World, m: int) -> bool {
    let n0 = w0.num_entities();
    let n1 = w1.num_entities();
    &&& n0 <= m <= n1
    &&& m - n0 <= MAX_MONSTERS
    &&& 1 <= n1 - m <= MAX_ITEMS + 1
    &&& forall|i: int|
        n0 <= i < m ==> monster_at(
            w1,
            i,
            (#[trigger] w1.positions[i])->Some_0.x as int,
            w1.positions[i]->Some_0.y as int,
        )
    &&& forall|i: int|
        m <= i < n1 ==> item_at(
            w1,
            i,
            (#[trigger] w1.positions[i])->Some_0.x as int,
            w1.positions[i]->Some_0.y as int,
        )
    &&& forall|i: int, j: int|
        n0 <= i < j < m ==> #[trigger] w1.positions[i] != #[trigger] w1.positions[j]
    &&& forall|i: int, j: int|
        m <= i < j < n1 ==> #[trigger] w1.positions[i] != #[trigger] w1.positions[j]
}

/// What populating one room guarantees: the store only grew, every new
/// entity stands strictly inside the room, and the additions split into a
/// monster block and a nonempty item block with distinct tiles in each.
pub open spec fn spawn_room_rel(w0: World, w1: World, room: Rect) -> bool {
    &&& w1.wf()
    &&& extends(w0, w1)
    &&& w0.num_entities() <= w1.num_entities() <= w0.num_entities() + 7
    &&& forall|i: int|
        w0.num_entities() <= i < w1.num_entities() ==> ((#[trigger] w1.positions[i]) matches Some(
            p,
        ) && room.x1 < p.x <= room.x2 && room.y1 < p.y <= room.y2)
    &&& exists|m: int| monsters_then_items(w0, w1, m)
}

/// Rooms 1 through `k - 1` have been populated in order, each by one room
/// population step from the store the previous step left behind.
pub open spec fn rooms_spawned(w0: World, w1: World, rooms: Seq<Rect>, k: int) -> bool
    decreases k,
{
    if k <= 1 {
        w1 == w0
    } else {
        exists|mid: World|
            rooms_spawned(w0, mid, rooms, k - 1) && #[trigger] spawn_room_rel(
                mid,
                w1,
                rooms[k - 1],
            )
    }
}

/// Create the player: positioned, drawn as `@`, sighted with range 8, named,
/// and with the player's combat stats.
pub fn player(world: &mut World, x: usize, y: usize) -> (e: Entity)
    requires
        old(world).wf(),
        old(world).num_entities() < usize::MAX,
        x < WIDTH,
        y < HEIGHT,
    ensures
        final(world).wf(),
        extends(*old(world), *final(world)),
        final(world).num_entities() == old(world).num_entities() + 1,
        e == old(world).num_entities(),
        final(world).is_alive(e as int),
        final(world).players[e as int] is Some,
        final(world).positions[e as int] == Some((Position { x: x as i32, y: y as i32 })),
        final(world).viewsheds[e as int] matches Some(v) && v.range == 8 && v.dirty
            && v.visible_tiles@.len() == 0,
        final(world).names[e as int] matches Some(nm) && nm.name@ == "Player"@,
        final(world).combat_stats[e as int] == Some(
            (CombatStats { max_hp: 30, hp: 30, defense: 2, power: 5 }),
        ),
        final(world).renderables[e as int] == Some(
            (Renderable { glyph: 64, fg: Color::Yellow, bg: Color::Black, render_order: 0 }),
        ),
        final(world).monsters[e as int] is None,
        final(world).items[e as int] is None,
        final(world).in_backpacks[e as int] is None,
{
    let e = world.create_entity();
    world.positions[e] = Some(Position { x: x as i32, y: y as i32 });
    world.renderables[e] = Some(
        Renderable { glyph: 64, fg: Color::Yellow, bg: Color::Black, render_order: 0 },
    );
    world.players[e] = Some(Player {  });
    world.viewsheds[e] = Some(Viewshed { range: 8, visible_tiles: Vec::new(), dirty: true });
    world.names[e] = Some(Name { name: "Player".to_string() });
    world.combat_stats[e] = Some(CombatStats { max_hp: 30, hp: 30, defense: 2, power: 5 });
    e
}


fn monster(world: &mut World, x: usize, y: usize, glyph: u16, name: String)
    requires
        old(world).wf(),
        old(world).num_entities() < usize::MAX,
        x < WIDTH,
        y < HEIGHT,
    ensures
        final(world).wf(),
        extends(*old(world), *final(world)),
        final(world).num_entities() == old(world).num_entities() + 1,
        monster_at(*final(world), old(world).num_entities(), x as int, y as int),
        final(world).renderables[old(world).num_entities()] == Some(
            (Renderable { glyph: glyph, fg: Color::Red, bg: Color::Black, render_order: 1 }),
        ),
        final(world).names[old(world).num_entities()] matches Some(nm) && nm.name == name,
{
    let e = world.create_entity();
    world.positions[e] = Some(Position { x: x as i32, y: y as i32 });
    world.renderables[e] = Some(
        Renderable { glyph, fg: Color::Red, bg: Color::Black, render_order: 1 },
    );
    world.viewsheds[e] = Some(Viewshed { range: 8, visible_tiles: Vec::new(), dirty: true });
    world.monsters[e] = Some(Monster {  });
    world.names[e] = Some(Name { name });
    world.blocks_tiles[e] = Some(BlocksTile {  });
    world.combat_stats[e] = Some(CombatStats { max_hp: 16, hp: 16, defense: 1, power: 4 });
}

fn goblin(world: &mut World, x: usize, y: usize)
    requires
        old(world).wf(),
        old(world).num_entities() < usize::MAX,
        x < WIDTH,
        y < HEIGHT,
    ensures
        final(world).wf(),
        extends(*old(world), *final(world)),
        final(world).num_entities() == old(world).num_entities() + 1,
        monster_at(*final(world), old(world).num_entities(), x as int, y as int),
{
    monster(world, x, y, 'g' as u16, "Goblin".to_string());
}

fn orc(world: &mut World, x: usize, y: usize)
    requires
        old(world).wf(),
        old(world).num_entities() < usize::MAX,
        x < WIDTH,
        y < HEIGHT,
    ensures
        final(world).wf(),
        extends(*old(world), *final(world)),
        final(world).num_entities() == old(world).num_entities() + 1,
        monster_at(*final(world), old(world).num_entities(), x as int, y as int),
{
    monster(world, x, y, 'o' as u16, "Orc".to_string());
}

/// Spawn a goblin or an orc at (x, y), on a coin flip.
pub fn random_monster(world: &mut World, rng: &mut rltk::RandomNumberGenerator, x: usize, y: usize)
    requires
        old(world).wf(),
        old(world).num_entities() < usize::MAX,
        x < WIDTH,
        y < HEIGHT,
    ensures
        final(world).wf(),
        extends(*old(world), *final(world)),
        final(world).num_entities() == old(world).num_entities() + 1,
        monster_at(*final(world), old(world).num_entities(), x as int, y as int),
{
    let roll = rng_coin(rng);
    if roll {
        goblin(world, x, y);
    } else {
        orc(world, x, y);
    }
}

/// A potion restoring 8 hit points.
pub fn health_potion(world: &mut World, x: usize, y: usize)
    requires
        old(world).wf(),
        old(world).num_entities() < usize::MAX,
        x < WIDTH,
        y < HEIGHT,
    ensures
        final(world).wf(),
        extends(*old(world), *final(world)),
        final(world).num_entities() == old(world).num_entities() + 1,
        item_at(*final(world), old(world).num_entities(), x as int, y as int),
        final(world).provides_healings[old(world).num_entities()] == Some(
            (ProvidesHealing { heal_amount: 8 }),
        ),
        final(world).renderables[old(world).num_entities()] == Some(
            (Renderable { glyph: 173, fg: Color::Magenta, bg: Color::Black, render_order: 2 }),
        ),
        final(world).names[old(world).num_entities()] matches Some(nm) && nm.name@ == "Poção de Vida"@,
{
    let e = world.create_entity();
    world.positions[e] = Some(Position { x: x as i32, y: y as i32 });
    // glyph 173 is the inverted exclamation mark of the console's code page
    world.renderables[e] = Some(
        Renderable { glyph: 173, fg: Color::Magenta, bg: Color::Black, render_order: 2 },
    );
    world.items[e] = Some(Item {  });
    world.names[e] = Some(Name { name: "Poção de Vida".to_string() });
    world.provides_healings[e] = Some(ProvidesHealing { heal_amount: 8 });
    world.consumables[e] = Some(Consumable {  });
}

/// A single-target scroll inflicting 8 damage at range 6.
pub fn magic_missile_scroll(world: &mut World, x: usize, y: usize)
    requires
        old(world).wf(),
        old(world).num_entities() < usize::MAX,
        x < WIDTH,
        y < HEIGHT,
    ensures
        final(world).wf(),
        extends(*old(world), *final(world)),
        final(world).num_entities() == old(world).num_entities() + 1,
        item_at(*final(world), old(world).num_entities(), x as int, y as int),
        final(world).rangeds[old(world).num_entities()] == Some((Ranged { range: 6 })),
        final(world).inflicts_damages[old(world).num_entities()] == Some(
            (InflictsDamage { damage: 8 }),
        ),
        final(world).areas_of_effect[old(world).num_entities()] is None,
        final(world).renderables[old(world).num_entities()] == Some(
            (Renderable { glyph: ')' as u16, fg: Color::Cyan, bg: Color::Black, render_order: 2 }),
        ),
        final(world).names[old(world).num_entities()] matches Some(nm) && nm.name@
            == "Pergaminho de Míssil Mágico"@,
{
    let e = world.create_entity();
    world.positions[e] = Some(Position { x: x as i32, y: y as i32 });
    world.renderables[e] = Some(
        Renderable { glyph: ')' as u16, fg: Color::Cyan, bg: Color::Black, render_order: 2 },
    );
    world.names[e] = Some(Name { name: "Pergaminho de Míssil Mágico".to_string() });
    world.items[e] = Some(Item {  });
    world.consumables[e] = Some(Consumable {  });
    world.rangeds[e] = Some(Ranged { range: 6 });
    world.inflicts_damages[e] = Some(InflictsDamage { damage: 8 });
}

/// An area scroll inflicting 20 damage in a radius of 3, at range 6.
pub fn fireball_scroll(world: &mut World, x: usize, y: usize)
    requires
        old(world).wf(),
        old(world).num_entities() < usize::MAX,
        x < WIDTH,
        y < HEIGHT,
    ensures
        final(world).wf(),
        extends(*old(world), *final(world)),
        final(world).num_entities() == old(world).num_entities() + 1,
        item_at(*final(world), old(world).num_entities(), x as int, y as int),
        final(world).rangeds[old(world).num_entities()] == Some((Ranged { range: 6 })),
        final(world).inflicts_damages[old(world).num_entities()] == Some(
            (InflictsDamage { damage: 20 }),
        ),
        final(world).areas_of_effect[old(world).num_entities()] == Some(
            (AreaOfEffect { radius: 3 }),
        ),
        final(world).renderables[old(world).num_entities()] == Some(
            (Renderable {
                glyph: ')' as u16,
                fg: Color::Orange,
                bg: Color::Black,
                render_order: 2,
            }),
        ),
        final(world).names[old(world).num_entities()] matches Some(nm) && nm.name@
            == "Pergaminho de Bola de Fogo"@,
{
    let e = world.create_entity();
    world.positions[e] = Some(Position { x: x as i32, y: y as i32 });
    world.renderables[e] = Some(
        Renderable { glyph: ')' as u16, fg: Color::Orange, bg: Color::Black, render_order: 2 },
    );
    world.names[e] = Some(Name { name: "Pergaminho de Bola de Fogo".to_string() });
    world.items[e] = Some(Item {  });
    world.consumables[e] = Some(Consumable {  });
    world.rangeds[e] = Some(Ranged { range: 6 });
    world.inflicts_damages[e] = Some(InflictsDamage { damage: 20 });
    world.areas_of_effect[e] = Some(AreaOfEffect { radius: 3 });
}

/// A scroll confusing its target for 4 turns, at range 6.
pub fn confusion_scroll(world: &mut World, x: usize, y: usize)
    requires
        old(world).wf(),
        old(world).num_entities() < usize::MAX,
        x < WIDTH,
        y < HEIGHT,
    ensures
        final(world).wf(),
        extends(*old(world), *final(world)),
        final(world).num_entities() == old(world).num_entities() + 1,
        item_at(*final(world), old(world).num_entities(), x as int, y as int),
        final(world).rangeds[old(world).num_entities()] == Some((Ranged { range: 6 })),
        final(world).confusions[old(world).num_entities()] == Some((Confusion { turns: 4 })),
        final(world).renderables[old(world).num_entities()] == Some(
            (Renderable { glyph: ')' as u16, fg: Color::Pink, bg: Color::Black, render_order: 2 }),
        ),
        final(world).names[old(world).num_entities()] matches Some(nm) && nm.name@
            == "Pergaminho de Confusão"@,
{
    let e = world.create_entity();
    world.positions[e] = Some(Position { x: x as i32, y: y as i32 });
    world.renderables[e] = Some(
        Renderable { glyph: ')' as u16, fg: Color::Pink, bg: Color::Black, render_order: 2 },
    );
    world.names[e] = Some(Name { name: "Pergaminho de Confusão".to_string() });
    world.items[e] = Some(Item {  });
    world.consumables[e] = Some(Consumable {  });
    world.confusions[e] = Some(Confusion { turns: 4 });
    world.rangeds[e] = Some(Ranged { range: 6 });
}

/// Spawn one of the four item kinds at (x, y), chosen uniformly.
pub fn random_item(world: &mut World, rng: &mut rltk::RandomNumberGenerator, x: usize, y: usize)
    requires
        old(world).wf(),
        old(world).num_entities() < usize::MAX,
        x < WIDTH,
        y < HEIGHT,
    ensures
        final(world).wf(),
        extends(*old(world), *final(world)),
        final(world).num_entities() == old(world).num_entities() + 1,
        item_at(*final(world), old(world).num_entities(), x as int, y as int),
{
    let roll = rng_range(rng, 0, 4);
    if roll == 0 {
        health_potion(world, x, y);
    } else if roll == 1 {
        magic_missile_scroll(world, x, y);
    } else if roll == 2 {
        fireball_scroll(world, x, y);
    } else {
        confusion_scroll(world, x, y);
    }
}

fn position_list_contains(v: &Vec<Position>, p: Position) -> (r: bool)
    ensures
        r == v@.contains(p),
{
    let mut k: usize = 0;
    while k < v.len()
        invariant
            k <= v@.len(),
            forall|j: int| 0 <= j < k ==> v@[j] != p,
        decreases v@.len() - k,
    {
        if v[k].x == p.x && v[k].y == p.y {
            assert(v@[k as int] == p);
            return true;
        }
        k = k + 1;
    }
    false
}

/// Populate one room: up to MAX_MONSTERS monsters and then one to three
/// items, each block at pairwise distinct random spots inside the room.
pub fn spawn_room(world: &mut World, rng: &mut rltk::RandomNumberGenerator, room: &Rect)
    requires
        old(world).wf(),
        old(world).num_entities() + 8 < usize::MAX,
        room.x1 < room.x2 < WIDTH,
        room.y1 < room.y2 < HEIGHT,
    ensures
        spawn_room_rel(*old(world), *final(world), *room),
        final(world).wf(),
        extends(*old(world), *final(world)),
        old(world).num_entities() <= final(world).num_entities() <= old(world).num_entities() + 7,
        forall|i: int|
            old(world).num_entities() <= i < final(world).num_entities() ==> {
                &&& final(world).positions[i] matches Some(p) && {
                    &&& room.x1 < p.x <= room.x2
                    &&& room.y1 < p.y <= room.y2
                }
                &&& (monster_at(
                    *final(world),
                    i,
                    final(world).positions[i]->Some_0.x as int,
                    final(world).positions[i]->Some_0.y as int,
                ) || item_at(
                    *final(world),
                    i,
                    final(world).positions[i]->Some_0.x as int,
                    final(world).positions[i]->Some_0.y as int,
                ))
            },
{
    let ghost w0 = *world;
    let mut monster_spawn_points: Vec<Position> = Vec::new();
    let mut item_spawn_points: Vec<Position> = Vec::new();

    let num_monsters = rng_roll_dice(rng, 1, MAX_MONSTERS as i32 + 2) - 3;
    let mut picked: i32 = 0;
    while picked <= num_monsters
        invariant
            room.x1 < room.x2 < WIDTH,
            room.y1 < room.y2 < HEIGHT,
            num_monsters <= 3,
            0 <= picked <= 4,
            monster_spawn_points@.len() <= picked,
            forall|j: int|
                0 <= j < monster_spawn_points@.len() ==> {
                    &&& room.x1 < (#[trigger] monster_spawn_points@[j]).x <= room.x2
                    &&& room.y1 < monster_spawn_points@[j].y <= room.y2
                },
            forall|j1: int, j2: int|
                0 <= j1 < j2 < monster_spawn_points@.len()
                    ==> #[trigger] monster_spawn_points@[j1]
                    != #[trigger] monster_spawn_points@[j2],
        decreases num_monsters + 1 - picked,
    {
        let mut added = false;
        let mut tries: usize = 0;
        while !added && tries < 64
            invariant
                room.x1 < room.x2 < WIDTH,
                room.y1 < room.y2 < HEIGHT,
                tries <= 64,
                0 <= picked <= 3,
                !added ==> monster_spawn_points@.len() <= picked,
                added ==> monster_spawn_points@.len() <= picked + 1,
                forall|j: int|
                    0 <= j < monster_spawn_points@.len() ==> {
                        &&& room.x1 < (#[trigger] monster_spawn_points@[j]).x <= room.x2
                        &&& room.y1 < monster_spawn_points@[j].y <= room.y2
                    },
                forall|j1: int, j2: int|
                    0 <= j1 < j2 < monster_spawn_points@.len()
                        ==> #[trigger] monster_spawn_points@[j1]
                        != #[trigger] monster_spawn_points@[j2],
            decreases 64 - tries,
        {
            let x = room.x1 + rng_roll_dice(rng, 1, (room.x2 - room.x1) as i32) as usize;
            let y = room.y1 + rng_roll_dice(rng, 1, (room.y2 - room.y1) as i32) as usize;
            let p = Position { x: x as i32, y: y as i32 };
            if !position_list_contains(&monster_spawn_points, p) {
                let ghost prev = monster_spawn_points@;
                monster_spawn_points.push(p);
                proof {
                    assert forall|j1: int, j2: int|
                        0 <= j1 < j2 < monster_spawn_points@.len()
                            implies #[trigger] monster_spawn_points@[j1]
                            != #[trigger] monster_spawn_points@[j2] by {
                        if j2 == prev.len() {
                            assert(monster_spawn_points@[j1] == prev[j1]);
                            assert(!prev.contains(monster_spawn_points@[j2]));
                        }
                    }
                }
                added = true;
            }
            tries = tries + 1;
        }
        picked = picked + 1;
    }

    let num_items = rng_roll_dice(rng, 1, MAX_ITEMS as i32 + 1) - 1;
    let mut ipicked: i32 = 0;
    while ipicked <= num_items
        invariant
            room.x1 < room.x2 < WIDTH,
            room.y1 < room.y2 < HEIGHT,
            0 <= num_items <= 2,
            0 <= ipicked <= 3,
            item_spawn_points@.len() <= ipicked,
            ipicked >= 1 ==> item_spawn_points@.len() >= 1,
            forall|j: int|
                0 <= j < item_spawn_points@.len() ==> {
                    &&& room.x1 < (#[trigger] item_spawn_points@[j]).x <= room.x2
                    &&& room.y1 < item_spawn_points@[j].y <= room.y2
                },
            forall|j1: int, j2: int|
                0 <= j1 < j2 < item_spawn_points@.len() ==> #[trigger] item_spawn_points@[j1]
                    != #[trigger] item_spawn_points@[j2],
        decreases num_items + 1 - ipicked,
    {
        let ghost entry_len = item_spawn_points@.len();
        let mut added = false;
        let mut tries: usize = 0;
        while !added && tries < 64
            invariant
                room.x1 < room.x2 < WIDTH,
                room.y1 < room.y2 < HEIGHT,
                tries <= 64,
                0 <= ipicked <= 2,
                entry_len <= ipicked,
                !added ==> item_spawn_points@.len() == entry_len,
                added ==> item_spawn_points@.len() == entry_len + 1,
                (entry_len == 0 && tries > 0) ==> added,
                forall|j: int|
                    0 <= j < item_spawn_points@.len() ==> {
                        &&& room.x1 < (#[trigger] item_spawn_points@[j]).x <= room.x2
                        &&& room.y1 < item_spawn_points@[j].y <= room.y2
                    },
                forall|j1: int, j2: int|
                    0 <= j1 < j2 < item_spawn_points@.len() ==> #[trigger] item_spawn_points@[j1]
                        != #[trigger] item_spawn_points@[j2],
            decreases 64 - tries,
        {
            let x = room.x1 + rng_roll_dice(rng, 1, (room.x2 - room.x1) as i32) as usize;
            let y = room.y1 + rng_roll_dice(rng, 1, (room.y2 - room.y1) as i32) as usize;
            let p = Position { x: x as i32, y: y as i32 };
            if !position_list_contains(&item_spawn_points, p) {
                let ghost prev = item_spawn_points@;
                item_spawn_points.push(p);
                proof {
                    assert forall|j1: int, j2: int|
                        0 <= j1 < j2 < item_spawn_points@.len()
                            implies #[trigger] item_spawn_points@[j1]
                            != #[trigger] item_spawn_points@[j2] by {
                        if j2 == prev.len() {
                            assert(item_spawn_points@[j1] == prev[j1]);
                            assert(!prev.contains(item_spawn_points@[j2]));
                        }
                    }
                }
                added = true;
            }
            tries = tries + 1;
        }
        ipicked = ipicked + 1;
    }

    let mut k: usize = 0;
    while k < monster_spawn_points.len()
        invariant
            world.wf(),
            extends(w0, *world),
            world.num_entities() == w0.num_entities() + k,
            k <= monster_spawn_points@.len(),
            monster_spawn_points@.len() <= 4,
            w0.num_entities() + 8 < usize::MAX,
            room.x1 < room.x2 < WIDTH,
            room.y1 < room.y2 < HEIGHT,
            forall|j: int|
                0 <= j < monster_spawn_points@.len() ==> {
                    &&& room.x1 < (#[trigger] monster_spawn_points@[j]).x <= room.x2
                    &&& room.y1 < monster_spawn_points@[j].y <= room.y2
                },
            forall|j1: int, j2: int|
                0 <= j1 < j2 < monster_spawn_points@.len()
                    ==> #[trigger] monster_spawn_points@[j1]
                    != #[trigger] monster_spawn_points@[j2],
            forall|j: int|
                0 <= j < k ==> world.positions[w0.num_entities() + j] == Some(
                    #[trigger] monster_spawn_points@[j],
                ),
            forall|i: int|
                w0.num_entities() <= i < world.num_entities() ==> {
                    &&& (#[trigger] world.positions[i]) matches Some(p) && {
                        &&& room.x1 < p.x <= room.x2
                        &&& room.y1 < p.y <= room.y2
                    }
                    &&& monster_at(
                        *world,
                        i,
                        world.positions[i]->Some_0.x as int,
                        world.positions[i]->Some_0.y as int,
                    )
                },
        decreases monster_spawn_points@.len() - k,
    {
        let ghost mid = *world;
        let p = monster_spawn_points[k];
        random_monster(world, rng, p.x as usize, p.y as usize);
        proof {
            lemma_extends_trans(w0, mid, *world);
            assert(world.positions[mid.num_entities()] == Some(monster_spawn_points@[k as int]));
            assert forall|j: int|
                0 <= j < k + 1 implies world.positions[w0.num_entities() + j] == Some(
                #[trigger] monster_spawn_points@[j],
            ) by {
                if j < k {
                    assert(world.positions[w0.num_entities() + j] == mid.positions[
                        w0.num_entities() + j
                    ]);
                }
            }
            assert forall|i: int|
                w0.num_entities() <= i < world.num_entities() implies {
                &&& (#[trigger] world.positions[i]) matches Some(p2) && {
                    &&& room.x1 < p2.x <= room.x2
                    &&& room.y1 < p2.y <= room.y2
                }
                &&& monster_at(
                    *world,
                    i,
                    world.positions[i]->Some_0.x as int,
                    world.positions[i]->Some_0.y as int,
                )
            } by {
                if i < mid.num_entities() {
                    assert(mid.positions[i] matches Some(p2) && room.x1 < p2.x <= room.x2
                        && room.y1 < p2.y <= room.y2);
                    assert(monster_at(
                        mid,
                        i,
                        mid.positions[i]->Some_0.x as int,
                        mid.positions[i]->Some_0.y as int,
                    ));
                }
            }
        }
        k = k + 1;
    }

    let ghost wm = *world;
    let mut k2: usize = 0;
    while k2 < item_spawn_points.len()
        invariant
            world.wf(),
            extends(w0, wm),
            extends(wm, *world),
            world.num_entities() == wm.num_entities() + k2,
            wm.num_entities() >= w0.num_entities(),
            k2 <= item_spawn_points@.len(),
            item_spawn_points@.len() <= 3,
            wm.num_entities() <= w0.num_entities() + 4,
            w0.num_entities() + 8 < usize::MAX,
            room.x1 < room.x2 < WIDTH,
            room.y1 < room.y2 < HEIGHT,
            forall|j: int|
                0 <= j < item_spawn_points@.len() ==> {
                    &&& room.x1 < (#[trigger] item_spawn_points@[j]).x <= room.x2
                    &&& room.y1 < item_spawn_points@[j].y <= room.y2
                },
            forall|j1: int, j2: int|
                0 <= j1 < j2 < item_spawn_points@.len() ==> #[trigger] item_spawn_points@[j1]
                    != #[trigger] item_spawn_points@[j2],
            forall|j: int|
                0 <= j < k2 ==> world.positions[wm.num_entities() + j] == Some(
                    #[trigger] item_spawn_points@[j],
                ),
            forall|i: int|
                w0.num_entities() <= i < wm.num_entities() ==> {
                    &&& (#[trigger] wm.positions[i]) matches Some(p) && {
                        &&& room.x1 < p.x <= room.x2
                        &&& room.y1 < p.y <= room.y2
                    }
                    &&& monster_at(
                        wm,
                        i,
                        wm.positions[i]->Some_0.x as int,
                        wm.positions[i]->Some_0.y as int,
                    )
                },
            forall|i: int|
                wm.num_entities() <= i < world.num_entities() ==> {
                    &&& (#[trigger] world.positions[i]) matches Some(p) && {
                        &&& room.x1 < p.x <= room.x2
                        &&& room.y1 < p.y <= room.y2
                    }
                    &&& item_at(
                        *world,
                        i,
                        world.positions[i]->Some_0.x as int,
                        world.positions[i]->Some_0.y as int,
                    )
                },
        decreases item_spawn_points@.len() - k2,
    {
        let ghost mid = *world;
        let p = item_spawn_points[k2];
        random_item(world, rng, p.x as usize, p.y as usize);
        proof {
            lemma_extends_trans(wm, mid, *world);
            assert(world.positions[mid.num_entities()] == Some(item_spawn_points@[k2 as int]));
            assert forall|j: int|
                0 <= j < k2 + 1 implies world.positions[wm.num_entities() + j] == Some(
                #[trigger] item_spawn_points@[j],
            ) by {
                if j < k2 {
                    assert(world.positions[wm.num_entities() + j] == mid.positions[
                        wm.num_entities() + j
                    ]);
                }
            }
            assert forall|i: int|
                wm.num_entities() <= i < world.num_entities() implies {
                &&& (#[trigger] world.positions[i]) matches Some(p2) && {
                    &&& room.x1 < p2.x <= room.x2
                    &&& room.y1 < p2.y <= room.y2
                }
                &&& item_at(
                    *world,
                    i,
                    world.positions[i]->Some_0.x as int,
                    world.positions[i]->Some_0.y as int,
                )
            } by {
                if i < mid.num_entities() {
                    assert(mid.positions[i] matches Some(p2) && room.x1 < p2.x <= room.x2
                        && room.y1 < p2.y <= room.y2);
                    assert(item_at(
                        mid,
                        i,
                        mid.positions[i]->Some_0.x as int,
                        mid.positions[i]->Some_0.y as int,
                    ));
                }
            }
        }
        k2 = k2 + 1;
    }

    proof {
        lemma_extends_trans(w0, wm, *world);
        assert forall|i: int|
            w0.num_entities() <= i < world.num_entities() implies {
            &&& (#[trigger] world.positions[i]) matches Some(p2) && {
                &&& room.x1 < p2.x <= room.x2
                &&& room.y1 < p2.y <= room.y2
            }
            &&& (monster_at(
                *world,
                i,
                world.positions[i]->Some_0.x as int,
                world.positions[i]->Some_0.y as int,
            ) || item_at(
                *world,
                i,
                world.positions[i]->Some_0.x as int,
                world.positions[i]->Some_0.y as int,
            ))
        } by {
            if i < wm.num_entities() {
                assert(wm.positions[i] matches Some(p2) && room.x1 < p2.x <= room.x2 && room.y1
                    < p2.y <= room.y2);
                assert(monster_at(
                    wm,
                    i,
                    wm.positions[i]->Some_0.x as int,
                    wm.positions[i]->Some_0.y as int,
                ));
            }
        }
        let m = wm.num_entities();
        assert forall|i: int| w0.num_entities() <= i < m implies monster_at(
            *world,
            i,
            (#[trigger] world.positions[i])->Some_0.x as int,
            world.positions[i]->Some_0.y as int,
        ) by {
            assert(world.positions[i] == wm.positions[i]);
            assert(monster_at(
                wm,
                i,
                wm.positions[i]->Some_0.x as int,
                wm.positions[i]->Some_0.y as int,
            ));
        }
        assert forall|i: int, j: int|
            w0.num_entities() <= i < j < m implies #[trigger] world.positions[i]
            != #[trigger] world.positions[j] by {
            assert(world.positions[i] == wm.positions[i]);
            assert(world.positions[j] == wm.positions[j]);
            assert(wm.positions[i] == Some(monster_spawn_points@[i - w0.num_entities()]));
            assert(wm.positions[j] == Some(monster_spawn_points@[j - w0.num_entities()]));
            assert(monster_spawn_points@[i - w0.num_entities()] != monster_spawn_points@[j
                - w0.num_entities()]);
        }
        assert forall|i: int, j: int|
            m <= i < j < world.num_entities() implies #[trigger] world.positions[i]
            != #[trigger] world.positions[j] by {
            assert(world.positions[i] == Some(item_spawn_points@[i - m]));
            assert(world.positions[j] == Some(item_spawn_points@[j - m]));
            assert(item_spawn_points@[i - m] != item_spawn_points@[j - m]);
        }
        assert(monsters_then_items(w0, *world, m));
        assert(spawn_room_rel(w0, *world, *room));
    }
}

} // verus!
