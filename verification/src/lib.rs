use vstd::prelude::*;

pub mod components;
pub mod damage_system;
pub mod fov;
pub mod gui;
pub mod inventory_system;
pub mod map;
pub mod map_indexing_system;
pub mod melee_combat_system;
pub mod monster_ai_system;
pub mod pathfind;
pub mod player;
pub mod reachability;
mod rng;
pub mod spawner;
pub mod visibility_system;
pub mod world;

pub use crate::map::GameMap;
pub use crate::map::Rect;
pub use crate::map::TileType;
pub use crate::map::idx_xy;
pub use crate::map::xy_idx;
pub use crate::world::World;

use crate::components::CombatStats;
use crate::components::Entity;
use crate::components::GameLog;
use crate::components::LogEntry;
use crate::components::Point;
use crate::components::Position;
use crate::map::center_x;
use crate::map::center_y;
use crate::map::generated;
use crate::map::HEIGHT;
use crate::map::WIDTH;
use crate::map::room_in_bounds;

verus! {

/// The turn scheduler's states: the main cycle plus the menu overlays.
#[derive(Clone, Copy, PartialEq, Eq, Structural, Debug)]
pub enum RunState {
    AwaitingInput,
    PreRun,
    PlayerTurn,
    MonsterTurn,
    ShowInventory,
    ShowDropItem,
    ShowTargeting { range: u32, item: Entity },
}

/// The whole game: the entity-component store and the shared resources the
/// systems read and write (map, scheduler state, player handle and position,
/// message log).
pub struct State {
    pub ecs: World,
    pub map: GameMap,
    pub run_state: RunState,
    pub player_entity: Entity,
    pub player_pos: Point,
    pub log: GameLog,
}

impl State {
    /// Every positioned live entity stands on a grid tile.
    pub open spec fn positions_in_bounds(self) -> bool {
        forall|e: int|
            0 <= e < self.ecs.num_entities() && self.ecs.alive[e] && (
            #[trigger] self.ecs.positions[e]) is Some ==> {
                &&& 0 <= self.ecs.positions[e]->Some_0.x < WIDTH
                &&& 0 <= self.ecs.positions[e]->Some_0.y < HEIGHT
            }
    }

    /// The store is consistent, the map has its fixed shape, the player
    /// entity exists, is alive, and is the only entity with the player
    /// marker, and every positioned entity is on the grid.
    pub open spec fn wf(self) -> bool {
        &&& self.ecs.wf()
        &&& self.map.wf()
        &&& self.player_entity < self.ecs.num_entities()
        &&& self.ecs.alive[self.player_entity as int]
        &&& forall|e: int|
            0 <= e < self.ecs.num_entities() ==> ((#[trigger] self.ecs.players[e]) is Some <==> e
                == self.player_entity)
        &&& self.positions_in_bounds()
        &&& 0 <= self.player_pos.x < WIDTH
        &&& 0 <= self.player_pos.y < HEIGHT
    }
}


/// One frame's abstract outside event handed to the scheduler: a key
/// command, a menu answer, a targeting answer, or nothing.
pub enum TickEvent {
    Nothing,
    Key(crate::player::Command),
    Menu(crate::gui::ItemMenuResult),
    Target(crate::gui::ItemMenuResult),
}

/// The key command an event carries, if any.
pub open spec fn event_cmd(event: TickEvent) -> Option<crate::player::Command> {
    match event {
        TickEvent::Key(cmd) => Some(cmd),
        _ => None,
    }
}

/// The same state with the scheduler moved to `rs`.
pub open spec fn with_run_state(s: State, rs: RunState) -> State {
    State { run_state: rs, ..s }
}

/// One full pass of the system pipeline in its fixed order: some chain of
/// intermediate states joins `s0` to `s1` through the visibility, monster
/// AI, spatial index, melee, damage, pickup, item use and drop passes.
pub open spec fn pipeline_ran(s0: State, s1: State) -> bool {
    exists|m1: State, m2: State, m3: State, m4: State, m5: State, m6: State, m7: State|
        #![trigger crate::visibility_system::vis_ran(s0, m1), crate::monster_ai_system::ai_ran(
            m1,
            m2,
        ), crate::map_indexing_system::index_ran(m2, m3), crate::melee_combat_system::melee_ran(
            m3,
            m4,
        ), crate::damage_system::damage_ran(m4, m5), crate::inventory_system::collect_ran(
            m5,
            m6,
        ), crate::inventory_system::use_ran(m6, m7), crate::inventory_system::drop_ran(m7, s1)]
        {
            &&& crate::visibility_system::vis_ran(s0, m1)
            &&& crate::monster_ai_system::ai_ran(m1, m2)
            &&& crate::map_indexing_system::index_ran(m2, m3)
            &&& crate::melee_combat_system::melee_ran(m3, m4)
            &&& crate::damage_system::damage_ran(m4, m5)
            &&& crate::inventory_system::collect_ran(m5, m6)
            &&& crate::inventory_system::use_ran(m6, m7)
            &&& crate::inventory_system::drop_ran(m7, s1)
        }
}

/// No transient intent survives: all melee, pickup, use and drop intents
/// are consumed.
pub open spec fn intents_clear(w: World) -> bool {
    &&& forall|e: int| 0 <= e < w.num_entities() ==> (#[trigger] w.wants_to_melees[e]) is None
    &&& forall|e: int|
        0 <= e < w.num_entities() ==> (#[trigger] w.wants_to_pickup_items[e]) is None
    &&& forall|e: int| 0 <= e < w.num_entities() ==> (#[trigger] w.wants_to_use_items[e]) is None
    &&& forall|e: int| 0 <= e < w.num_entities() ==> (#[trigger] w.wants_to_drop_items[e]) is None
}

impl State {
    /// Run the full system pipeline once, in its fixed order: visibility,
    /// monster turns, the spatial index rebuild, melee resolution, damage
    /// application, then item collection, use and drop. Afterward every
    /// transient intent has been consumed.
    pub fn run_systems(&mut self)
        requires
            old(self).wf(),
        ensures
            final(self).wf(),
            pipeline_ran(*old(self), *final(self)),
            final(self).ecs.num_entities() == old(self).ecs.num_entities(),
            intents_clear(final(self).ecs),
            old(self).ecs.items_placed() ==> final(self).ecs.items_placed(),
            final(self).run_state == old(self).run_state,
            final(self).player_entity == old(self).player_entity,
    {
        crate::visibility_system::VisibilitySystem::run(self);
        let ghost pre_ai = *self;
        crate::monster_ai_system::MonsterAISystem::run(self);
        proof {
            if pre_ai.ecs.items_placed() {
                assert forall|e: int|
                    0 <= e < self.ecs.num_entities() && self.ecs.alive[e] && (
                #[trigger] self.ecs.items[e]) is Some implies ((self.ecs.positions[e] is Some) != (
                self.ecs.in_backpacks[e] is Some)) by {
                    if pre_ai.run_state == RunState::MonsterTurn {
                        assert(crate::monster_ai_system::ai_acted(
                            pre_ai.ecs,
                            pre_ai.map,
                            pre_ai.player_pos,
                            pre_ai.player_entity as int,
                            self.ecs,
                            e,
                        ));
                    }
                }
            }
        }
        let ghost g2 = *self;
        crate::map_indexing_system::MapIndexingSystem::run(self);
        let ghost g3 = *self;
        crate::melee_combat_system::MeleeCombatSystem::run(self);
        let ghost g4 = *self;
        crate::damage_system::DamageSystem::run(self);
        let ghost g5 = *self;
        crate::inventory_system::ItemCollectionSystem::run(self);
        let ghost g6 = *self;
        crate::inventory_system::ItemUseSystem::run(self);
        let ghost g7 = *self;
        crate::inventory_system::ItemDropSystem::run(self);
        proof {
            assert(pipeline_ran(*old(self), *self)) by {
                assert(crate::visibility_system::vis_ran(*old(self), pre_ai));
                assert(crate::monster_ai_system::ai_ran(pre_ai, g2));
                assert(crate::map_indexing_system::index_ran(g2, g3));
                assert(crate::melee_combat_system::melee_ran(g3, g4));
                assert(crate::damage_system::damage_ran(g4, g5));
                assert(crate::inventory_system::collect_ran(g5, g6));
                assert(crate::inventory_system::use_ran(g6, g7));
                assert(crate::inventory_system::drop_ran(g7, *self));
            }
        }
    }

    /// Advance the turn state machine by one frame, per the scheduler's
    /// transition table, and finish with the unconditional death sweep:
    /// - the pre-run seeds the caches and waits for input;
    /// - waiting consumes one command: movement and pickup take the player's
    ///   turn, the inventory key opens the menu, anything else keeps waiting;
    /// - the player's turn runs the pipeline and hands over to the monsters,
    ///   whose turn runs it again and returns to waiting;
    /// - menus cancel back to waiting, pick an item to use or drop (a ranged
    ///   item diverts to the targeting overlay first), or stay open;
    /// - the overlay cancels back to waiting or fires at a chosen tile.
    pub fn tick(&mut self, event: TickEvent)
        requires
            old(self).wf(),
        ensures
            final(self).wf(),
            final(self).ecs.num_entities() == old(self).ecs.num_entities(),
            final(self).player_entity == old(self).player_entity,
            old(self).ecs.items_placed() ==> final(self).ecs.items_placed(),
            forall|e: int|
                0 <= e < final(self).ecs.num_entities() ==> !crate::damage_system::dead_now(
                    final(self).ecs,
                    final(self).player_entity as int,
                    e,
                ),
            old(self).run_state == RunState::PreRun ==> final(self).run_state
                == RunState::AwaitingInput && intents_clear(final(self).ecs),
            old(self).run_state == RunState::PlayerTurn ==> final(self).run_state
                == RunState::MonsterTurn && intents_clear(final(self).ecs),
            old(self).run_state == RunState::MonsterTurn ==> final(self).run_state
                == RunState::AwaitingInput && intents_clear(final(self).ecs),
            old(self).run_state == RunState::PreRun ==> exists|m: State|
                #[trigger] pipeline_ran(*old(self), m) && crate::damage_system::sweep_ran(
                    with_run_state(m, RunState::AwaitingInput),
                    *final(self),
                ),
            old(self).run_state == RunState::PlayerTurn ==> exists|m: State|
                #[trigger] pipeline_ran(*old(self), m) && crate::damage_system::sweep_ran(
                    with_run_state(m, RunState::MonsterTurn),
                    *final(self),
                ),
            old(self).run_state == RunState::MonsterTurn ==> exists|m: State|
                #[trigger] pipeline_ran(*old(self), m) && crate::damage_system::sweep_ran(
                    with_run_state(m, RunState::AwaitingInput),
                    *final(self),
                ),
            old(self).run_state == RunState::AwaitingInput ==> exists|m: State, r: RunState|
                #[trigger] crate::player::input_ran(*old(self), event_cmd(event), m, r)
                    && crate::damage_system::sweep_ran(with_run_state(m, r), *final(self)),
            old(self).run_state == RunState::AwaitingInput ==> (match event {
                TickEvent::Key(cmd) => match cmd {
                    crate::player::Command::Move { dx, dy } => {
                        if -1 <= dx <= 1 && -1 <= dy <= 1 {
                            final(self).run_state == RunState::PlayerTurn
                        } else {
                            final(self).run_state == RunState::AwaitingInput
                        }
                    },
                    crate::player::Command::PickUp => final(self).run_state
                        == RunState::PlayerTurn,
                    crate::player::Command::OpenInventory => final(self).run_state
                        == RunState::ShowInventory,
                    crate::player::Command::OpenDropMenu => final(self).run_state
                        == RunState::ShowDropItem,
                },
                _ => final(self).run_state == RunState::AwaitingInput,
            }),
            old(self).run_state == RunState::ShowInventory ==> (match event {
                TickEvent::Menu(res) => match res {
                    crate::gui::ItemMenuResult::Cancel => final(self).run_state
                        == RunState::AwaitingInput,
                    crate::gui::ItemMenuResult::NoResponse => final(self).run_state
                        == RunState::ShowInventory,
                    crate::gui::ItemMenuResult::Selected(sel) => {
                        if sel.0 < old(self).ecs.num_entities() && old(self).ecs.rangeds[sel.0 as int]
                            is Some {
                            final(self).run_state == (RunState::ShowTargeting {
                                range: old(self).ecs.rangeds[sel.0 as int]->Some_0.range,
                                item: sel.0,
                            })
                        } else if sel.0 < old(self).ecs.num_entities() {
                            &&& final(self).run_state == RunState::PlayerTurn
                            &&& final(self).ecs.wants_to_use_items[old(self).player_entity as int]
                                == Some(
                                (crate::components::WantsToUseItem { item: sel.0, target: None }),
                            )
                        } else {
                            final(self).run_state == RunState::PlayerTurn
                        }
                    },
                    crate::gui::ItemMenuResult::RangeSelected(_) => final(self).run_state
                        == RunState::PlayerTurn,
                },
                _ => final(self).run_state == RunState::ShowInventory,
            }),
            old(self).run_state == RunState::ShowDropItem ==> (match event {
                TickEvent::Menu(res) => match res {
                    crate::gui::ItemMenuResult::Cancel => final(self).run_state
                        == RunState::AwaitingInput,
                    crate::gui::ItemMenuResult::NoResponse => final(self).run_state
                        == RunState::ShowDropItem,
                    crate::gui::ItemMenuResult::Selected(sel) => {
                        if sel.0 < old(self).ecs.num_entities() {
                            &&& final(self).run_state == RunState::PlayerTurn
                            &&& final(self).ecs.wants_to_drop_items[old(self).player_entity as int]
                                == Some((crate::components::WantsToDropItem { item: sel.0 }))
                        } else {
                            final(self).run_state == RunState::PlayerTurn
                        }
                    },
                    crate::gui::ItemMenuResult::RangeSelected(_) => final(self).run_state
                        == RunState::PlayerTurn,
                },
                _ => final(self).run_state == RunState::ShowDropItem,
            }),
            (old(self).run_state matches RunState::ShowTargeting { range, item }) ==> (match event {
                TickEvent::Target(res) => match res {
                    crate::gui::ItemMenuResult::Cancel => final(self).run_state
                        == RunState::AwaitingInput,
                    crate::gui::ItemMenuResult::NoResponse => final(self).run_state == old(
                        self,
                    ).run_state,
                    crate::gui::ItemMenuResult::Selected(_) => final(self).run_state
                        == RunState::AwaitingInput,
                    crate::gui::ItemMenuResult::RangeSelected(pt) => {
                        if (old(self).run_state->ShowTargeting_item) < old(
                            self,
                        ).ecs.num_entities() {
                            &&& final(self).run_state == RunState::PlayerTurn
                            &&& final(self).ecs.wants_to_use_items[old(self).player_entity as int]
                                == Some(
                                (crate::components::WantsToUseItem {
                                    item: old(self).run_state->ShowTargeting_item,
                                    target: Some(pt),
                                }),
                            )
                        } else {
                            final(self).run_state == RunState::PlayerTurn
                        }
                    },
                },
                _ => final(self).run_state == old(self).run_state,
            }),
    {
        let ghost mut mid: State = *self;
        let new_state: RunState = match self.run_state {
            RunState::PreRun => {
                self.run_systems();
                proof {
                    mid = *self;
                }
                RunState::AwaitingInput
            },
            RunState::AwaitingInput => {
                let r = match event {
                    TickEvent::Key(cmd) => crate::player::player_input(self, Some(cmd)),
                    _ => crate::player::player_input(self, None),
                };
                proof {
                    mid = *self;
                }
                r
            },
            RunState::PlayerTurn => {
                self.run_systems();
                proof {
                    mid = *self;
                }
                RunState::MonsterTurn
            },
            RunState::MonsterTurn => {
                self.run_systems();
                proof {
                    mid = *self;
                }
                RunState::AwaitingInput
            },
            RunState::ShowInventory => {
                match event {
                    TickEvent::Menu(res) => match res {
                        crate::gui::ItemMenuResult::Cancel => RunState::AwaitingInput,
                        crate::gui::ItemMenuResult::NoResponse => RunState::ShowInventory,
                        crate::gui::ItemMenuResult::Selected(sel) => {
                            let item = sel.0;
                            if item < self.ecs.alive.len() {
                                if let Some(r) = self.ecs.rangeds[item] {
                                    RunState::ShowTargeting { range: r.range, item }
                                } else {
                                    let player = self.player_entity;
                                    self.ecs.wants_to_use_items[player] = Some(
                                        crate::components::WantsToUseItem { item, target: None },
                                    );
                                    RunState::PlayerTurn
                                }
                            } else {
                                RunState::PlayerTurn
                            }
                        },
                        crate::gui::ItemMenuResult::RangeSelected(_) => RunState::PlayerTurn,
                    },
                    _ => RunState::ShowInventory,
                }
            },
            RunState::ShowDropItem => {
                match event {
                    TickEvent::Menu(res) => match res {
                        crate::gui::ItemMenuResult::Cancel => RunState::AwaitingInput,
                        crate::gui::ItemMenuResult::NoResponse => RunState::ShowDropItem,
                        crate::gui::ItemMenuResult::Selected(sel) => {
                            let item = sel.0;
                            if item < self.ecs.alive.len() {
                                let player = self.player_entity;
                                self.ecs.wants_to_drop_items[player] = Some(
                                    crate::components::WantsToDropItem { item },
                                );
                            }
                            RunState::PlayerTurn
                        },
                        crate::gui::ItemMenuResult::RangeSelected(_) => RunState::PlayerTurn,
                    },
                    _ => RunState::ShowDropItem,
                }
            },
            RunState::ShowTargeting { range, item } => {
                match event {
                    TickEvent::Target(res) => match res {
                        crate::gui::ItemMenuResult::Cancel => RunState::AwaitingInput,
                        crate::gui::ItemMenuResult::NoResponse => RunState::ShowTargeting {
                            range,
                            item,
                        },
                        crate::gui::ItemMenuResult::Selected(_) => RunState::AwaitingInput,
                        crate::gui::ItemMenuResult::RangeSelected(pt) => {
                            if item < self.ecs.alive.len() {
                                let player = self.player_entity;
                                self.ecs.wants_to_use_items[player] = Some(
                                    crate::components::WantsToUseItem { item, target: Some(pt) },
                                );
                            }
                            RunState::PlayerTurn
                        },
                    },
                    _ => RunState::ShowTargeting { range, item },
                }
            },
        };
        self.run_state = new_state;
        let ghost mid2 = *self;
        crate::damage_system::delete_the_dead(self);
        proof {
            reveal(crate::damage_system::sweep_ran);
            assert forall|e: int|
                0 <= e < self.ecs.num_entities() implies !crate::damage_system::dead_now(
                self.ecs,
                self.player_entity as int,
                e,
            ) by {
                if crate::damage_system::dead_now(self.ecs, self.player_entity as int, e) {
                    assert(mid2.ecs.alive[e] && !crate::damage_system::dead_now(
                        mid2.ecs,
                        mid2.player_entity as int,
                        e,
                    ));
                    assert(self.ecs.combat_stats[e] == mid2.ecs.combat_stats[e]);
                    assert(false);
                }
            }
            if old(self).run_state == RunState::PreRun {
                assert(mid2 == with_run_state(mid, RunState::AwaitingInput));
                assert(pipeline_ran(*old(self), mid));
            }
            if old(self).run_state == RunState::PlayerTurn {
                assert(mid2 == with_run_state(mid, RunState::MonsterTurn));
                assert(pipeline_ran(*old(self), mid));
            }
            if old(self).run_state == RunState::MonsterTurn {
                assert(mid2 == with_run_state(mid, RunState::AwaitingInput));
                assert(pipeline_ran(*old(self), mid));
            }
            if old(self).run_state == RunState::AwaitingInput {
                assert(mid2 == with_run_state(mid, new_state));
                assert(crate::player::input_ran(*old(self), event_cmd(event), mid, new_state));
            }
        }
    }
}

/// Build a fresh game: generate the dungeon, spawn the player in the first
/// room's center (the generator always yields at least one room; mid-grid is
/// a dead fallback kept for robustness), populate every further room in
/// order, and start the scheduler at its pre-run state with a welcome
/// message logged.
pub fn new_game(rng: &mut rltk::RandomNumberGenerator) -> (s: State)
    ensures
        s.wf(),
        s.run_state == RunState::PreRun,
        s.log.entries@.len() == 1 && s.log.entries@[0] == LogEntry::Welcome,
        generated(s.map),
        s.player_entity == 0,
        s.ecs.num_entities() >= 1,
        s.player_pos == (Point {
            x: center_x(s.map.rooms@[0]) as i32,
            y: center_y(s.map.rooms@[0]) as i32,
        }),
        s.ecs.positions[0] == Some(
            (Position { x: center_x(s.map.rooms@[0]) as i32, y: center_y(s.map.rooms@[0]) as i32 }),
        ),
        s.ecs.players[0] is Some,
        s.ecs.combat_stats[0] == Some((CombatStats { max_hp: 30, hp: 30, defense: 2, power: 5 })),
        s.ecs.viewsheds[0] matches Some(v) && v.range == 8 && v.dirty,
        exists|w1: World|
            {
                &&& w1.wf()
                &&& w1.num_entities() == 1
                &&& w1.is_alive(0)
                &&& w1.players[0] is Some
                &&& #[trigger] crate::spawner::rooms_spawned(
                    w1,
                    s.ecs,
                    s.map.rooms@,
                    s.map.rooms@.len() as int,
                )
            },
{
    let map = crate::map::new_map(rng);
    let mut world = World::new();
    let (px, py) = if map.rooms.len() > 0 {
        map.rooms[0].center()
    } else {
        (40, 25)
    };
    let player_e = crate::spawner::player(&mut world, px, py);
    let ghost w1 = world;

    let nrooms = map.rooms.len();
    let mut k: usize = 1;
    while k < nrooms
        invariant
            world.wf(),
            map.wf(),
            nrooms == map.rooms@.len(),
            nrooms <= crate::map::MAX_ROOMS,
            forall|i: int|
                0 <= i < map.rooms@.len() ==> ((#[trigger] map.rooms@[i]).x1
                    + crate::map::MIN_ROOM_SIZE <= map.rooms@[i].x2 && map.rooms@[i].y1
                    + crate::map::MIN_ROOM_SIZE <= map.rooms@[i].y2),
            1 <= k <= nrooms,
            world.num_entities() <= 1 + 7 * k,
            player_e == 0,
            world.is_alive(0),
            px < WIDTH,
            py < HEIGHT,
            w1.wf(),
            w1.num_entities() == 1,
            w1.is_alive(0),
            w1.players[0] is Some,
            crate::spawner::rooms_spawned(w1, world, map.rooms@, k as int),
            world.combat_stats[0] == Some(
                (CombatStats { max_hp: 30, hp: 30, defense: 2, power: 5 }),
            ),
            world.viewsheds[0] matches Some(v) && v.range == 8 && v.dirty,
            forall|e2: int|
                0 <= e2 < world.num_entities() ==> ((#[trigger] world.players[e2]) is Some <==> e2
                    == 0),
            world.positions[0] == Some(
                (crate::components::Position { x: px as i32, y: py as i32 }),
            ),
            forall|e2: int|
                0 <= e2 < world.num_entities() && world.alive[e2] && (
                #[trigger] world.positions[e2]) is Some ==> {
                    &&& 0 <= world.positions[e2]->Some_0.x < WIDTH
                    &&& 0 <= world.positions[e2]->Some_0.y < HEIGHT
                },
        decreases nrooms - k,
    {
        let ghost mid = world;
        let room = map.rooms[k];
        crate::spawner::spawn_room(&mut world, rng, &room);
        proof {
            assert(crate::spawner::spawn_room_rel(mid, world, map.rooms@[k as int]));
            assert(crate::spawner::rooms_spawned(w1, mid, map.rooms@, k as int));
            assert(map.rooms@[(k as int + 1) - 1] == map.rooms@[k as int]);
            assert(crate::spawner::rooms_spawned(w1, world, map.rooms@, k as int + 1));
            assert(world.combat_stats@[0] == mid.combat_stats@[0]);
            assert(world.viewsheds@[0] == mid.viewsheds@[0]);
            assert forall|e2: int|
                0 <= e2 < world.num_entities() implies ((#[trigger] world.players[e2]) is Some
                <==> e2 == 0) by {
                if e2 < mid.num_entities() {
                    assert(world.players@[e2] == mid.players@[e2]);
                } else {
                    assert(crate::spawner::monster_at(
                        world,
                        e2,
                        world.positions[e2]->Some_0.x as int,
                        world.positions[e2]->Some_0.y as int,
                    ) || crate::spawner::item_at(
                        world,
                        e2,
                        world.positions[e2]->Some_0.x as int,
                        world.positions[e2]->Some_0.y as int,
                    ));
                }
            }
            assert forall|e2: int|
                0 <= e2 < world.num_entities() && world.alive[e2] && (
            #[trigger] world.positions[e2]) is Some implies {
                &&& 0 <= world.positions[e2]->Some_0.x < WIDTH
                &&& 0 <= world.positions[e2]->Some_0.y < HEIGHT
            } by {
                if e2 < mid.num_entities() {
                    assert(world.positions@[e2] == mid.positions@[e2]);
                    assert(world.alive@[e2] == mid.alive@[e2]);
                } else {
                    assert(room_in_bounds(map.rooms@[k as int]));
                }
            }
        }
        k = k + 1;
    }

    let mut entries: Vec<LogEntry> = Vec::new();
    entries.push(LogEntry::Welcome);

    let ghost gw = world;
    let ghost grooms = map.rooms@;
    let s = State {
        ecs: world,
        map,
        run_state: RunState::PreRun,
        player_entity: player_e,
        player_pos: Point { x: px as i32, y: py as i32 },
        log: GameLog { entries },
    };
    proof {
        assert(s.ecs == gw && s.map.rooms@ == grooms);
        assert(crate::spawner::rooms_spawned(w1, s.ecs, s.map.rooms@, s.map.rooms@.len() as int));
    }
    s
}

} // verus!
