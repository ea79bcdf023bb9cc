use vstd::prelude::*;

use crate::components::AreaOfEffect;
use crate::components::BlocksTile;
use crate::components::CombatStats;
use crate::components::Confusion;
use crate::components::Consumable;
use crate::components::Entity;
use crate::components::InBackpack;
use crate::components::InflictsDamage;
use crate::components::Item;
use crate::components::Monster;
use crate::components::Name;
use crate::components::Player;
use crate::components::Position;
use crate::components::ProvidesHealing;
use crate::components::Ranged;
use crate::components::Renderable;
use crate::components::SufferDamage;
use crate::components::Viewshed;
use crate::components::WantsToDropItem;
use crate::components::WantsToMelee;
use crate::components::WantsToPickupItem;
use crate::components::WantsToUseItem;

verus! {

/// The entity-component store: one typed sparse storage per component kind,
/// all indexed by entity identifier. A component is attached to an entity
/// when its slot holds `Some`.
pub struct World {
    pub alive: Vec<bool>,
    pub positions: Vec<Option<Position>>,
    pub renderables: Vec<Option<Renderable>>,
    pub players: Vec<Option<Player>>,
    pub viewsheds: Vec<Option<Viewshed>>,
    pub monsters: Vec<Option<Monster>>,
    pub names: Vec<Option<Name>>,
    pub blocks_tiles: Vec<Option<BlocksTile>>,
    pub combat_stats: Vec<Option<CombatStats>>,
    pub wants_to_melees: Vec<Option<WantsToMelee>>,
    pub suffer_damages: Vec<Option<SufferDamage>>,
    pub items: Vec<Option<Item>>,
    pub provides_healings: Vec<Option<ProvidesHealing>>,
    pub in_backpacks: Vec<Option<InBackpack>>,
    pub wants_to_pickup_items: Vec<Option<WantsToPickupItem>>,
    pub wants_to_use_items: Vec<Option<WantsToUseItem>>,
    pub wants_to_drop_items: Vec<Option<WantsToDropItem>>,
    pub consumables: Vec<Option<Consumable>>,
    pub inflicts_damages: Vec<Option<InflictsDamage>>,
    pub rangeds: Vec<Option<Ranged>>,
    pub areas_of_effect: Vec<Option<AreaOfEffect>>,
    pub confusions: Vec<Option<Confusion>>,
}

impl World {
    /// Number of entity slots ever created (dead ones included).
    pub open spec fn num_entities(self) -> int {
        self.alive.len() as int
    }

    /// Every storage covers exactly the entities that exist.
    pub open spec fn wf(self) -> bool {
        &&& self.positions.len() == self.alive.len()
        &&& self.renderables.len() == self.alive.len()
        &&& self.players.len() == self.alive.len()
        &&& self.viewsheds.len() == self.alive.len()
        &&& self.monsters.len() == self.alive.len()
        &&& self.names.len() == self.alive.len()
        &&& self.blocks_tiles.len() == self.alive.len()
        &&& self.combat_stats.len() == self.alive.len()
        &&& self.wants_to_melees.len() == self.alive.len()
        &&& self.suffer_damages.len() == self.alive.len()
        &&& self.items.len() == self.alive.len()
        &&& self.provides_healings.len() == self.alive.len()
        &&& self.in_backpacks.len() == self.alive.len()
        &&& self.wants_to_pickup_items.len() == self.alive.len()
        &&& self.wants_to_use_items.len() == self.alive.len()
        &&& self.wants_to_drop_items.len() == self.alive.len()
        &&& self.consumables.len() == self.alive.len()
        &&& self.inflicts_damages.len() == self.alive.len()
        &&& self.rangeds.len() == self.alive.len()
        &&& self.areas_of_effect.len() == self.alive.len()
        &&& self.confusions.len() == self.alive.len()
    }

    pub open spec fn is_alive(self, e: int) -> bool {
        0 <= e < self.num_entities() && self.alive[e]
    }

    /// An item entity that is located is on the ground or carried, never both
    /// and never neither.
    pub open spec fn items_placed(self) -> bool {
        forall|e: int|
            0 <= e < self.num_entities() && self.alive[e] && self.items[e] is Some ==> ((
            self.positions[e] is Some) != (self.in_backpacks[e] is Some))
    }

    pub fn new() -> (w: World)
        ensures
            w.wf(),
            w.num_entities() == 0,
    {
        World {
            alive: Vec::new(),
            positions: Vec::new(),
            renderables: Vec::new(),
            players: Vec::new(),
            viewsheds: Vec::new(),
            monsters: Vec::new(),
            names: Vec::new(),
            blocks_tiles: Vec::new(),
            combat_stats: Vec::new(),
            wants_to_melees: Vec::new(),
            suffer_damages: Vec::new(),
            items: Vec::new(),
            provides_healings: Vec::new(),
            in_backpacks: Vec::new(),
            wants_to_pickup_items: Vec::new(),
            wants_to_use_items: Vec::new(),
            wants_to_drop_items: Vec::new(),
            consumables: Vec::new(),
            inflicts_damages: Vec::new(),
            rangeds: Vec::new(),
            areas_of_effect: Vec::new(),
            confusions: Vec::new(),
        }
    }

    /// Create a fresh entity with no components attached.
    pub fn create_entity(&mut self) -> (e: Entity)
        requires
            old(self).wf(),
            old(self).num_entities() < usize::MAX,
        ensures
            final(self).wf(),
            e == old(self).num_entities(),
            final(self).num_entities() == old(self).num_entities() + 1,
            final(self).alive@ == old(self).alive@.push(true),
            final(self).positions@ == old(self).positions@.push(None),
            final(self).renderables@ == old(self).renderables@.push(None),
            final(self).players@ == old(self).players@.push(None),
            final(self).viewsheds@ == old(self).viewsheds@.push(None),
            final(self).monsters@ == old(self).monsters@.push(None),
            final(self).names@ == old(self).names@.push(None),
            final(self).blocks_tiles@ == old(self).blocks_tiles@.push(None),
            final(self).combat_stats@ == old(self).combat_stats@.push(None),
            final(self).wants_to_melees@ == old(self).wants_to_melees@.push(None),
            final(self).suffer_damages@ == old(self).suffer_damages@.push(None),
            final(self).items@ == old(self).items@.push(None),
            final(self).provides_healings@ == old(self).provides_healings@.push(None),
            final(self).in_backpacks@ == old(self).in_backpacks@.push(None),
            final(self).wants_to_pickup_items@ == old(self).wants_to_pickup_items@.push(None),
            final(self).wants_to_use_items@ == old(self).wants_to_use_items@.push(None),
            final(self).wants_to_drop_items@ == old(self).wants_to_drop_items@.push(None),
            final(self).consumables@ == old(self).consumables@.push(None),
            final(self).inflicts_damages@ == old(self).inflicts_damages@.push(None),
            final(self).rangeds@ == old(self).rangeds@.push(None),
            final(self).areas_of_effect@ == old(self).areas_of_effect@.push(None),
            final(self).confusions@ == old(self).confusions@.push(None),
    {
        let e = self.alive.len();
        self.alive.push(true);
        self.positions.push(None);
        self.renderables.push(None);
        self.players.push(None);
        self.viewsheds.push(None);
        self.monsters.push(None);
        self.names.push(None);
        self.blocks_tiles.push(None);
        self.combat_stats.push(None);
        self.wants_to_melees.push(None);
        self.suffer_damages.push(None);
        self.items.push(None);
        self.provides_healings.push(None);
        self.in_backpacks.push(None);
        self.wants_to_pickup_items.push(None);
        self.wants_to_use_items.push(None);
        self.wants_to_drop_items.push(None);
        self.consumables.push(None);
        self.inflicts_damages.push(None);
        self.rangeds.push(None);
        self.areas_of_effect.push(None);
        self.confusions.push(None);
        e
    }

    /// Remove an entity: it stops being alive and loses every component.
    pub fn delete_entity(&mut self, e: Entity)
        requires
            old(self).wf(),
            e < old(self).num_entities(),
        ensures
            final(self).wf(),
            final(self).num_entities() == old(self).num_entities(),
            final(self).alive@ == old(self).alive@.update(e as int, false),
            final(self).positions@ == old(self).positions@.update(e as int, None),
            final(self).renderables@ == old(self).renderables@.update(e as int, None),
            final(self).players@ == old(self).players@.update(e as int, None),
            final(self).viewsheds@ == old(self).viewsheds@.update(e as int, None),
            final(self).monsters@ == old(self).monsters@.update(e as int, None),
            final(self).names@ == old(self).names@.update(e as int, None),
            final(self).blocks_tiles@ == old(self).blocks_tiles@.update(e as int, None),
            final(self).combat_stats@ == old(self).combat_stats@.update(e as int, None),
            final(self).wants_to_melees@ == old(self).wants_to_melees@.update(e as int, None),
            final(self).suffer_damages@ == old(self).suffer_damages@.update(e as int, None),
            final(self).items@ == old(self).items@.update(e as int, None),
            final(self).provides_healings@ == old(self).provides_healings@.update(e as int, None),
            final(self).in_backpacks@ == old(self).in_backpacks@.update(e as int, None),
            final(self).wants_to_pickup_items@ == old(self).wants_to_pickup_items@.update(
                e as int,
                None,
            ),
            final(self).wants_to_use_items@ == old(self).wants_to_use_items@.update(e as int, None),
            final(self).wants_to_drop_items@ == old(self).wants_to_drop_items@.update(
                e as int,
                None,
            ),
            final(self).consumables@ == old(self).consumables@.update(e as int, None),
            final(self).inflicts_damages@ == old(self).inflicts_damages@.update(e as int, None),
            final(self).rangeds@ == old(self).rangeds@.update(e as int, None),
            final(self).areas_of_effect@ == old(self).areas_of_effect@.update(e as int, None),
            final(self).confusions@ == old(self).confusions@.update(e as int, None),
    {
        self.alive[e] = false;
        self.positions[e] = None;
        self.renderables[e] = None;
        self.players[e] = None;
        self.viewsheds[e] = None;
        self.monsters[e] = None;
        self.names[e] = None;
        self.blocks_tiles[e] = None;
        self.combat_stats[e] = None;
        self.wants_to_melees[e] = None;
        self.suffer_damages[e] = None;
        self.items[e] = None;
        self.provides_healings[e] = None;
        self.in_backpacks[e] = None;
        self.wants_to_pickup_items[e] = None;
        self.wants_to_use_items[e] = None;
        self.wants_to_drop_items[e] = None;
        self.consumables[e] = None;
        self.inflicts_damages[e] = None;
        self.rangeds[e] = None;
        self.areas_of_effect[e] = None;
        self.confusions[e] = None;
    }
}

} // verus!
