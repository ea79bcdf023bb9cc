use vstd::prelude::*;

verus! {

/// Entities are opaque identifiers: indices into the world's component storages.
pub type Entity = usize;

/// A grid coordinate pair, used for the player's last known position and for
/// visible-tile lists.
#[derive(PartialEq, Eq, Structural, Clone, Copy, Debug)]
pub struct Point {
    pub x: i32,
    pub y: i32,
}

/// A named color of the palette the renderer understands; the core never
/// works with color channels itself.
#[derive(PartialEq, Eq, Structural, Clone, Copy, Debug)]
pub enum Color {
    Yellow,
    Black,
    Red,
    Magenta,
    Cyan,
    Orange,
    Pink,
    White,
    Grey,
    Green,
}

#[derive(PartialEq, Eq, Structural, Clone, Copy, Debug)]
pub struct Position {
    pub x: i32,
    pub y: i32,
}

#[derive(PartialEq, Eq, Structural, Clone, Copy, Debug)]
pub struct Renderable {
    pub glyph: u16,
    pub fg: Color,
    pub bg: Color,
    pub render_order: usize,
}

#[derive(Clone, Copy, Debug)]
pub struct Player {}

#[derive(Clone, Debug)]
pub struct Viewshed {
    pub range: u8,
    pub visible_tiles: Vec<Point>,
    pub dirty: bool,
}

#[derive(Clone, Copy, Debug)]
pub struct Monster {}

#[derive(Clone, Debug)]
pub struct Name {
    pub name: String,
}

#[derive(Clone, Copy, Debug)]
pub struct BlocksTile {}

#[derive(PartialEq, Eq, Structural, Clone, Copy, Debug)]
pub struct CombatStats {
    pub max_hp: u32,
    pub hp: i32,
    pub defense: u32,
    pub power: u32,
}

#[derive(PartialEq, Eq, Structural, Clone, Copy, Debug)]
pub struct WantsToMelee {
    pub target: Entity,
}

#[derive(Clone, Debug)]
pub struct SufferDamage {
    pub amount: Vec<u32>,
}

impl SufferDamage {
    /// Accumulate one pending damage amount onto the victim, starting a new
    /// accumulator when none exists yet.
    pub fn new_damage(store: &mut Vec<Option<SufferDamage>>, victim: Entity, amount: u32)
        requires
            victim < old(store).len(),
        ensures
            final(store).len() == old(store).len(),
            final(store)[victim as int] matches Some(d) && d.amount@ == suffer_seq(
                old(store)[victim as int],
            ).push(amount),
            forall|e: int|
                0 <= e < old(store).len() && e != victim ==> final(store)[e] == old(store)[e],
    {
        let slot = store.remove(victim);
        if let Some(mut suffering) = slot {
            suffering.amount.push(amount);
            store.insert(victim, Some(suffering));
        } else {
            let mut amounts: Vec<u32> = Vec::new();
            amounts.push(amount);
            store.insert(victim, Some(SufferDamage { amount: amounts }));
        }
        assert(store@ =~= old(store)@.update(victim as int, store@[victim as int]));
    }
}

/// The pending damage amounts held in an optional accumulator slot.
pub open spec fn suffer_seq(slot: Option<SufferDamage>) -> Seq<u32> {
    match slot {
        Some(d) => d.amount@,
        None => Seq::empty(),
    }
}

#[derive(Clone, Copy, Debug)]
pub struct Item {}

#[derive(PartialEq, Eq, Structural, Clone, Copy, Debug)]
pub struct ProvidesHealing {
    pub heal_amount: usize,
}

#[derive(PartialEq, Eq, Structural, Clone, Copy, Debug)]
pub struct InBackpack {
    pub owner: Entity,
}

#[derive(PartialEq, Eq, Structural, Clone, Copy, Debug)]
pub struct WantsToPickupItem {
    pub collected_by: Entity,
    pub item: Entity,
}

#[derive(PartialEq, Eq, Structural, Clone, Copy, Debug)]
pub struct WantsToUseItem {
    pub item: Entity,
    pub target: Option<Point>,
}

#[derive(PartialEq, Eq, Structural, Clone, Copy, Debug)]
pub struct WantsToDropItem {
    pub item: Entity,
}

#[derive(Clone, Copy, Debug)]
pub struct Consumable {}

#[derive(PartialEq, Eq, Structural, Clone, Copy, Debug)]
pub struct InflictsDamage {
    pub damage: u32,
}

#[derive(PartialEq, Eq, Structural, Clone, Copy, Debug)]
pub struct Ranged {
    pub range: u32,
}

#[derive(PartialEq, Eq, Structural, Clone, Copy, Debug)]
pub struct AreaOfEffect {
    pub radius: u32,
}

#[derive(PartialEq, Eq, Structural, Clone, Copy, Debug)]
pub struct Confusion {
    pub turns: u32,
}

/// One gameplay message. The core records structured events; the rendering
/// layer turns them into display text.
#[derive(PartialEq, Eq, Structural, Clone, Copy, Debug)]
pub enum LogEntry {
    Welcome,
    NoScratch { attacker: Entity, target: Entity },
    Hit { attacker: Entity, target: Entity, damage: u32 },
    PlayerDeath,
    Death { victim: Entity },
    PickedUp { by: Entity, item: Entity },
    Healed { user: Entity, item: Entity, amount: usize },
    InflictedWithItem { user: Entity, item: Entity, target: Entity, damage: u32 },
    ConfusedWithItem { user: Entity, item: Entity, target: Entity },
    Dropped { who: Entity, item: Entity },
}

/// The ordered message log, most recent entry last.
#[derive(Clone, Debug)]
pub struct GameLog {
    pub entries: Vec<LogEntry>,
}

} // verus!
