use vstd::prelude::*;

use crate::State;
use crate::components::Entity;
use crate::components::Point;
use crate::fov::dist2;
use crate::world::World;

verus! {

/// What a menu interaction produced this frame.
pub enum ItemMenuResult {
    Cancel,
    NoResponse,
    Selected((Entity, String)),
    RangeSelected(Point),
}

/// One frame's abstract input to a menu: nothing, a cancel, or the index of
/// the chosen line.
#[derive(PartialEq, Eq, Structural, Clone, Copy, Debug)]
pub enum MenuInput {
    NoInput,
    Cancel,
    Select(usize),
}

/// One frame's abstract input to the targeting overlay.
#[derive(PartialEq, Eq, Structural, Clone, Copy, Debug)]
pub enum TargetInput {
    NoInput,
    Cancel,
    Tile(Point),
}

#[derive(PartialEq, Eq, Structural, Clone, Copy, Debug)]
pub enum MainMenuSelection {
    NewGame,
    Load,
    Quit,
}

#[derive(PartialEq, Eq, Structural, Clone, Copy, Debug)]
pub enum MainMenuResult {
    NoSelection(MainMenuSelection),
    Selected(MainMenuSelection),
}

/// One frame's abstract input to the main menu.
#[derive(PartialEq, Eq, Structural, Clone, Copy, Debug)]
pub enum MainMenuInput {
    NoInput,
    Up,
    Down,
    Confirm,
}

/// The named entities `owner` carries, in identifier order, among the first
/// `k` entities.
pub open spec fn inventory_upto(w: World, owner: int, k: int) -> Seq<usize>
    decreases k,
{
    if k <= 0 {
        Seq::empty()
    } else {
        let prefix = inventory_upto(w, owner, k - 1);
        let e = k - 1;
        if w.in_backpacks[e] is Some && w.in_backpacks[e]->Some_0.owner as int == owner
            && w.names[e] is Some {
            prefix.push(e as usize)
        } else {
            prefix
        }
    }
}

/// The player's inventory: every named entity in the player's backpack, in
/// identifier order.
pub fn inventory_of(state: &State) -> (items: Vec<Entity>)
    requires
        state.wf(),
    ensures
        items@ == inventory_upto(
            state.ecs,
            state.player_entity as int,
            state.ecs.num_entities(),
        ),
        forall|j: int| 0 <= j < items@.len() ==> (#[trigger] items@[j]) < state.ecs.num_entities(),
{
    let n = state.ecs.alive.len();
    let mut items: Vec<Entity> = Vec::new();
    let mut e: usize = 0;
    while e < n
        invariant
            state.wf(),
            n == state.ecs.num_entities(),
            e <= n,
            items@ == inventory_upto(state.ecs, state.player_entity as int, e as int),
            forall|j: int| 0 <= j < items@.len() ==> (#[trigger] items@[j]) < n,
        decreases n - e,
    {
        let keep = (match &state.ecs.in_backpacks[e] {
            Some(b) => b.owner == state.player_entity,
            None => false,
        }) && state.ecs.names[e].is_some();
        if keep {
            items.push(e);
        }
        e = e + 1;
    }
    items
}

/// The inventory menu's answer to one frame of input: cancel closes it, a
/// valid line number picks that carried item, anything else waits.
pub fn show_inventory(state: &State, input: MenuInput) -> (r: ItemMenuResult)
    requires
        state.wf(),
    ensures
        ({
            let inv = inventory_upto(
                state.ecs,
                state.player_entity as int,
                state.ecs.num_entities(),
            );
            match input {
                MenuInput::NoInput => r is NoResponse,
                MenuInput::Cancel => r is Cancel,
                MenuInput::Select(i) => {
                    if i < inv.len() {
                        r matches ItemMenuResult::Selected(sel) && sel.0 == inv[i as int]
                    } else {
                        r is NoResponse
                    }
                },
            }
        }),
{
    match input {
        MenuInput::NoInput => ItemMenuResult::NoResponse,
        MenuInput::Cancel => ItemMenuResult::Cancel,
        MenuInput::Select(i) => {
            let inv = inventory_of(state);
            if i < inv.len() {
                let item = inv[i];
                let name = match &state.ecs.names[item] {
                    Some(nm) => nm.name.clone(),
                    None => String::new(),
                };
                ItemMenuResult::Selected((item, name))
            } else {
                ItemMenuResult::NoResponse
            }
        },
    }
}

/// The drop menu lists the same carried items and answers input the same
/// way.
pub fn drop_item_menu(state: &State, input: MenuInput) -> (r: ItemMenuResult)
    requires
        state.wf(),
    ensures
        ({
            let inv = inventory_upto(
                state.ecs,
                state.player_entity as int,
                state.ecs.num_entities(),
            );
            match input {
                MenuInput::NoInput => r is NoResponse,
                MenuInput::Cancel => r is Cancel,
                MenuInput::Select(i) => {
                    if i < inv.len() {
                        r matches ItemMenuResult::Selected(sel) && sel.0 == inv[i as int]
                    } else {
                        r is NoResponse
                    }
                },
            }
        }),
{
    show_inventory(state, input)
}

/// The tile can be aimed at: the player sees it and it lies within the
/// item's range (by Euclidean distance).
pub open spec fn cell_in_range(s: State, range: u32, p: Point) -> bool {
    &&& s.ecs.viewsheds[s.player_entity as int] is Some
    &&& s.ecs.viewsheds[s.player_entity as int]->Some_0.visible_tiles@.contains(p)
    &&& dist2(s.player_pos.x as int, s.player_pos.y as int, p.x as int, p.y as int) <= range
        * range
}

/// The tiles the targeting overlay highlights as valid.
pub fn valid_target_cells(state: &State, range: u32) -> (cells: Vec<Point>)
    requires
        state.wf(),
        range <= 1000,
    ensures
        forall|p: Point| cells@.contains(p) == cell_in_range(*state, range, p),
{
    let mut cells: Vec<Point> = Vec::new();
    let vs = match &state.ecs.viewsheds[state.player_entity] {
        Some(vs) => vs,
        None => {
            proof {
                assert(forall|p: Point| !cell_in_range(*state, range, p));
            }
            return cells;
        },
    };
    let count = vs.visible_tiles.len();
    let ghost tiles = vs.visible_tiles@;
    let mut k: usize = 0;
    while k < count
        invariant
            state.wf(),
            range <= 1000,
            state.ecs.viewsheds[state.player_entity as int] is Some,
            tiles == state.ecs.viewsheds[state.player_entity as int]->Some_0.visible_tiles@,
            count == tiles.len(),
            k <= count,
            forall|j: int|
                0 <= j < cells@.len() ==> cell_in_range(*state, range, #[trigger] cells@[j]),
            forall|j: int|
                0 <= j < k && cell_in_range(*state, range, #[trigger] tiles[j]) ==> cells@.contains(
                    tiles[j],
                ),
        decreases count - k,
    {
        let p = match &state.ecs.viewsheds[state.player_entity] {
            Some(vs2) => vs2.visible_tiles[k],
            None => Point { x: 0, y: 0 },
        };
        let dx: i128 = state.player_pos.x as i128 - p.x as i128;
        let dy: i128 = state.player_pos.y as i128 - p.y as i128;
        proof {
            assert(0 <= dx * dx <= 0x100000000000000000 && 0 <= dy * dy
                <= 0x100000000000000000) by (nonlinear_arith)
                requires
                    -0x100000000i128 <= dx <= 0x100000000i128,
                    -0x100000000i128 <= dy <= 0x100000000i128,
            {
            }
            assert(0 <= (range as i128) * (range as i128) <= 1000000) by (nonlinear_arith)
                requires
                    0 <= range <= 1000,
            {
            }
        }
        let d2: i128 = dx * dx + dy * dy;
        if d2 <= (range as i128) * (range as i128) {
            let ghost prev = cells@;
            cells.push(p);
            proof {
                assert(cells@[prev.len() as int] == p);
                assert forall|pp: Point| prev.contains(pp) implies cells@.contains(pp) by {
                    let j = choose|j: int| 0 <= j < prev.len() && prev[j] == pp;
                    assert(cells@[j] == pp);
                }
                assert(tiles.contains(p)) by {
                    assert(tiles[k as int] == p);
                }
            }
        }
        k = k + 1;
    }
    proof {
        assert forall|p: Point| cells@.contains(p) == cell_in_range(*state, range, p) by {
            if cells@.contains(p) {
                let j = choose|j: int| 0 <= j < cells@.len() && cells@[j] == p;
            }
            if cell_in_range(*state, range, p) {
                let j = choose|j: int| 0 <= j < tiles.len() && tiles[j] == p;
            }
        }
    }
    cells
}

/// The targeting overlay's answer to one frame of input: a click on a valid
/// cell selects it, a click elsewhere or a cancel gives up, anything else
/// waits. Without a player viewshed the overlay gives up at once.
pub fn ranged_target(state: &State, range: u32, input: TargetInput) -> (r: ItemMenuResult)
    requires
        state.wf(),
        range <= 1000,
    ensures
        state.ecs.viewsheds[state.player_entity as int] is None ==> r is Cancel,
        state.ecs.viewsheds[state.player_entity as int] is Some ==> match input {
            TargetInput::NoInput => r is NoResponse,
            TargetInput::Cancel => r is Cancel,
            TargetInput::Tile(p) => {
                if cell_in_range(*state, range, p) {
                    r matches ItemMenuResult::RangeSelected(q) && q == p
                } else {
                    r is Cancel
                }
            },
        },
{
    if state.ecs.viewsheds[state.player_entity].is_none() {
        return ItemMenuResult::Cancel;
    }
    match input {
        TargetInput::NoInput => ItemMenuResult::NoResponse,
        TargetInput::Cancel => ItemMenuResult::Cancel,
        TargetInput::Tile(p) => {
            let cells = valid_target_cells(state, range);
            let mut k: usize = 0;
            let mut valid = false;
            while k < cells.len()
                invariant
                    k <= cells@.len(),
                    valid ==> cells@.contains(p),
                    !valid ==> forall|j: int| 0 <= j < k ==> cells@[j] != p,
                decreases cells@.len() - k,
            {
                if cells[k].x == p.x && cells[k].y == p.y {
                    proof {
                        assert(cells@[k as int] == p);
                    }
                    valid = true;
                }
                k = k + 1;
            }
            if valid {
                ItemMenuResult::RangeSelected(p)
            } else {
                ItemMenuResult::Cancel
            }
        },
    }
}

pub fn previous_option(selected: MainMenuSelection) -> (r: MainMenuSelection)
    ensures
        r == (match selected {
            MainMenuSelection::NewGame => MainMenuSelection::Quit,
            MainMenuSelection::Load => MainMenuSelection::NewGame,
            MainMenuSelection::Quit => MainMenuSelection::Load,
        }),
{
    match selected {
        MainMenuSelection::NewGame => MainMenuSelection::Quit,
        MainMenuSelection::Load => MainMenuSelection::NewGame,
        MainMenuSelection::Quit => MainMenuSelection::Load,
    }
}

pub fn next_option(selected: MainMenuSelection) -> (r: MainMenuSelection)
    ensures
        r == (match selected {
            MainMenuSelection::NewGame => MainMenuSelection::Load,
            MainMenuSelection::Load => MainMenuSelection::Quit,
            MainMenuSelection::Quit => MainMenuSelection::NewGame,
        }),
{
    match selected {
        MainMenuSelection::NewGame => MainMenuSelection::Load,
        MainMenuSelection::Load => MainMenuSelection::Quit,
        MainMenuSelection::Quit => MainMenuSelection::NewGame,
    }
}

/// The main menu's answer to one frame of input: up and down cycle through
/// the options, confirm picks the highlighted one, anything else leaves the
/// highlight where it is.
pub fn main_menu(selected: MainMenuSelection, input: MainMenuInput) -> (r: MainMenuResult)
    ensures
        r == (match input {
            MainMenuInput::NoInput => MainMenuResult::NoSelection(selected),
            MainMenuInput::Up => MainMenuResult::NoSelection(
                match selected {
                    MainMenuSelection::NewGame => MainMenuSelection::Quit,
                    MainMenuSelection::Load => MainMenuSelection::NewGame,
                    MainMenuSelection::Quit => MainMenuSelection::Load,
                },
            ),
            MainMenuInput::Down => MainMenuResult::NoSelection(
                match selected {
                    MainMenuSelection::NewGame => MainMenuSelection::Load,
                    MainMenuSelection::Load => MainMenuSelection::Quit,
                    MainMenuSelection::Quit => MainMenuSelection::NewGame,
                },
            ),
            MainMenuInput::Confirm => MainMenuResult::Selected(selected),
        }),
{
    match input {
        MainMenuInput::NoInput => MainMenuResult::NoSelection(selected),
        MainMenuInput::Up => MainMenuResult::NoSelection(previous_option(selected)),
        MainMenuInput::Down => MainMenuResult::NoSelection(next_option(selected)),
        MainMenuInput::Confirm => MainMenuResult::Selected(selected),
    }
}


/// How a map tile is drawn: its console glyph and foreground color. A tile
/// that is remembered but not currently seen is rendered greyed out by the
/// display layer.
pub fn tile_appearance(tile: crate::TileType) -> (r: (u16, crate::components::Color))
    ensures
        tile == crate::TileType::Floor ==> r == (46u16, crate::components::Color::Grey),
        tile == crate::TileType::Wall ==> r == (35u16, crate::components::Color::Green),
{
    match tile {
        crate::TileType::Floor => (46, crate::components::Color::Grey),
        crate::TileType::Wall => (35, crate::components::Color::Green),
    }
}


/// Entity `e` would be named by a tooltip at (x, y): it is alive, named,
/// stands there, and the tile is currently seen.
pub open spec fn tooltip_at(s: State, x: int, y: int, e: int) -> bool {
    &&& s.ecs.is_alive(e)
    &&& s.ecs.names[e] is Some
    &&& s.ecs.positions[e] matches Some(p) && p.x == x && p.y == y
    &&& 0 <= x < crate::map::WIDTH
    &&& 0 <= y < crate::map::HEIGHT
    &&& s.map.visible_tiles[crate::map::idx_of(x, y)]
}

/// The named entities a tooltip at (x, y) lists, in identifier order.
pub fn names_at(state: &State, x: i32, y: i32) -> (found: Vec<Entity>)
    requires
        state.wf(),
    ensures
        forall|k: int|
            0 <= k < found@.len() ==> tooltip_at(
                *state,
                x as int,
                y as int,
                (#[trigger] found@[k]) as int,
            ),
        forall|e: int|
            0 <= e < state.ecs.num_entities() && tooltip_at(*state, x as int, y as int, e)
                ==> found@.contains(e as usize),
{
    let mut found: Vec<Entity> = Vec::new();
    if x < 0 || x >= crate::map::WIDTH as i32 || y < 0 || y >= crate::map::HEIGHT as i32 {
        return found;
    }
    let idx = state.map.xy_idx(x as usize, y as usize);
    if !state.map.visible_tiles[idx] {
        return found;
    }
    let n = state.ecs.alive.len();
    let mut e: usize = 0;
    while e < n
        invariant
            state.wf(),
            n == state.ecs.num_entities(),
            e <= n,
            0 <= x < crate::map::WIDTH,
            0 <= y < crate::map::HEIGHT,
            state.map.visible_tiles[crate::map::idx_of(x as int, y as int)],
            forall|k: int|
                0 <= k < found@.len() ==> tooltip_at(
                    *state,
                    x as int,
                    y as int,
                    (#[trigger] found@[k]) as int,
                ),
            forall|e2: int|
                0 <= e2 < e && tooltip_at(*state, x as int, y as int, e2) ==> found@.contains(
                    e2 as usize,
                ),
        decreases n - e,
    {
        let here = state.ecs.alive[e] && state.ecs.names[e].is_some() && (match state
            .ecs
            .positions[e] {
            Some(p) => p.x == x && p.y == y,
            None => false,
        });
        if here {
            let ghost prev = found@;
            found.push(e);
            proof {
                assert(found@[prev.len() as int] == e);
                assert forall|e2: int|
                    0 <= e2 < e + 1 && tooltip_at(*state, x as int, y as int, e2) implies
                    found@.contains(e2 as usize) by {
                    if e2 < e {
                        let k = choose|k: int| 0 <= k < prev.len() && prev[k] == e2 as usize;
                        assert(found@[k] == e2 as usize);
                    }
                }
            }
        }
        e = e + 1;
    }
    found
}

} // verus!
