use vstd::prelude::*;
use vstd::string::StrSliceExecFns;
use vstd::string::StringSliceAdditionalSpecFns;
use crate::colors::{
    DEATH_FG, DEFAULT_BG, DEFAULT_FG, DROP_BG, ERROR_BG, FED_FG, HP_FG, HUNGRY_FG, INV_BG, MOUSE_BG, NONSEL_FG,
    SEL_FG, STARVE_FG, TITLE_FG, TT_BG, UNEQUIP_BG, WF_FG,
};
use crate::map::{idx_of, GameMap, MapView};
use crate::console::{DrawCommand, Text};
use crate::outside::{cp437_glyph, to_cp437};
use crate::components::{EntityId, HungerState, Position};

verus! {

/// The outcome of an item menu on this frame.
#[derive(Clone, Copy, PartialEq, Eq, Structural, Debug)]
pub enum ItemMenuResult {
    Cancel,
    NoResponse,
    Selected,
}

/// The entries of the main menu.
#[derive(Clone, Copy, PartialEq, Eq, Structural, Debug)]
pub enum MainMenuSelection {
    NewGame,
    LoadGame,
    Quit,
}

/// The main menu on this frame: still choosing (with the highlighted entry), or chosen.
#[derive(Clone, Copy, PartialEq, Eq, Structural, Debug)]
pub enum MainMenuResult {
    NoSelection { selected: MainMenuSelection },
    Selected { selected: MainMenuSelection },
}

/// The game-over screen on this frame.
#[derive(Clone, Copy, PartialEq, Eq, Structural, Debug)]
pub enum GameOverResult {
    NoSelection,
    QuitToMenu,
}

/// A key pressed this frame, as the menus read it: a letter carries its place in the
/// alphabet (A is 0).
#[derive(Clone, Copy, PartialEq, Eq, Structural, Debug)]
pub enum Key {
    Escape,
    Up,
    Down,
    Return,
    Letter { index: i32 },
    Other,
}

/// The entry above `sel`, wrapping round, skipping "load game" when there is no save.
pub open spec fn menu_up(sel: MainMenuSelection, save_exists: bool) -> MainMenuSelection {
    let next = match sel {
        MainMenuSelection::NewGame => MainMenuSelection::Quit,
        MainMenuSelection::LoadGame => MainMenuSelection::NewGame,
        MainMenuSelection::Quit => MainMenuSelection::LoadGame,
    };
    if next == MainMenuSelection::LoadGame && !save_exists { MainMenuSelection::NewGame } else { next }
}

/// The entry below `sel`, wrapping round, skipping "load game" when there is no save.
pub open spec fn menu_down(sel: MainMenuSelection, save_exists: bool) -> MainMenuSelection {
    let next = match sel {
        MainMenuSelection::NewGame => MainMenuSelection::LoadGame,
        MainMenuSelection::LoadGame => MainMenuSelection::Quit,
        MainMenuSelection::Quit => MainMenuSelection::NewGame,
    };
    if next == MainMenuSelection::LoadGame && !save_exists { MainMenuSelection::Quit } else { next }
}

/// The main menu's answer to a key, with `current` the highlighted entry when the game
/// is in the menu state.
pub open spec fn main_menu_result(current: Option<MainMenuSelection>, save_exists: bool, key: Option<Key>) -> MainMenuResult {
    match current {
        None => MainMenuResult::NoSelection { selected: MainMenuSelection::NewGame },
        Some(sel) => match key {
            None => MainMenuResult::NoSelection { selected: sel },
            Some(Key::Escape) => MainMenuResult::NoSelection { selected: MainMenuSelection::Quit },
            Some(Key::Up) => MainMenuResult::NoSelection { selected: menu_up(sel, save_exists) },
            Some(Key::Down) => MainMenuResult::NoSelection { selected: menu_down(sel, save_exists) },
            Some(Key::Return) => MainMenuResult::Selected { selected: sel },
            Some(_) => MainMenuResult::NoSelection { selected: sel },
        },
    }
}

/// The main menu: up and down move the highlight (skipping "load game" when there is
/// no save), Enter chooses, Escape jumps to "quit".
pub fn main_menu(current: Option<MainMenuSelection>, save_exists: bool, key: Option<Key>) -> (r: MainMenuResult)
    ensures
        r == main_menu_result(current, save_exists, key),
{
    match current {
        Some(selection) => {
            match key {
                None => MainMenuResult::NoSelection { selected: selection },
                Some(k) => match k {
                    Key::Escape => MainMenuResult::NoSelection { selected: MainMenuSelection::Quit },
                    Key::Up => {
                        let mut newsel = match selection {
                            MainMenuSelection::NewGame => MainMenuSelection::Quit,
                            MainMenuSelection::LoadGame => MainMenuSelection::NewGame,
                            MainMenuSelection::Quit => MainMenuSelection::LoadGame,
                        };
                        if newsel == MainMenuSelection::LoadGame && !save_exists {
                            newsel = MainMenuSelection::NewGame;
                        }
                        MainMenuResult::NoSelection { selected: newsel }
                    }
                    Key::Down => {
                        let mut newsel = match selection {
                            MainMenuSelection::NewGame => MainMenuSelection::LoadGame,
                            MainMenuSelection::LoadGame => MainMenuSelection::Quit,
                            MainMenuSelection::Quit => MainMenuSelection::NewGame,
                        };
                        if newsel == MainMenuSelection::LoadGame && !save_exists {
                            newsel = MainMenuSelection::Quit;
                        }
                        MainMenuResult::NoSelection { selected: newsel }
                    }
                    Key::Return => MainMenuResult::Selected { selected: selection },
                    _ => MainMenuResult::NoSelection { selected: selection },
                },
            }
        }
        None => MainMenuResult::NoSelection { selected: MainMenuSelection::NewGame },
    }
}

/// The game-over screen: any key returns to the menu.
pub fn game_over(key: Option<Key>) -> (r: GameOverResult)
    ensures
        r == (if key is Some { GameOverResult::QuitToMenu } else { GameOverResult::NoSelection }),
{
    match key {
        None => GameOverResult::NoSelection,
        Some(_) => GameOverResult::QuitToMenu,
    }
}

/// Whether two strings hold the same characters.
pub fn same_text(a: &str, b: &str) -> (r: bool)
    ensures
        r == (a@ == b@),
{
    let n = a.unicode_len();
    if n != b.unicode_len() {
        return false;
    }
    let mut i: usize = 0;
    while i < n
        invariant
            n == a@.len(),
            n == b@.len(),
            i <= n,
            forall|k: int| 0 <= k < i ==> a@[k] == b@[k],
        decreases n - i,
    {
        if a.get_char(i) != b.get_char(i) {
            return false;
        }
        i += 1;
    }
    assert(a@ =~= b@);
    true
}

/// The title and background of an item menu for an action: "drop", "use" and
/// "unequip" have their own; anything else is shown as not implemented.
pub open spec fn title_for(action: Seq<char>) -> (&'static str, u8) {
    if action == "drop"@ {
        (" Inventory - Drop Item ", DROP_BG)
    } else if action == "use"@ {
        (" Inventory - Use Item ", INV_BG)
    } else if action == "unequip"@ {
        (" Inventory - Unequip Item ", UNEQUIP_BG)
    } else {
        (" Error - Not Implemented ", ERROR_BG)
    }
}

/// Picks the title and background of an item menu (see `title_for`).
pub fn inventory_title(action: &str) -> (r: (&'static str, u8))
    ensures
        r == title_for(action@),
        r.0.spec_bytes().len() <= 26,
{
    proof {
        reveal_strlit("drop");
        reveal_strlit("use");
        reveal_strlit("unequip");
        assert("use"@[0] != "drop"@[0]);
        assert("unequip"@[0] != "drop"@[0]);
        assert("unequip"@.len() != "use"@.len());
        reveal_strlit(" Inventory - Drop Item ");
        reveal_strlit(" Inventory - Use Item ");
        reveal_strlit(" Inventory - Unequip Item ");
        reveal_strlit(" Error - Not Implemented ");
        lemma_ascii_len(" Inventory - Drop Item ");
        lemma_ascii_len(" Inventory - Use Item ");
        lemma_ascii_len(" Inventory - Unequip Item ");
        lemma_ascii_len(" Error - Not Implemented ");
    }
    if same_text(action, "drop") {
        (" Inventory - Drop Item ", DROP_BG)
    } else if same_text(action, "use") {
        (" Inventory - Use Item ", INV_BG)
    } else if same_text(action, "unequip") {
        (" Inventory - Unequip Item ", UNEQUIP_BG)
    } else {
        (" Error - Not Implemented ", ERROR_BG)
    }
}

/// An ASCII string takes one byte per character.
proof fn lemma_ascii_len(s: &str)
    requires
        vstd::string::is_ascii(s),
    ensures
        s.spec_bytes().len() == s@.len(),
{
    vstd::string::is_ascii_spec_bytes(s);
}

/// An item menu's answer to a key: Escape cancels, the letter of one of the first
/// `count` entries selects that item of `items`, anything else waits.
pub open spec fn inventory_result(key: Option<Key>, count: int, items: Seq<EntityId>) -> (ItemMenuResult, Option<EntityId>) {
    match key {
        None => (ItemMenuResult::NoResponse, None),
        Some(Key::Escape) => (ItemMenuResult::Cancel, None),
        Some(Key::Letter { index }) => if 0 <= index < count {
            (ItemMenuResult::Selected, Some(items[index as int]))
        } else {
            (ItemMenuResult::NoResponse, None)
        },
        Some(_) => (ItemMenuResult::NoResponse, None),
    }
}

/// Reads the key for an item menu listing `items`, of which the first `count` can be
/// chosen (see `inventory_result`).
pub fn inventory_choice(key: Option<Key>, count: usize, items: &Vec<EntityId>) -> (r: (ItemMenuResult, Option<EntityId>))
    requires
        count <= i32::MAX,
        key matches Some(Key::Letter { index }) ==> (0 <= index < count ==> index < items@.len()),
    ensures
        r == inventory_result(key, count as int, items@),
{
    match key {
        None => (ItemMenuResult::NoResponse, None),
        Some(k) => match k {
            Key::Escape => (ItemMenuResult::Cancel, None),
            Key::Letter { index } => {
                if index > -1 && index < count as i32 {
                    (ItemMenuResult::Selected, Some(items[index as usize]))
                } else {
                    (ItemMenuResult::NoResponse, None)
                }
            }
            _ => (ItemMenuResult::NoResponse, None),
        },
    }
}

/// The target cells within `range` of `player`: Euclidean distance at most `range`.
pub open spec fn in_range(player: Position, cell: Position, range: int) -> bool {
    range >= 0 && (cell.x - player.x) * (cell.x - player.x) + (cell.y - player.y) * (cell.y - player.y) <= range * range
}

/// The visible cells within range, in the order they were seen.
pub open spec fn cells_in_range(player: Position, visible: Seq<Position>, range: int) -> Seq<Position> {
    visible.filter(|c: Position| in_range(player, c, range))
}

/// Coordinates close enough to the player for the distance to be exact in single
/// precision.
pub open spec fn near(player: Position, c: Position) -> bool {
    -2048 < c.x - player.x < 2048 && -2048 < c.y - player.y < 2048
}

/// What the targeting screen shows and answers on this frame.
#[derive(PartialEq, Eq, Debug)]
pub struct TargetingView {
    pub result: ItemMenuResult,
    pub target: Option<Position>,
    pub highlighted: Vec<Position>,
    pub mouse_valid: bool,
}

/// The targeting screen: without a field of view it cancels; otherwise the visible
/// cells within range are highlighted, the mouse cell is a valid target when it is one
/// of them, and a click selects a valid target or cancels on an invalid one.
pub fn ranged_target(visible: Option<&Vec<Position>>, player: Position, range: i32, mouse: Position, left_click: bool) -> (v: TargetingView)
    requires
        -2048 < range < 2048,
        visible matches Some(cells) ==> forall|i: int| 0 <= i < cells@.len() ==> near(player, #[trigger] cells@[i]),
    ensures
        visible is None ==> v.result == ItemMenuResult::Cancel && v.target is None && v.highlighted@.len() == 0 && !v.mouse_valid,
        visible matches Some(cells) ==> {
            let hl = cells_in_range(player, cells@, range as int);
            &&& v.highlighted@ == hl
            &&& v.mouse_valid == hl.contains(mouse)
            &&& (v.mouse_valid && left_click ==> v.result == ItemMenuResult::Selected && v.target == Some(mouse))
            &&& (!v.mouse_valid && left_click ==> v.result == ItemMenuResult::Cancel && v.target is None)
            &&& (!left_click ==> v.result == ItemMenuResult::NoResponse && v.target is None)
        },
{
    let mut available: Vec<Position> = Vec::new();
    match visible {
        None => {
            return TargetingView { result: ItemMenuResult::Cancel, target: None, highlighted: available, mouse_valid: false };
        }
        Some(cells) => {
            let mut i: usize = 0;
            while i < cells.len()
                invariant
                    i <= cells@.len(),
                    -2048 < range < 2048,
                    forall|k: int| 0 <= k < cells@.len() ==> near(player, #[trigger] cells@[k]),
                    available@ == cells_in_range(player, cells@.subrange(0, i as int), range as int),
                decreases cells@.len() - i,
            {
                let c = cells[i];
                assert(near(player, cells@[i as int]));
                let dx = (c.x - player.x) as i64;
                let dy = (c.y - player.y) as i64;
                let r = range as i64;
                assert(0 <= dx * dx <= 2048 * 2048 && 0 <= dy * dy <= 2048 * 2048 && 0 <= r * r <= 2048 * 2048) by (nonlinear_arith)
                    requires -2048 < dx < 2048, -2048 < dy < 2048, -2048 < r < 2048;
                assert(cells@.subrange(0, i + 1).drop_last() =~= cells@.subrange(0, i as int));
                if range >= 0 && dx * dx + dy * dy <= r * r {
                    available.push(c);
                }
                proof {
                    reveal(Seq::filter);
                    assert(cells@.subrange(0, i + 1).last() == c);
                }
                i += 1;
            }
            assert(cells@.subrange(0, cells@.len() as int) =~= cells@);
            let mut valid_target = false;
            let mut j: usize = 0;
            while j < available.len()
                invariant
                    j <= available@.len(),
                    valid_target == available@.subrange(0, j as int).contains(mouse),
                decreases available@.len() - j,
            {
                let hit = available[j].x == mouse.x && available[j].y == mouse.y;
                proof {
                    let s0 = available@.subrange(0, j as int);
                    let s1 = available@.subrange(0, j + 1);
                    assert(hit == (available@[j as int] == mouse));
                    if s1.contains(mouse) {
                        let k = choose|k: int| 0 <= k < s1.len() && s1[k] == mouse;
                        if k < j {
                            assert(s0[k] == mouse);
                        }
                    }
                    if s0.contains(mouse) {
                        let k = choose|k: int| 0 <= k < s0.len() && s0[k] == mouse;
                        assert(s1[k] == mouse);
                    }
                    if hit {
                        assert(s1[j as int] == mouse);
                    }
                }
                if hit {
                    valid_target = true;
                }
                j += 1;
            }
            assert(available@.subrange(0, available@.len() as int) =~= available@);
            if valid_target {
                if left_click {
                    return TargetingView { result: ItemMenuResult::Selected, target: Some(mouse), highlighted: available, mouse_valid: true };
                }
            } else {
                if left_click {
                    return TargetingView { result: ItemMenuResult::Cancel, target: None, highlighted: available, mouse_valid: false };
                }
            }
            TargetingView { result: ItemMenuResult::NoResponse, target: None, highlighted: available, mouse_valid: valid_target }
        }
    }
}


/// Moving through the main menu never lands on "load game" when there is no save.
pub proof fn law_menu_skips_missing_save(sel: MainMenuSelection)
    ensures
        menu_up(sel, false) != MainMenuSelection::LoadGame,
        menu_down(sel, false) != MainMenuSelection::LoadGame,
{
}

/// Up undoes down and down undoes up, for every entry the menu can highlight.
pub proof fn law_menu_up_down_inverse(sel: MainMenuSelection, save_exists: bool)
    requires
        save_exists || sel != MainMenuSelection::LoadGame,
    ensures
        menu_up(menu_down(sel, save_exists), save_exists) == sel,
        menu_down(menu_up(sel, save_exists), save_exists) == sel,
{
}

/// The frame of an item menu listing `count` entries, with its title in the top
/// edge and the cancel hint in the bottom edge.
pub open spec fn frame_commands(count: int, x: int, y: int, w: int, fg: u8, bg: u8, title: &'static str) -> Seq<DrawCommand> {
    let h = (count + 3) as i32;
    let start_char = cp437_glyph('┤');
    let end_char = cp437_glyph('├');
    seq![
        DrawCommand::FillRegion { x: x as i32, y: (y - 2) as i32, w: w as i32, h, glyph: cp437_glyph(' '), fg, bg },
        DrawCommand::HollowBox { x: x as i32, y: (y - 2) as i32, w: w as i32, h, fg, bg },
        DrawCommand::SetCell { x: (x + 1) as i32, y: (y - 2) as i32, fg, bg, glyph: start_char },
        DrawCommand::PrintColor { x: (x + 2) as i32, y: (y - 2) as i32, fg: bg, bg: fg, text: Text::Literal { s: title } },
        DrawCommand::SetCell { x: (x + title.spec_bytes().len() + 2) as i32, y: (y - 2) as i32, fg, bg, glyph: end_char },
        DrawCommand::PrintColor { x: (x + 15) as i32, y: (y + count + 1) as i32, fg: bg, bg: fg, text: Text::Literal { s: " ESC to Cancel " } },
        DrawCommand::SetCell { x: (x + 14) as i32, y: (y + count + 1) as i32, fg, bg, glyph: start_char },
        DrawCommand::SetCell { x: (x + 30) as i32, y: (y + count + 1) as i32, fg, bg, glyph: end_char },
    ]
}

/// Draws the frame of an item menu (see `frame_commands`).
pub fn inventory_frame(count: usize, x: i32, y: i32, w: i32, fg: u8, bg: u8, title: &'static str) -> (cmds: Vec<DrawCommand>)
    requires
        count + 3 <= i32::MAX,
        i32::MIN + 2 <= y,
        y + count + 1 <= i32::MAX,
        0 <= x,
        x + 30 <= i32::MAX,
        x + title.spec_bytes().len() + 2 <= i32::MAX,
    ensures
        cmds@ == frame_commands(count as int, x as int, y as int, w as int, fg, bg, title),
{
    let h = (count + 3) as i32;
    let start_char = to_cp437('┤');
    let end_char = to_cp437('├');
    let space = to_cp437(' ');
    let mut cmds: Vec<DrawCommand> = Vec::new();
    cmds.push(DrawCommand::FillRegion { x, y: y - 2, w, h, glyph: space, fg, bg });
    cmds.push(DrawCommand::HollowBox { x, y: y - 2, w, h, fg, bg });
    cmds.push(DrawCommand::SetCell { x: x + 1, y: y - 2, fg, bg, glyph: start_char });
    cmds.push(DrawCommand::PrintColor { x: x + 2, y: y - 2, fg: bg, bg: fg, text: Text::Literal { s: title } });
    cmds.push(DrawCommand::SetCell { x: x + title.len() as i32 + 2, y: y - 2, fg, bg, glyph: end_char });
    cmds.push(DrawCommand::PrintColor { x: x + 15, y: y + count as i32 + 1, fg: bg, bg: fg, text: Text::Literal { s: " ESC to Cancel " } });
    cmds.push(DrawCommand::SetCell { x: x + 14, y: y + count as i32 + 1, fg, bg, glyph: start_char });
    cmds.push(DrawCommand::SetCell { x: x + 30, y: y + count as i32 + 1, fg, bg, glyph: end_char });
    assert(cmds@ =~= frame_commands(count as int, x as int, y as int, w as int, fg, bg, title));
    cmds
}

/// One entry of an item menu: its letter in brackets and the item's name.
pub open spec fn selection_commands(x: int, y: int, fg: u8, bg: u8, glyph: u16, name: int) -> Seq<DrawCommand> {
    seq![
        DrawCommand::SetCell { x: x as i32, y: y as i32, fg, bg, glyph: cp437_glyph('(') },
        DrawCommand::SetCell { x: (x + 1) as i32, y: y as i32, fg: SEL_FG, bg, glyph },
        DrawCommand::SetCell { x: (x + 2) as i32, y: y as i32, fg, bg, glyph: cp437_glyph(')') },
        DrawCommand::Print { x: (x + 4) as i32, y: y as i32, text: Text::Name { index: name as usize } },
    ]
}

/// Draws one entry of an item menu (see `selection_commands`).
pub fn inventory_selection(x: i32, y: i32, fg: u8, bg: u8, glyph: u16, name: usize) -> (cmds: Vec<DrawCommand>)
    requires
        x + 4 <= i32::MAX,
    ensures
        cmds@ == selection_commands(x as int, y as int, fg, bg, glyph, name as int),
{
    let open = to_cp437('(');
    let close = to_cp437(')');
    let mut cmds: Vec<DrawCommand> = Vec::new();
    cmds.push(DrawCommand::SetCell { x, y, fg, bg, glyph: open });
    cmds.push(DrawCommand::SetCell { x: x + 1, y, fg: SEL_FG, bg, glyph });
    cmds.push(DrawCommand::SetCell { x: x + 2, y, fg, bg, glyph: close });
    cmds.push(DrawCommand::Print { x: x + 4, y, text: Text::Name { index: name } });
    assert(cmds@ =~= selection_commands(x as int, y as int, fg, bg, glyph, name as int));
    cmds
}

/// An item held by someone: in a backpack, or worn.
#[derive(Clone, Copy, PartialEq, Eq, Structural, Debug)]
pub struct HeldItem {
    pub item: EntityId,
    pub owner: EntityId,
}

/// The items of `held` that `player` holds, in order.
pub open spec fn items_of(held: Seq<HeldItem>, player: EntityId) -> Seq<EntityId> {
    held.filter(|h: HeldItem| h.owner == player).map_values(|h: HeldItem| h.item)
}

/// Lists the items that `player` holds.
pub fn player_items(held: &Vec<HeldItem>, player: EntityId) -> (items: Vec<EntityId>)
    ensures
        items@ == items_of(held@, player),
{
    let mut items: Vec<EntityId> = Vec::new();
    let mut i: usize = 0;
    while i < held.len()
        invariant
            i <= held@.len(),
            items@ == items_of(held@.subrange(0, i as int), player),
        decreases held@.len() - i,
    {
        proof {
            reveal(Seq::filter);
            assert(held@.subrange(0, i + 1).drop_last() =~= held@.subrange(0, i as int));
        }
        let h = held[i];
        if h.owner.index == player.index && h.owner.generation == player.generation {
            items.push(h.item);
        }
        assert(items@ =~= items_of(held@.subrange(0, i + 1), player));
        i += 1;
    }
    assert(held@.subrange(0, held@.len() as int) =~= held@);
    items
}

/// The entries of an item menu: entry `j` is drawn on row `y + j` with the letter
/// glyph `65 + j` (A, B, ...), naming the `j`-th listed item.
pub open spec fn entries_commands(x: int, y: int, fg: u8, bg: u8, n: int) -> Seq<DrawCommand>
    decreases n,
{
    if n <= 0 {
        seq![]
    } else {
        entries_commands(x, y, fg, bg, n - 1) + selection_commands(x, y + n - 1, fg, bg, (65 + n - 1) as u16, n - 1)
    }
}

/// What an item menu shows and answers.
#[derive(PartialEq, Eq, Debug)]
pub struct InventoryScreen {
    pub commands: Vec<DrawCommand>,
    pub result: ItemMenuResult,
    pub item: Option<EntityId>,
}

/// The items an item menu lists: worn items for "unequip", backpack items otherwise.
pub open spec fn listed_items(action: Seq<char>, backpack: Seq<HeldItem>, equipped: Seq<HeldItem>, player: EntityId) -> Seq<EntityId> {
    if action == "unequip"@ { items_of(equipped, player) } else { items_of(backpack, player) }
}

/// The item menu for an action ("use", "drop" or "unequip"): a frame sized for the
/// items in the player's backpack, one entry per listed item (see `listed_items`),
/// and the answer to the key (see `inventory_result`).
pub fn show_inventory(action: &str, backpack: &Vec<HeldItem>, equipped: &Vec<HeldItem>, player: EntityId, key: Option<Key>) -> (screen: InventoryScreen)
    requires
        items_of(backpack@, player).len() / 2 <= 25,
        listed_items(action@, backpack@, equipped@, player).len() <= 65471,
        key matches Some(Key::Letter { index }) ==> (0 <= index < items_of(backpack@, player).len()
            ==> index < listed_items(action@, backpack@, equipped@, player).len()),
    ensures
        ({
            let count = items_of(backpack@, player).len() as int;
            let y = 25 - count / 2;
            let t = title_for(action@);
            &&& screen.commands@ == frame_commands(count, 15, y, 31, DEFAULT_FG, t.1, t.0)
                + entries_commands(17, y, DEFAULT_FG, t.1, listed_items(action@, backpack@, equipped@, player).len() as int)
            &&& (screen.result, screen.item) == inventory_result(key, count, listed_items(action@, backpack@, equipped@, player))
        }),
{
    let inventory = player_items(backpack, player);
    let count = inventory.len();
    let x: i32 = 15;
    let mut y = (25 - (count / 2)) as i32;
    let ghost y0 = y as int;
    let w: i32 = 31;
    let fg = DEFAULT_FG;
    let (title, bg) = inventory_title(action);
    let mut cmds = inventory_frame(count, x, y, w, fg, bg, title);
    proof { reveal_strlit("unequip"); }
    let listed = if same_text(action, "unequip") { player_items(equipped, player) } else { inventory };
    let ghost frame = cmds@;
    let mut j: u16 = 0;
    while (j as usize) < listed.len()
        invariant
            listed@.len() <= 65471,
            j <= listed@.len(),
            y == y0 + j,
            y0 <= 25,
            x == 15,
            cmds@ == frame + entries_commands(17, y0, fg, bg, j as int),
        decreases listed@.len() - j,
    {
        let mut entry = inventory_selection(x + 2, y, fg, bg, 65 + j, j as usize);
        let ghost before = cmds@;
        cmds.append(&mut entry);
        assert(cmds@ =~= frame + entries_commands(17, y0, fg, bg, j + 1));
        y += 1;
        j += 1;
    }
    let (result, item) = inventory_choice(key, count, &listed);
    InventoryScreen { commands: cmds, result, item }
}

/// An entity with a name and a position, as the tooltips read it: the length in bytes
/// of its name, and whether it is hidden.
#[derive(Clone, Copy, PartialEq, Eq, Structural, Debug)]
pub struct NamedEntity {
    pub pos: Position,
    pub name_len: usize,
    pub hidden: bool,
}

/// An entity gets a tooltip when it is not hidden, stands under the mouse, and the
/// mouse's tile is visible.
pub open spec fn shows_tooltip(map: MapView, e: NamedEntity, mouse: Position) -> bool {
    !e.hidden && e.pos == mouse && map.visible[idx_of(map.width, mouse.x as int, mouse.y as int)]
}

/// A position whose tile index can be computed: with the coordinates and the width
/// taken as `usize`, as the index is computed, `y * width + x` does not overflow.
pub open spec fn placed(map: MapView, p: Position) -> bool {
    let y = (p.y as usize) as int;
    let x = (p.x as usize) as int;
    let w = (map.width as usize) as int;
    y * w <= usize::MAX && y * w + x <= usize::MAX
}

/// An entity the tooltips can look at: its index can be computed (see `placed`), and
/// when it stands under the mouse its coordinates are not negative (a negative one
/// would give an index far past the end of the map).
pub open spec fn tooltip_ready(map: MapView, e: NamedEntity, mouse: Position) -> bool {
    !e.hidden ==> placed(map, e.pos) && (e.pos == mouse ==> 0 <= mouse.x && 0 <= mouse.y)
}

/// The indices of the entities that get a tooltip, in order.
pub open spec fn tooltip_entries(map: MapView, named: Seq<NamedEntity>, mouse: Position) -> Seq<int> {
    Seq::new(named.len(), |i: int| i).filter(|i: int| shows_tooltip(map, named[i], mouse))
}

/// The longest name among the entities at `entries`.
pub open spec fn widest(named: Seq<NamedEntity>, entries: Seq<int>) -> int
    decreases entries.len(),
{
    if entries.len() == 0 {
        0
    } else {
        let rest = widest(named, entries.drop_last());
        let len = named[entries.last()].name_len as int;
        if rest < len { len } else { rest }
    }
}

/// One line of the tooltip box: the name of entity `k`, then blank cells out to the
/// arrow; on the right half of the screen the box stands left of the mouse.
pub open spec fn tooltip_row(named: Seq<NamedEntity>, k: int, row_y: int, width: int, right: bool, mouse: Position) -> Seq<DrawCommand> {
    let padding = width - named[k].name_len - 1;
    let text_x = if right { mouse.x - width } else { mouse.x + 4 };
    seq![DrawCommand::PrintColor { x: text_x as i32, y: row_y as i32, fg: DEFAULT_FG, bg: TT_BG, text: Text::Name { index: k as usize } }]
        + Seq::new(padding as nat, |i: int| DrawCommand::PrintColor {
            x: (if right { mouse.x - 2 - i } else { mouse.x + 2 + i }) as i32,
            y: row_y as i32,
            fg: DEFAULT_FG,
            bg: TT_BG,
            text: Text::Literal { s: " " },
        })
}

/// The lines of the tooltip box, one per entry, from the mouse's row down.
pub open spec fn tooltip_rows(named: Seq<NamedEntity>, entries: Seq<int>, width: int, right: bool, mouse: Position) -> Seq<DrawCommand>
    decreases entries.len(),
{
    if entries.len() == 0 {
        seq![]
    } else {
        tooltip_rows(named, entries.drop_last(), width, right, mouse)
            + tooltip_row(named, entries.last(), mouse.y + entries.len() - 1, width, right, mouse)
    }
}

/// The tooltips under the mouse: nothing when the mouse is off the map or over no
/// named entity; otherwise a box three cells wider than the longest name and an arrow
/// pointing at the mouse.
pub open spec fn tooltip_commands(map: MapView, named: Seq<NamedEntity>, mouse: Position) -> Seq<DrawCommand> {
    let entries = tooltip_entries(map, named, mouse);
    if mouse.x >= map.width || mouse.y >= map.height || entries.len() == 0 {
        seq![]
    } else {
        let width = widest(named, entries) + 3;
        let right = mouse.x > 40;
        tooltip_rows(named, entries, width, right, mouse) + seq![DrawCommand::PrintColor {
            x: (if right { mouse.x - 2 } else { mouse.x + 1 }) as i32,
            y: mouse.y as i32,
            fg: DEFAULT_FG,
            bg: TT_BG,
            text: Text::Literal { s: if right { "->" } else { "<-" } },
        }]
    }
}

/// The widest name grows with the entries.
proof fn lemma_widest_bounds(named: Seq<NamedEntity>, entries: Seq<int>, bound: int)
    requires
        forall|i: int| 0 <= i < entries.len() ==> 0 <= #[trigger] entries[i] < named.len(),
        forall|k: int| 0 <= k < named.len() ==> (#[trigger] named[k]).name_len <= bound,
        0 <= bound,
    ensures
        0 <= widest(named, entries) <= bound,
        forall|i: int| 0 <= i < entries.len() ==> named[#[trigger] entries[i]].name_len <= widest(named, entries),
    decreases entries.len(),
{
    if entries.len() > 0 {
        lemma_widest_bounds(named, entries.drop_last(), bound);
        assert(named[entries.last()].name_len <= bound);
        assert forall|i: int| 0 <= i < entries.len() implies named[#[trigger] entries[i]].name_len <= widest(named, entries) by {
            if i < entries.len() - 1 {
                assert(entries[i] == entries.drop_last()[i]);
            }
        }
    }
}

/// The tooltip box under the mouse (see `tooltip_commands`).
pub fn draw_tooltips(map: &GameMap, named: &Vec<NamedEntity>, mouse: Position) -> (cmds: Vec<DrawCommand>)
    requires
        map.wf(),
        mouse.x < map.width && mouse.y < map.height ==> forall|k: int| 0 <= k < named@.len()
            ==> tooltip_ready(map@, #[trigger] named@[k], mouse),
        map.height + named@.len() <= i32::MAX,
        forall|k: int| 0 <= k < named@.len() ==> map.width + (#[trigger] named@[k]).name_len + 8 <= i32::MAX,
    ensures
        cmds@ == tooltip_commands(map@, named@, mouse),
{
    if mouse.x >= map.width || mouse.y >= map.height {
        return Vec::new();
    }
    let on_map = mouse.x >= 0 && mouse.y >= 0;
    let mut mouse_idx: usize = 0;
    if on_map {
        proof {
            assert(idx_of(map.width as int, mouse.x as int, mouse.y as int) < map.width * map.height) by (nonlinear_arith)
                requires 0 <= mouse.x < map.width, 0 <= mouse.y < map.height;
            assert(0 <= idx_of(map.width as int, mouse.x as int, mouse.y as int)) by (nonlinear_arith)
                requires 0 <= mouse.x, 0 <= mouse.y, 0 < map.width;
            assert(map.tiles@.len() == map.tiles.len());
        }
        mouse_idx = map.xy_idx(mouse.x, mouse.y);
    }
    let ghost all = Seq::new(named@.len(), |i: int| i);
    let mut entries: Vec<usize> = Vec::new();
    let mut i: usize = 0;
    while i < named.len()
        invariant
            i <= named@.len(),
            all == Seq::new(named@.len(), |i: int| i),
            on_map == (mouse.x >= 0 && mouse.y >= 0),
            on_map ==> mouse_idx == idx_of(map.width as int, mouse.x as int, mouse.y as int),
            on_map ==> mouse_idx < map.visible_tiles@.len(),
            forall|k: int| 0 <= k < named@.len() ==> tooltip_ready(map@, #[trigger] named@[k], mouse),
            entries@.map_values(|e: usize| e as int) == all.subrange(0, i as int).filter(|j: int| shows_tooltip(map@, named@[j], mouse)),
            forall|k: int| 0 <= k < entries@.len() ==> #[trigger] entries@[k] < i,
        decreases named@.len() - i,
    {
        let ghost before = entries@;
        proof {
            reveal(Seq::filter);
            assert(all.subrange(0, i + 1).drop_last() =~= all.subrange(0, i as int));
        }
        let e = named[i];
        assert(tooltip_ready(map@, named@[i as int], mouse));
        if !e.hidden && e.pos.x == mouse.x && e.pos.y == mouse.y && map.visible_tiles[mouse_idx] {
            entries.push(i);
        }
        assert(entries@.map_values(|e: usize| e as int) =~= all.subrange(0, i + 1).filter(|j: int| shows_tooltip(map@, named@[j], mouse)));
        i += 1;
    }
    assert(all.subrange(0, named@.len() as int) =~= all);
    let ghost ents = tooltip_entries(map@, named@, mouse);
    assert(entries@.map_values(|e: usize| e as int) == ents);
    if entries.len() == 0 {
        return Vec::new();
    }
    proof {
        assert forall|j: int| 0 <= j < ents.len() implies 0 <= #[trigger] ents[j] < named@.len() by {
            assert(ents[j] == entries@[j] as int);
        }
        assert(entries@[0] < named@.len());
        assert(map.width + named@[0].name_len + 8 <= i32::MAX);
        lemma_widest_bounds(named@, ents, (i32::MAX - 8 - map.width) as int);
    }
    let mut widest_len: i32 = 0;
    let mut t: usize = 0;
    while t < entries.len()
        invariant
            t <= entries@.len(),
            ents == entries@.map_values(|e: usize| e as int),
            forall|k: int| 0 <= k < entries@.len() ==> #[trigger] entries@[k] < named@.len(),
            forall|k: int| 0 <= k < named@.len() ==> map.width + (#[trigger] named@[k]).name_len + 8 <= i32::MAX,
            0 < map.width,
            widest_len == widest(named@, ents.subrange(0, t as int)),
        decreases entries@.len() - t,
    {
        assert(ents.subrange(0, t + 1).drop_last() =~= ents.subrange(0, t as int));
        let len = named[entries[t]].name_len as i32;
        if widest_len < len {
            widest_len = len;
        }
        t += 1;
    }
    assert(ents.subrange(0, ents.len() as int) =~= ents);
    let width = widest_len + 3;
    let right = mouse.x > 40;
    let mut cmds: Vec<DrawCommand> = Vec::new();
    let mut y = mouse.y;
    let mut r: usize = 0;
    while r < entries.len()
        invariant
            r <= entries@.len(),
            entries@.len() <= named@.len(),
            ents == entries@.map_values(|e: usize| e as int),
            forall|k: int| 0 <= k < entries@.len() ==> #[trigger] entries@[k] < named@.len(),
            forall|k: int| 0 <= k < named@.len() ==> map.width + (#[trigger] named@[k]).name_len + 8 <= i32::MAX,
            forall|k: int| 0 <= k < ents.len() ==> named@[#[trigger] ents[k]].name_len <= widest(named@, ents),
            width == widest(named@, ents) + 3,
            0 <= widest(named@, ents),
            widest(named@, ents) + map.width + 8 <= i32::MAX,
            right == (mouse.x > 40),
            0 <= mouse.x < map.width,
            0 <= mouse.y < map.height,
            map.height + named@.len() <= i32::MAX,
            y == mouse.y + r,
            cmds@ == tooltip_rows(named@, ents.subrange(0, r as int), width as int, right, mouse),
        decreases entries@.len() - r,
    {
        assert(ents.subrange(0, r + 1).drop_last() =~= ents.subrange(0, r as int));
        let k = entries[r];
        assert(named@[ents[r as int]].name_len <= widest(named@, ents));
        let len = named[k].name_len as i32;
        let text_x = if right { mouse.x - width } else { mouse.x + 4 };
        let ghost row_start = cmds@;
        cmds.push(DrawCommand::PrintColor { x: text_x, y, fg: DEFAULT_FG, bg: TT_BG, text: Text::Name { index: k } });
        let padding = width - len - 1;
        let mut p: i32 = 0;
        while p < padding
            invariant
                0 <= p <= padding,
                padding == width - named@[k as int].name_len - 1,
                0 <= mouse.x < map.width,
                width + map.width + 5 <= i32::MAX,
                cmds@ == row_start + seq![DrawCommand::PrintColor { x: text_x, y, fg: DEFAULT_FG, bg: TT_BG, text: Text::Name { index: k } }]
                    + Seq::new(p as nat, |i: int| DrawCommand::PrintColor {
                        x: (if right { mouse.x - 2 - i } else { mouse.x + 2 + i }) as i32,
                        y: y as i32,
                        fg: DEFAULT_FG,
                        bg: TT_BG,
                        text: Text::Literal { s: " " },
                    }),
            decreases padding - p,
        {
            let cx = if right { mouse.x - 2 - p } else { mouse.x + 2 + p };
            cmds.push(DrawCommand::PrintColor { x: cx, y, fg: DEFAULT_FG, bg: TT_BG, text: Text::Literal { s: " " } });
            p += 1;
        }
        assert(cmds@ =~= tooltip_rows(named@, ents.subrange(0, r + 1), width as int, right, mouse));
        y += 1;
        r += 1;
    }
    assert(ents.subrange(0, ents.len() as int) =~= ents);
    let arrow_x = if right { mouse.x - 2 } else { mouse.x + 1 };
    let arrow = if right { "->" } else { "<-" };
    cmds.push(DrawCommand::PrintColor { x: arrow_x, y: mouse.y, fg: DEFAULT_FG, bg: TT_BG, text: Text::Literal { s: arrow } });
    cmds
}

/// What the status bar shows of a player: health and hunger.
#[derive(Clone, Copy, PartialEq, Eq, Structural, Debug)]
pub struct PlayerStatus {
    pub hp: i32,
    pub max_hp: i32,
    pub hunger: HungerState,
}

/// The label and colour of a hunger state.
pub open spec fn hunger_label(h: HungerState) -> (&'static str, u8) {
    match h {
        HungerState::WellFed => ("Well Fed", WF_FG),
        HungerState::Normal => ("Fed", FED_FG),
        HungerState::Hungry => ("Hungry", HUNGRY_FG),
        HungerState::Starving => ("Starving", STARVE_FG),
    }
}

/// A player's line of the status bar: health as text and as a bar, and hunger.
pub open spec fn status_commands(p: PlayerStatus) -> Seq<DrawCommand> {
    seq![
        DrawCommand::PrintColor { x: 12, y: 43, fg: DEFAULT_FG, bg: DEFAULT_BG, text: Text::Health { hp: p.hp, max_hp: p.max_hp } },
        DrawCommand::BarHorizontal { x: 28, y: 43, width: 51, n: p.hp, max: p.max_hp, fg: HP_FG, bg: DEFAULT_BG },
        DrawCommand::PrintColor { x: 71, y: 42, fg: hunger_label(p.hunger).1, bg: DEFAULT_BG, text: Text::Literal { s: hunger_label(p.hunger).0 } },
    ]
}

/// The status lines of all players, in order.
pub open spec fn statuses_commands(players: Seq<PlayerStatus>) -> Seq<DrawCommand>
    decreases players.len(),
{
    if players.len() == 0 {
        seq![]
    } else {
        statuses_commands(players.drop_last()) + status_commands(players.last())
    }
}

/// The game log in the status bar: the newest entries first, from row 44, as many as
/// fit above row 49.
pub open spec fn log_commands(log_len: int) -> Seq<DrawCommand> {
    let shown = if log_len < 5 { log_len } else { 5 };
    Seq::new(shown as nat, |t: int| DrawCommand::Print { x: 2, y: (44 + t) as i32, text: Text::LogEntry { index: (log_len - 1 - t) as usize } })
}

/// The status bar: its box, each player's status, the depth, the log, the mouse
/// highlight and the tooltips.
pub open spec fn ui_commands(map: MapView, players: Seq<PlayerStatus>, log_len: int, mouse: Position, named: Seq<NamedEntity>) -> Seq<DrawCommand> {
    seq![
        DrawCommand::FillRegion { x: 0, y: 43, w: 79, h: 49, glyph: cp437_glyph(' '), fg: DEFAULT_FG, bg: DEFAULT_BG },
        DrawCommand::HollowBox { x: 0, y: 43, w: 79, h: 6, fg: DEFAULT_FG, bg: DEFAULT_BG },
    ] + statuses_commands(players)
        + seq![DrawCommand::PrintColor { x: 2, y: 43, fg: SEL_FG, bg: DEFAULT_BG, text: Text::Depth { depth: map.depth as i32 } }]
        + log_commands(log_len)
        + seq![DrawCommand::SetBg { x: mouse.x, y: mouse.y, bg: MOUSE_BG }]
        + tooltip_commands(map, named, mouse)
}

/// Draws the status bar (see `ui_commands`).
pub fn draw_ui(map: &GameMap, players: &Vec<PlayerStatus>, log_len: usize, mouse: Position, named: &Vec<NamedEntity>) -> (cmds: Vec<DrawCommand>)
    requires
        map.wf(),
        mouse.x < map.width && mouse.y < map.height ==> forall|k: int| 0 <= k < named@.len()
            ==> tooltip_ready(map@, #[trigger] named@[k], mouse),
        log_len + 44 <= i32::MAX,
        map.height + named@.len() <= i32::MAX,
        forall|k: int| 0 <= k < named@.len() ==> map.width + (#[trigger] named@[k]).name_len + 8 <= i32::MAX,
    ensures
        cmds@ == ui_commands(map@, players@, log_len as int, mouse, named@),
{
    let mut cmds: Vec<DrawCommand> = Vec::new();
    cmds.push(DrawCommand::FillRegion { x: 0, y: 43, w: 79, h: 49, glyph: to_cp437(' '), fg: DEFAULT_FG, bg: DEFAULT_BG });
    cmds.push(DrawCommand::HollowBox { x: 0, y: 43, w: 79, h: 6, fg: DEFAULT_FG, bg: DEFAULT_BG });
    let ghost head = cmds@;
    let mut i: usize = 0;
    while i < players.len()
        invariant
            i <= players@.len(),
            cmds@ == head + statuses_commands(players@.subrange(0, i as int)),
        decreases players@.len() - i,
    {
        assert(players@.subrange(0, i + 1).drop_last() =~= players@.subrange(0, i as int));
        let p = players[i];
        let (label, fg) = match p.hunger {
            HungerState::WellFed => ("Well Fed", WF_FG),
            HungerState::Normal => ("Fed", FED_FG),
            HungerState::Hungry => ("Hungry", HUNGRY_FG),
            HungerState::Starving => ("Starving", STARVE_FG),
        };
        cmds.push(DrawCommand::PrintColor { x: 12, y: 43, fg: DEFAULT_FG, bg: DEFAULT_BG, text: Text::Health { hp: p.hp, max_hp: p.max_hp } });
        cmds.push(DrawCommand::BarHorizontal { x: 28, y: 43, width: 51, n: p.hp, max: p.max_hp, fg: HP_FG, bg: DEFAULT_BG });
        cmds.push(DrawCommand::PrintColor { x: 71, y: 42, fg, bg: DEFAULT_BG, text: Text::Literal { s: label } });
        assert(cmds@ =~= head + statuses_commands(players@.subrange(0, i + 1)));
        i += 1;
    }
    assert(players@.subrange(0, players@.len() as int) =~= players@);
    cmds.push(DrawCommand::PrintColor { x: 2, y: 43, fg: SEL_FG, bg: DEFAULT_BG, text: Text::Depth { depth: map.depth } });
    let ghost before_log = cmds@;
    let mut y: i32 = 44;
    let mut t: usize = 0;
    while t < log_len
        invariant
            t <= log_len,
            log_len + 44 <= i32::MAX,
            y == 44 + t,
            cmds@ == before_log + Seq::new((if t < 5 { t as int } else { 5 }) as nat, |u: int|
                DrawCommand::Print { x: 2, y: (44 + u) as i32, text: Text::LogEntry { index: (log_len - 1 - u) as usize } }),
        decreases log_len - t,
    {
        if y < 49 {
            cmds.push(DrawCommand::Print { x: 2, y, text: Text::LogEntry { index: log_len - 1 - t } });
        }
        y += 1;
        t += 1;
        assert(cmds@ =~= before_log + Seq::new((if t < 5 { t as int } else { 5 }) as nat, |u: int|
            DrawCommand::Print { x: 2, y: (44 + u) as i32, text: Text::LogEntry { index: (log_len - 1 - u) as usize } }));
    }
    assert(cmds@ =~= before_log + log_commands(log_len as int));
    let ghost before_tips = cmds@;
    cmds.push(DrawCommand::SetBg { x: mouse.x, y: mouse.y, bg: MOUSE_BG });
    let mut tips = draw_tooltips(map, named, mouse);
    cmds.append(&mut tips);
    assert(cmds@ =~= ui_commands(map@, players@, log_len as int, mouse, named@));
    cmds
}

/// Colour of a main menu entry: highlighted when it is the selected one.
pub open spec fn entry_fg(entry: MainMenuSelection, selected: MainMenuSelection) -> u8 {
    if entry == selected { SEL_FG } else { NONSEL_FG }
}

/// The main menu screen: the title art, a double box with the instructions, and,
/// while the game is in the menu, its entries from row 26 ("load game" only when a
/// save exists), the selected one highlighted.
pub open spec fn main_menu_screen(current: Option<MainMenuSelection>, save_exists: bool) -> Seq<DrawCommand> {
    let head = seq![
        DrawCommand::MenuArt { x: 0, y: 0 },
        DrawCommand::DoubleBox { x: 2, y: 21, w: 27, h: 11, fg: TITLE_FG, bg: DEFAULT_BG },
        DrawCommand::PrintColor { x: 4, y: 23, fg: SEL_FG, bg: DEFAULT_BG, text: Text::Literal { s: "Use ▲/▼ arrows and Enter" } },
        DrawCommand::PrintColor { x: 4, y: 24, fg: SEL_FG, bg: DEFAULT_BG, text: Text::Literal { s: "to make selection." } },
    ];
    match current {
        None => head,
        Some(sel) => {
            let new_game = DrawCommand::PrintColor { x: 5, y: 26, fg: entry_fg(MainMenuSelection::NewGame, sel), bg: DEFAULT_BG, text: Text::Literal { s: "Begin New Game" } };
            if save_exists {
                head + seq![
                    new_game,
                    DrawCommand::PrintColor { x: 5, y: 27, fg: entry_fg(MainMenuSelection::LoadGame, sel), bg: DEFAULT_BG, text: Text::Literal { s: "Load Game" } },
                    DrawCommand::PrintColor { x: 5, y: 28, fg: entry_fg(MainMenuSelection::Quit, sel), bg: DEFAULT_BG, text: Text::Literal { s: "Quit" } },
                ]
            } else {
                head + seq![
                    new_game,
                    DrawCommand::PrintColor { x: 5, y: 27, fg: entry_fg(MainMenuSelection::Quit, sel), bg: DEFAULT_BG, text: Text::Literal { s: "Quit" } },
                ]
            }
        },
    }
}

/// Colour of a main menu entry (see `entry_fg`).
fn menu_entry_fg(entry: MainMenuSelection, selected: MainMenuSelection) -> (fg: u8)
    ensures
        fg == entry_fg(entry, selected),
{
    if entry == selected { SEL_FG } else { NONSEL_FG }
}

/// Draws the main menu (see `main_menu_screen`).
pub fn draw_main_menu(current: Option<MainMenuSelection>, save_exists: bool) -> (cmds: Vec<DrawCommand>)
    ensures
        cmds@ == main_menu_screen(current, save_exists),
{
    let x: i32 = 5;
    let mut y: i32 = 23;
    let mut cmds: Vec<DrawCommand> = Vec::new();
    cmds.push(DrawCommand::MenuArt { x: 0, y: 0 });
    cmds.push(DrawCommand::DoubleBox { x: x - 3, y: y - 2, w: 27, h: 11, fg: TITLE_FG, bg: DEFAULT_BG });
    cmds.push(DrawCommand::PrintColor { x: x - 1, y, fg: SEL_FG, bg: DEFAULT_BG, text: Text::Literal { s: "Use ▲/▼ arrows and Enter" } });
    cmds.push(DrawCommand::PrintColor { x: x - 1, y: y + 1, fg: SEL_FG, bg: DEFAULT_BG, text: Text::Literal { s: "to make selection." } });
    if let Some(selection) = current {
        y += 3;
        cmds.push(DrawCommand::PrintColor { x, y, fg: menu_entry_fg(MainMenuSelection::NewGame, selection), bg: DEFAULT_BG, text: Text::Literal { s: "Begin New Game" } });
        y += 1;
        if save_exists {
            cmds.push(DrawCommand::PrintColor { x, y, fg: menu_entry_fg(MainMenuSelection::LoadGame, selection), bg: DEFAULT_BG, text: Text::Literal { s: "Load Game" } });
            y += 1;
        }
        cmds.push(DrawCommand::PrintColor { x, y, fg: menu_entry_fg(MainMenuSelection::Quit, selection), bg: DEFAULT_BG, text: Text::Literal { s: "Quit" } });
    }
    assert(cmds@ =~= main_menu_screen(current, save_exists));
    cmds
}

/// The game-over screen: cleared, with three centred lines.
pub open spec fn game_over_screen() -> Seq<DrawCommand> {
    seq![
        DrawCommand::ClsBg { bg: DEFAULT_BG },
        DrawCommand::PrintColorCentered { y: 15, fg: DEATH_FG, bg: DEFAULT_BG, text: Text::Literal { s: "You DIED!" } },
        DrawCommand::PrintColorCentered { y: 17, fg: DEFAULT_FG, bg: DEFAULT_BG, text: Text::Literal { s: "You Failed to finish your Quest." } },
        DrawCommand::PrintColorCentered { y: 19, fg: TITLE_FG, bg: DEFAULT_BG, text: Text::Literal { s: "Press any key to return to the Menu" } },
    ]
}

/// Draws the game-over screen (see `game_over_screen`).
pub fn draw_game_over() -> (cmds: Vec<DrawCommand>)
    ensures
        cmds@ == game_over_screen(),
{
    let mut cmds: Vec<DrawCommand> = Vec::new();
    cmds.push(DrawCommand::ClsBg { bg: DEFAULT_BG });
    cmds.push(DrawCommand::PrintColorCentered { y: 15, fg: DEATH_FG, bg: DEFAULT_BG, text: Text::Literal { s: "You DIED!" } });
    cmds.push(DrawCommand::PrintColorCentered { y: 17, fg: DEFAULT_FG, bg: DEFAULT_BG, text: Text::Literal { s: "You Failed to finish your Quest." } });
    cmds.push(DrawCommand::PrintColorCentered { y: 19, fg: TITLE_FG, bg: DEFAULT_BG, text: Text::Literal { s: "Press any key to return to the Menu" } });
    assert(cmds@ =~= game_over_screen());
    cmds
}


/// An item menu only ever selects an item it lists, and only Escape cancels.
pub proof fn law_selected_item_is_listed(key: Option<Key>, count: int, items: Seq<EntityId>)
    requires
        count <= items.len(),
    ensures
        inventory_result(key, count, items).0 == ItemMenuResult::Selected ==> (inventory_result(key, count, items).1 matches Some(item) && items.contains(item)),
        inventory_result(key, count, items).0 == ItemMenuResult::Cancel <==> key == Some(Key::Escape),
        inventory_result(key, count, items).0 != ItemMenuResult::Selected ==> inventory_result(key, count, items).1 is None,
{
    if let Some(Key::Letter { index }) = key {
        if 0 <= index < count {
            assert(items[index as int] == items[index as int]);
        }
    }
}

/// Every cell offered as a target is visible and within range of the player.
pub proof fn law_targets_within_range(player: Position, visible: Seq<Position>, range: int, c: Position)
    requires
        cells_in_range(player, visible, range).contains(c),
    ensures
        in_range(player, c, range),
        visible.contains(c),
{
    let pred = |p: Position| in_range(player, p, range);
    let f = visible.filter(pred);
    let k = choose|k: int| 0 <= k < f.len() && f[k] == c;
    visible.lemma_filter_pred(pred, k);
    visible.lemma_filter_contains_rev(pred, c);
}


/// Each hunger state shows a label of its own, in a colour of its own: no two states
/// read the same or look the same in the status bar, and the words say how fed the
/// player is ("Well Fed", "Fed", "Hungry", "Starving", from best to worst).
pub proof fn law_hunger_labels_tell_states_apart(h1: HungerState, h2: HungerState)
    ensures
        h1 != h2 ==> hunger_label(h1).0@ != hunger_label(h2).0@,
        h1 != h2 ==> hunger_label(h1).1 != hunger_label(h2).1,
        hunger_label(h1).0@ == (match h1 {
            HungerState::WellFed => "Well Fed"@,
            HungerState::Normal => "Fed"@,
            HungerState::Hungry => "Hungry"@,
            HungerState::Starving => "Starving"@,
        }),
{
    reveal_strlit("Well Fed");
    reveal_strlit("Fed");
    reveal_strlit("Hungry");
    reveal_strlit("Starving");
    if h1 != h2 {
        let a = hunger_label(h1).0@;
        let b = hunger_label(h2).0@;
        if a.len() == b.len() {
            assert(a[0] != b[0]);
        }
    }
}


/// The status bar shows the newest log entries first: as many as there are, up to
/// five, on rows 44 to 48, the `t`-th row from the top holding the `t`-th newest
/// entry.
pub proof fn law_log_newest_first(log_len: int, t: int)
    requires
        0 <= log_len,
    ensures
        log_commands(log_len).len() == (if log_len < 5 { log_len } else { 5 }),
        0 <= t < log_commands(log_len).len() ==> log_commands(log_len)[t]
            == (DrawCommand::Print { x: 2, y: (44 + t) as i32, text: Text::LogEntry { index: (log_len - 1 - t) as usize } }),
        log_commands(log_len).len() <= 5,
{
}

} // verus!
