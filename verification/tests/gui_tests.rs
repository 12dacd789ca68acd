use mcguffin_quest::colors::{
    DEATH_FG, DEFAULT_BG, DEFAULT_FG, DROP_BG, ERROR_BG, FED_FG, HP_FG, INV_BG, MOUSE_BG, NONSEL_FG, SEL_FG, STARVE_FG,
    TITLE_FG, TT_BG, UNEQUIP_BG, WF_FG,
};
use mcguffin_quest::components::{EntityId, HungerState, Position};
use mcguffin_quest::console::{DrawCommand, Text};
use mcguffin_quest::gui::{
    draw_game_over, draw_main_menu, draw_tooltips, draw_ui, game_over, inventory_choice, inventory_frame, inventory_selection,
    inventory_title, main_menu, player_items, ranged_target, same_text, show_inventory, GameOverResult, HeldItem, ItemMenuResult,
    Key, MainMenuResult, MainMenuSelection, NamedEntity, PlayerStatus,
};
use mcguffin_quest::map::GameMap;

fn e(index: u32) -> EntityId {
    EntityId { index, generation: 0 }
}

fn lit(s: &'static str) -> Text {
    Text::Literal { s }
}

#[test]
fn main_menu_moves_and_chooses() {
    let (new_game, load_game, quit) = (MainMenuSelection::NewGame, MainMenuSelection::LoadGame, MainMenuSelection::Quit);
    let ns = |s| MainMenuResult::NoSelection { selected: s };
    assert_eq!(main_menu(Some(new_game), true, Some(Key::Down)), ns(load_game));
    assert_eq!(main_menu(Some(new_game), false, Some(Key::Down)), ns(quit));
    assert_eq!(main_menu(Some(load_game), true, Some(Key::Down)), ns(quit));
    assert_eq!(main_menu(Some(quit), true, Some(Key::Down)), ns(new_game));
    assert_eq!(main_menu(Some(new_game), true, Some(Key::Up)), ns(quit));
    assert_eq!(main_menu(Some(quit), true, Some(Key::Up)), ns(load_game));
    assert_eq!(main_menu(Some(quit), false, Some(Key::Up)), ns(new_game));
    assert_eq!(main_menu(Some(load_game), true, Some(Key::Up)), ns(new_game));
    assert_eq!(main_menu(Some(load_game), true, Some(Key::Escape)), ns(quit));
    assert_eq!(main_menu(Some(load_game), true, Some(Key::Return)), MainMenuResult::Selected { selected: load_game });
    assert_eq!(main_menu(Some(quit), false, None), ns(quit));
    assert_eq!(main_menu(Some(quit), false, Some(Key::Other)), ns(quit));
    assert_eq!(main_menu(Some(quit), false, Some(Key::Letter { index: 2 })), ns(quit));
    assert_eq!(main_menu(None, true, Some(Key::Return)), ns(new_game));
}

#[test]
fn menu_never_lands_on_a_missing_save_and_up_undoes_down() {
    let (new_game, load_game, quit) = (MainMenuSelection::NewGame, MainMenuSelection::LoadGame, MainMenuSelection::Quit);
    let step = |sel, save, key| match main_menu(Some(sel), save, Some(key)) {
        MainMenuResult::NoSelection { selected } => selected,
        MainMenuResult::Selected { selected } => selected,
    };
    for sel in [new_game, quit] {
        assert_ne!(step(sel, false, Key::Up), load_game);
        assert_ne!(step(sel, false, Key::Down), load_game);
        assert_eq!(step(step(sel, false, Key::Down), false, Key::Up), sel);
        assert_eq!(step(step(sel, false, Key::Up), false, Key::Down), sel);
    }
    for sel in [new_game, load_game, quit] {
        assert_eq!(step(step(sel, true, Key::Down), true, Key::Up), sel);
        assert_eq!(step(step(sel, true, Key::Up), true, Key::Down), sel);
    }
}

#[test]
fn game_over_waits_for_any_key() {
    assert_eq!(game_over(None), GameOverResult::NoSelection);
    assert_eq!(game_over(Some(Key::Other)), GameOverResult::QuitToMenu);
    assert_eq!(game_over(Some(Key::Escape)), GameOverResult::QuitToMenu);
}

#[test]
fn text_comparison() {
    assert!(same_text("drop", "drop"));
    assert!(!same_text("drop", "drops"));
    assert!(!same_text("use", "usE"));
    assert!(same_text("", ""));
    assert!(same_text("▲/▼", "▲/▼"));
}

#[test]
fn titles_of_item_menus() {
    assert_eq!(inventory_title("drop"), (" Inventory - Drop Item ", DROP_BG));
    assert_eq!(inventory_title("use"), (" Inventory - Use Item ", INV_BG));
    assert_eq!(inventory_title("unequip"), (" Inventory - Unequip Item ", UNEQUIP_BG));
    assert_eq!(inventory_title("sell"), (" Error - Not Implemented ", ERROR_BG));
}

#[test]
fn item_menu_answers_keys() {
    let items = vec![e(4), e(5), e(6)];
    assert_eq!(inventory_choice(None, 3, &items), (ItemMenuResult::NoResponse, None));
    assert_eq!(inventory_choice(Some(Key::Escape), 3, &items), (ItemMenuResult::Cancel, None));
    assert_eq!(inventory_choice(Some(Key::Letter { index: 1 }), 3, &items), (ItemMenuResult::Selected, Some(e(5))));
    assert_eq!(inventory_choice(Some(Key::Letter { index: 3 }), 3, &items), (ItemMenuResult::NoResponse, None));
    assert_eq!(inventory_choice(Some(Key::Letter { index: -1 }), 3, &items), (ItemMenuResult::NoResponse, None));
    assert_eq!(inventory_choice(Some(Key::Return), 3, &items), (ItemMenuResult::NoResponse, None));
}

#[test]
fn frame_and_entry_drawing() {
    let cmds = inventory_frame(3, 15, 24, 31, DEFAULT_FG, INV_BG, " Inventory - Use Item ");
    assert_eq!(cmds.len(), 8);
    assert_eq!(cmds[0], DrawCommand::FillRegion { x: 15, y: 22, w: 31, h: 6, glyph: 32, fg: DEFAULT_FG, bg: INV_BG });
    assert_eq!(cmds[1], DrawCommand::HollowBox { x: 15, y: 22, w: 31, h: 6, fg: DEFAULT_FG, bg: INV_BG });
    assert_eq!(cmds[2], DrawCommand::SetCell { x: 16, y: 22, fg: DEFAULT_FG, bg: INV_BG, glyph: 180 });
    assert_eq!(cmds[3], DrawCommand::PrintColor { x: 17, y: 22, fg: INV_BG, bg: DEFAULT_FG, text: lit(" Inventory - Use Item ") });
    assert_eq!(cmds[4], DrawCommand::SetCell { x: 15 + 22 + 2, y: 22, fg: DEFAULT_FG, bg: INV_BG, glyph: 195 });
    assert_eq!(cmds[5], DrawCommand::PrintColor { x: 30, y: 28, fg: INV_BG, bg: DEFAULT_FG, text: lit(" ESC to Cancel ") });
    assert_eq!(cmds[6], DrawCommand::SetCell { x: 29, y: 28, fg: DEFAULT_FG, bg: INV_BG, glyph: 180 });
    assert_eq!(cmds[7], DrawCommand::SetCell { x: 45, y: 28, fg: DEFAULT_FG, bg: INV_BG, glyph: 195 });
    let entry = inventory_selection(17, 24, DEFAULT_FG, INV_BG, 66, 1);
    assert_eq!(
        entry,
        vec![
            DrawCommand::SetCell { x: 17, y: 24, fg: DEFAULT_FG, bg: INV_BG, glyph: 40 },
            DrawCommand::SetCell { x: 18, y: 24, fg: SEL_FG, bg: INV_BG, glyph: 66 },
            DrawCommand::SetCell { x: 19, y: 24, fg: DEFAULT_FG, bg: INV_BG, glyph: 41 },
            DrawCommand::Print { x: 21, y: 24, text: Text::Name { index: 1 } },
        ]
    );
}

#[test]
fn player_items_keep_order_and_owner() {
    let held = vec![
        HeldItem { item: e(10), owner: e(1) },
        HeldItem { item: e(11), owner: e(2) },
        HeldItem { item: e(12), owner: e(1) },
    ];
    assert_eq!(player_items(&held, e(1)), vec![e(10), e(12)]);
    assert_eq!(player_items(&held, e(2)), vec![e(11)]);
    assert!(player_items(&held, e(3)).is_empty());
}

#[test]
fn inventory_screen_lists_and_selects() {
    let player = e(1);
    let backpack = vec![
        HeldItem { item: e(10), owner: player },
        HeldItem { item: e(11), owner: e(2) },
        HeldItem { item: e(12), owner: player },
        HeldItem { item: e(13), owner: player },
    ];
    let equipped = vec![HeldItem { item: e(20), owner: player }];
    let screen = show_inventory("use", &backpack, &equipped, player, Some(Key::Letter { index: 1 }));
    assert_eq!(screen.result, ItemMenuResult::Selected);
    assert_eq!(screen.item, Some(e(12)));
    // The frame (eight commands) and three entries of four commands, from row 24.
    assert_eq!(screen.commands.len(), 8 + 3 * 4);
    assert_eq!(screen.commands[0], DrawCommand::FillRegion { x: 15, y: 22, w: 31, h: 6, glyph: 32, fg: DEFAULT_FG, bg: INV_BG });
    assert_eq!(screen.commands[8], DrawCommand::SetCell { x: 17, y: 24, fg: DEFAULT_FG, bg: INV_BG, glyph: 40 });
    assert_eq!(screen.commands[9], DrawCommand::SetCell { x: 18, y: 24, fg: SEL_FG, bg: INV_BG, glyph: 65 });
    assert_eq!(screen.commands[17], DrawCommand::SetCell { x: 18, y: 26, fg: SEL_FG, bg: INV_BG, glyph: 67 });
    assert_eq!(screen.commands[19], DrawCommand::Print { x: 21, y: 26, text: Text::Name { index: 2 } });

    let screen = show_inventory("drop", &backpack, &equipped, player, Some(Key::Escape));
    assert_eq!((screen.result, screen.item), (ItemMenuResult::Cancel, None));
    let screen = show_inventory("drop", &backpack, &equipped, player, Some(Key::Letter { index: 3 }));
    assert_eq!((screen.result, screen.item), (ItemMenuResult::NoResponse, None));
    let screen = show_inventory("drop", &backpack, &equipped, player, None);
    assert_eq!((screen.result, screen.item), (ItemMenuResult::NoResponse, None));

    // Unequip lists worn items, in a frame sized for the backpack.
    let screen = show_inventory("unequip", &backpack, &equipped, player, Some(Key::Letter { index: 0 }));
    assert_eq!((screen.result, screen.item), (ItemMenuResult::Selected, Some(e(20))));
    assert_eq!(screen.commands.len(), 8 + 4);
    assert_eq!(screen.commands[1], DrawCommand::HollowBox { x: 15, y: 22, w: 31, h: 6, fg: DEFAULT_FG, bg: UNEQUIP_BG });
}

#[test]
fn targeting_highlights_cells_in_range() {
    let player = Position { x: 10, y: 10 };
    let visible = vec![
        Position { x: 10, y: 10 },
        Position { x: 12, y: 10 },
        Position { x: 13, y: 10 },
        Position { x: 12, y: 12 },
        Position { x: 11, y: 11 },
    ];
    let v = ranged_target(Some(&visible), player, 2, Position { x: 12, y: 10 }, false);
    assert_eq!(v.highlighted, vec![Position { x: 10, y: 10 }, Position { x: 12, y: 10 }, Position { x: 11, y: 11 }]);
    assert!(v.mouse_valid);
    assert_eq!((v.result, v.target), (ItemMenuResult::NoResponse, None));
    let v = ranged_target(Some(&visible), player, 2, Position { x: 12, y: 10 }, true);
    assert_eq!((v.result, v.target), (ItemMenuResult::Selected, Some(Position { x: 12, y: 10 })));
    let v = ranged_target(Some(&visible), player, 2, Position { x: 13, y: 10 }, true);
    assert!(!v.mouse_valid);
    assert_eq!((v.result, v.target), (ItemMenuResult::Cancel, None));
    let v = ranged_target(None, player, 2, Position { x: 12, y: 10 }, true);
    assert_eq!((v.result, v.target), (ItemMenuResult::Cancel, None));
    assert!(v.highlighted.is_empty());
    let v = ranged_target(Some(&visible), player, -1, Position { x: 10, y: 10 }, true);
    assert!(v.highlighted.is_empty());
    assert_eq!(v.result, ItemMenuResult::Cancel);
}

fn tooltip_map(mouse: Position) -> GameMap {
    let mut m = GameMap::new(1);
    let idx = m.xy_idx(mouse.x, mouse.y);
    m.visible_tiles[idx] = true;
    m
}

#[test]
fn tooltips_on_the_right_half_point_right() {
    let mouse = Position { x: 50, y: 10 };
    let m = tooltip_map(mouse);
    let named = vec![
        NamedEntity { pos: mouse, name_len: 5, hidden: false },
        NamedEntity { pos: mouse, name_len: 20, hidden: true },
        NamedEntity { pos: mouse, name_len: 8, hidden: false },
        NamedEntity { pos: Position { x: 3, y: 3 }, name_len: 30, hidden: false },
    ];
    let cmds = draw_tooltips(&m, &named, mouse);
    let p = |x: i32, y: i32, text: Text| DrawCommand::PrintColor { x, y, fg: DEFAULT_FG, bg: TT_BG, text };
    let expected = vec![
        p(39, 10, Text::Name { index: 0 }),
        p(48, 10, lit(" ")),
        p(47, 10, lit(" ")),
        p(46, 10, lit(" ")),
        p(45, 10, lit(" ")),
        p(44, 10, lit(" ")),
        p(39, 11, Text::Name { index: 2 }),
        p(48, 11, lit(" ")),
        p(47, 11, lit(" ")),
        p(48, 10, lit("->")),
    ];
    assert_eq!(cmds, expected);
}

#[test]
fn tooltips_on_the_left_half_point_left() {
    let mouse = Position { x: 10, y: 5 };
    let m = tooltip_map(mouse);
    let named = vec![NamedEntity { pos: mouse, name_len: 4, hidden: false }];
    let cmds = draw_tooltips(&m, &named, mouse);
    let p = |x: i32, y: i32, text: Text| DrawCommand::PrintColor { x, y, fg: DEFAULT_FG, bg: TT_BG, text };
    assert_eq!(cmds, vec![p(14, 5, Text::Name { index: 0 }), p(12, 5, lit(" ")), p(13, 5, lit(" ")), p(11, 5, lit("<-"))]);
}

#[test]
fn no_tooltips_when_unseen_or_off_the_map() {
    let mouse = Position { x: 10, y: 5 };
    let m = GameMap::new(1);
    let named = vec![NamedEntity { pos: mouse, name_len: 4, hidden: false }];
    assert!(draw_tooltips(&m, &named, mouse).is_empty());
    let off = Position { x: 10, y: 45 };
    assert!(draw_tooltips(&tooltip_map(mouse), &vec![NamedEntity { pos: off, name_len: 4, hidden: false }], off).is_empty());
    assert!(draw_tooltips(&tooltip_map(mouse), &Vec::new(), mouse).is_empty());
}

#[test]
fn status_bar() {
    let m = GameMap::new(4);
    let players = vec![PlayerStatus { hp: 7, max_hp: 30, hunger: HungerState::WellFed }];
    let cmds = draw_ui(&m, &players, 7, Position { x: 3, y: 44 }, &Vec::new());
    let expected = vec![
        DrawCommand::FillRegion { x: 0, y: 43, w: 79, h: 49, glyph: 32, fg: DEFAULT_FG, bg: DEFAULT_BG },
        DrawCommand::HollowBox { x: 0, y: 43, w: 79, h: 6, fg: DEFAULT_FG, bg: DEFAULT_BG },
        DrawCommand::PrintColor { x: 12, y: 43, fg: DEFAULT_FG, bg: DEFAULT_BG, text: Text::Health { hp: 7, max_hp: 30 } },
        DrawCommand::BarHorizontal { x: 28, y: 43, width: 51, n: 7, max: 30, fg: HP_FG, bg: DEFAULT_BG },
        DrawCommand::PrintColor { x: 71, y: 42, fg: WF_FG, bg: DEFAULT_BG, text: lit("Well Fed") },
        DrawCommand::PrintColor { x: 2, y: 43, fg: SEL_FG, bg: DEFAULT_BG, text: Text::Depth { depth: 4 } },
        DrawCommand::Print { x: 2, y: 44, text: Text::LogEntry { index: 6 } },
        DrawCommand::Print { x: 2, y: 45, text: Text::LogEntry { index: 5 } },
        DrawCommand::Print { x: 2, y: 46, text: Text::LogEntry { index: 4 } },
        DrawCommand::Print { x: 2, y: 47, text: Text::LogEntry { index: 3 } },
        DrawCommand::Print { x: 2, y: 48, text: Text::LogEntry { index: 2 } },
        DrawCommand::SetBg { x: 3, y: 44, bg: MOUSE_BG },
    ];
    assert_eq!(cmds, expected);
    // Fewer log entries than rows; other hunger states.
    let players = vec![
        PlayerStatus { hp: 1, max_hp: 2, hunger: HungerState::Normal },
        PlayerStatus { hp: 1, max_hp: 2, hunger: HungerState::Starving },
    ];
    let cmds = draw_ui(&m, &players, 1, Position { x: 0, y: 0 }, &Vec::new());
    assert_eq!(cmds.len(), 2 + 6 + 1 + 1 + 1);
    assert_eq!(cmds[4], DrawCommand::PrintColor { x: 71, y: 42, fg: FED_FG, bg: DEFAULT_BG, text: lit("Fed") });
    assert_eq!(cmds[7], DrawCommand::PrintColor { x: 71, y: 42, fg: STARVE_FG, bg: DEFAULT_BG, text: lit("Starving") });
    assert_eq!(cmds[9], DrawCommand::Print { x: 2, y: 44, text: Text::LogEntry { index: 0 } });
}

#[test]
fn main_menu_screen_highlights_the_selection() {
    let cmds = draw_main_menu(Some(MainMenuSelection::LoadGame), true);
    assert_eq!(cmds.len(), 7);
    assert_eq!(cmds[0], DrawCommand::MenuArt { x: 0, y: 0 });
    assert_eq!(cmds[1], DrawCommand::DoubleBox { x: 2, y: 21, w: 27, h: 11, fg: TITLE_FG, bg: DEFAULT_BG });
    assert_eq!(cmds[4], DrawCommand::PrintColor { x: 5, y: 26, fg: NONSEL_FG, bg: DEFAULT_BG, text: lit("Begin New Game") });
    assert_eq!(cmds[5], DrawCommand::PrintColor { x: 5, y: 27, fg: SEL_FG, bg: DEFAULT_BG, text: lit("Load Game") });
    assert_eq!(cmds[6], DrawCommand::PrintColor { x: 5, y: 28, fg: NONSEL_FG, bg: DEFAULT_BG, text: lit("Quit") });
    let cmds = draw_main_menu(Some(MainMenuSelection::Quit), false);
    assert_eq!(cmds.len(), 6);
    assert_eq!(cmds[5], DrawCommand::PrintColor { x: 5, y: 27, fg: SEL_FG, bg: DEFAULT_BG, text: lit("Quit") });
    assert_eq!(draw_main_menu(None, true).len(), 4);
}

#[test]
fn game_over_screen() {
    let cmds = draw_game_over();
    assert_eq!(
        cmds,
        vec![
            DrawCommand::ClsBg { bg: DEFAULT_BG },
            DrawCommand::PrintColorCentered { y: 15, fg: DEATH_FG, bg: DEFAULT_BG, text: lit("You DIED!") },
            DrawCommand::PrintColorCentered { y: 17, fg: DEFAULT_FG, bg: DEFAULT_BG, text: lit("You Failed to finish your Quest.") },
            DrawCommand::PrintColorCentered { y: 19, fg: TITLE_FG, bg: DEFAULT_BG, text: lit("Press any key to return to the Menu") },
        ]
    );
}

#[test]
fn no_tooltips_left_of_the_screen() {
    let m = GameMap::new(1);
    let named = vec![NamedEntity { pos: Position { x: 4, y: 4 }, name_len: 3, hidden: false }];
    assert!(draw_tooltips(&m, &named, Position { x: -1, y: 4 }).is_empty());
    let cmds = draw_ui(&m, &Vec::new(), 0, Position { x: -1, y: 4 }, &named);
    assert_eq!(cmds.len(), 4);
}
