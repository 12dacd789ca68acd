use mcguffin_quest::components::{EntityId, Position};
use mcguffin_quest::effects::TurnEffects;
use mcguffin_quest::game_state::{descent_hp, entities_to_remove_on_level_change, goto_next_level, next_depth, Descent, EntityRecord};
use mcguffin_quest::gui::{GameOverResult, ItemMenuResult, MainMenuResult, MainMenuSelection};
use mcguffin_quest::map::GameMap;
use mcguffin_quest::statemachine::{current_state, mapgen_advance, reveal_row, Effect, RunState, StepInput};

fn e(index: u32) -> EntityId {
    EntityId { index, generation: 0 }
}

fn menu(choice: ItemMenuResult, item: Option<EntityId>, ranged: Option<i32>) -> StepInput {
    StepInput::ItemMenu { choice, item, ranged }
}

#[test]
fn turn_cycle() {
    let ran = |rs| StepInput::SystemsRan { run_state: rs };
    assert_eq!(
        current_state(RunState::PreRun, ran(RunState::PreRun)),
        (RunState::MainMenu { menu_sel: MainMenuSelection::NewGame }, Effect::NoEffect)
    );
    assert_eq!(current_state(RunState::PlayerTurn, ran(RunState::PlayerTurn)), (RunState::MonsterTurn, Effect::NoEffect));
    assert_eq!(
        current_state(RunState::PlayerTurn, ran(RunState::MagicMapReveal { row: 17 })),
        (RunState::MagicMapReveal { row: 0 }, Effect::NoEffect)
    );
    assert_eq!(current_state(RunState::MonsterTurn, ran(RunState::MonsterTurn)), (RunState::AwaitingInput, Effect::NoEffect));
    assert_eq!(
        current_state(RunState::AwaitingInput, StepInput::PlayerInput { next: RunState::ShowInventory }),
        (RunState::ShowInventory, Effect::NoEffect)
    );
    assert_eq!(
        current_state(RunState::NextLevel, ran(RunState::NextLevel)),
        (RunState::AwaitingInput, Effect::NoEffect)
    );
    assert_eq!(
        current_state(RunState::SaveGame, StepInput::Done),
        (RunState::MainMenu { menu_sel: MainMenuSelection::LoadGame }, Effect::NoEffect)
    );
    assert_eq!(current_state(RunState::Screenshot, StepInput::Done), (RunState::Screenshot, Effect::NoEffect));
}

#[test]
fn item_menus() {
    let item = e(5);
    assert_eq!(current_state(RunState::ShowInventory, menu(ItemMenuResult::Cancel, None, None)), (RunState::AwaitingInput, Effect::NoEffect));
    assert_eq!(current_state(RunState::ShowInventory, menu(ItemMenuResult::NoResponse, None, None)), (RunState::ShowInventory, Effect::NoEffect));
    assert_eq!(
        current_state(RunState::ShowInventory, menu(ItemMenuResult::Selected, Some(item), None)),
        (RunState::PlayerTurn, Effect::UseItem { item, target: None })
    );
    assert_eq!(
        current_state(RunState::ShowInventory, menu(ItemMenuResult::Selected, Some(item), Some(6))),
        (RunState::ShowTargeting { range: 6, item }, Effect::NoEffect)
    );
    assert_eq!(
        current_state(RunState::ShowDropItem, menu(ItemMenuResult::Selected, Some(item), None)),
        (RunState::PlayerTurn, Effect::DropItem { item })
    );
    assert_eq!(current_state(RunState::ShowDropItem, menu(ItemMenuResult::Cancel, None, None)), (RunState::AwaitingInput, Effect::NoEffect));
    assert_eq!(
        current_state(RunState::ShowRemoveItem, menu(ItemMenuResult::Selected, Some(item), None)),
        (RunState::PlayerTurn, Effect::RemoveItem { item })
    );
    assert_eq!(current_state(RunState::ShowRemoveItem, menu(ItemMenuResult::NoResponse, None, None)), (RunState::ShowRemoveItem, Effect::NoEffect));
    let targeting = RunState::ShowTargeting { range: 6, item };
    let target = Position { x: 3, y: 4 };
    assert_eq!(
        current_state(targeting, StepInput::Targeting { aim: ItemMenuResult::Selected, target: Some(target) }),
        (RunState::PlayerTurn, Effect::UseItem { item, target: Some(target) })
    );
    assert_eq!(
        current_state(targeting, StepInput::Targeting { aim: ItemMenuResult::Cancel, target: None }),
        (RunState::AwaitingInput, Effect::NoEffect)
    );
    assert_eq!(
        current_state(targeting, StepInput::Targeting { aim: ItemMenuResult::NoResponse, target: None }),
        (targeting, Effect::NoEffect)
    );
}

#[test]
fn menus_and_game_over() {
    let mm = RunState::MainMenu { menu_sel: MainMenuSelection::NewGame };
    let answer = |a| StepInput::Menu { answer: a };
    assert_eq!(
        current_state(mm, answer(MainMenuResult::NoSelection { selected: MainMenuSelection::Quit })),
        (RunState::MainMenu { menu_sel: MainMenuSelection::Quit }, Effect::NoEffect)
    );
    assert_eq!(
        current_state(mm, answer(MainMenuResult::Selected { selected: MainMenuSelection::NewGame })),
        (RunState::MapGeneration, Effect::NoEffect)
    );
    assert_eq!(
        current_state(mm, answer(MainMenuResult::Selected { selected: MainMenuSelection::LoadGame })),
        (RunState::AwaitingInput, Effect::LoadGame)
    );
    assert_eq!(current_state(mm, answer(MainMenuResult::Selected { selected: MainMenuSelection::Quit })), (mm, Effect::Quit));
    assert_eq!(
        current_state(RunState::GameOver, StepInput::GameOverScreen { reply: GameOverResult::NoSelection }),
        (RunState::GameOver, Effect::NoEffect)
    );
    assert_eq!(
        current_state(RunState::GameOver, StepInput::GameOverScreen { reply: GameOverResult::QuitToMenu }),
        (RunState::MainMenu { menu_sel: MainMenuSelection::NewGame }, Effect::GameOverCleanup)
    );
}

#[test]
fn map_generation_viewer() {
    assert_eq!(
        current_state(RunState::MapGeneration, StepInput::MapGen { finished: false, then: Some(RunState::PreRun) }),
        (RunState::MapGeneration, Effect::NoEffect)
    );
    assert_eq!(
        current_state(RunState::MapGeneration, StepInput::MapGen { finished: true, then: Some(RunState::PreRun) }),
        (RunState::PreRun, Effect::NoEffect)
    );
    assert_eq!(mapgen_advance(3, 10, false), (3, false));
    assert_eq!(mapgen_advance(3, 10, true), (4, false));
    assert_eq!(mapgen_advance(9, 10, true), (10, true));
    assert_eq!(mapgen_advance(0, 0, true), (1, true));
}

#[test]
fn magic_mapping_reveals_row_by_row_then_monsters_move() {
    let mut rs = RunState::MagicMapReveal { row: 0 };
    let mut map = GameMap::new(1);
    let mut rounds = 0;
    while let RunState::MagicMapReveal { row } = rs {
        reveal_row(&mut map, row);
        let (next, effect) = current_state(rs, StepInput::Done);
        assert_eq!(effect, Effect::NoEffect);
        rs = next;
        rounds += 1;
    }
    assert_eq!(rounds, 43);
    assert_eq!(rs, RunState::MonsterTurn);
    assert!(map.revealed_tiles.iter().all(|r| *r));
}

#[test]
fn revealing_one_row() {
    let mut map = GameMap::new(1);
    reveal_row(&mut map, 5);
    for (i, r) in map.revealed_tiles.iter().enumerate() {
        assert_eq!(*r, i / 80 == 5);
    }
    assert!(map.visible_tiles.iter().all(|v| !*v));
}

#[test]
fn level_change_keeps_the_player_and_belongings() {
    let player = e(1);
    let records = vec![
        EntityRecord { entity: player, is_player: true, backpack_owner: None, equipped_owner: None },
        EntityRecord { entity: e(2), is_player: false, backpack_owner: Some(player), equipped_owner: None },
        EntityRecord { entity: e(3), is_player: false, backpack_owner: None, equipped_owner: None },
        EntityRecord { entity: e(4), is_player: false, backpack_owner: None, equipped_owner: Some(player) },
        EntityRecord { entity: e(5), is_player: false, backpack_owner: Some(e(9)), equipped_owner: None },
        EntityRecord { entity: e(6), is_player: false, backpack_owner: None, equipped_owner: Some(e(9)) },
    ];
    assert_eq!(entities_to_remove_on_level_change(&records, player), vec![e(3), e(5), e(6)]);
    assert!(entities_to_remove_on_level_change(&Vec::new(), player).is_empty());
}

#[test]
fn descending_heals_to_half() {
    assert_eq!(descent_hp(3, 10), 5);
    assert_eq!(descent_hp(7, 10), 7);
    assert_eq!(descent_hp(2, 5), 2);
    assert_eq!(descent_hp(1, 5), 2);
    assert_eq!(descent_hp(-4, 7), 3);
    assert_eq!(next_depth(1), 2);
    assert_eq!(next_depth(-1), 0);
}

#[test]
fn a_game_runs_from_the_pre_run_through_the_menu_and_the_viewer() {
    let (rs, _) = current_state(RunState::PreRun, StepInput::SystemsRan { run_state: RunState::PreRun });
    assert_eq!(rs, RunState::MainMenu { menu_sel: MainMenuSelection::NewGame });
    let (rs, _) = current_state(rs, StepInput::Menu { answer: MainMenuResult::Selected { selected: MainMenuSelection::NewGame } });
    assert_eq!(rs, RunState::MapGeneration);
    let (rs, _) = current_state(rs, StepInput::MapGen { finished: true, then: Some(RunState::AwaitingInput) });
    assert_eq!(rs, RunState::AwaitingInput);
    let (rs, _) = current_state(rs, StepInput::PlayerInput { next: RunState::PlayerTurn });
    let (rs, _) = current_state(rs, StepInput::SystemsRan { run_state: RunState::PlayerTurn });
    assert_eq!(rs, RunState::MonsterTurn);
    let (rs, _) = current_state(rs, StepInput::SystemsRan { run_state: RunState::MonsterTurn });
    assert_eq!(rs, RunState::AwaitingInput);
}

#[test]
fn descending_deletes_logs_and_heals() {
    let player = e(1);
    let records = vec![
        EntityRecord { entity: player, is_player: true, backpack_owner: None, equipped_owner: None },
        EntityRecord { entity: e(2), is_player: false, backpack_owner: None, equipped_owner: None },
        EntityRecord { entity: e(3), is_player: false, backpack_owner: Some(player), equipped_owner: None },
    ];
    let mut fx = TurnEffects::new();
    fx.log.push("Welcome to MQ".to_string());
    let d = goto_next_level(&records, player, 3, 4, 30, &mut fx);
    assert_eq!(d, Descent { depth: 4, hp: 15 });
    assert_eq!(fx.deleted, vec![e(2)]);
    assert_eq!(fx.log, vec!["Welcome to MQ".to_string(), "You descend to the next level, and take a moment to heal.".to_string()]);
    assert!(fx.suffer_damage.is_empty() && fx.unhidden.is_empty() && fx.particles.is_empty());
}
