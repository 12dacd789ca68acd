use vstd::prelude::*;
use crate::components::{EntityId, Position};
use crate::gui::{GameOverResult, ItemMenuResult, MainMenuResult, MainMenuSelection};
use crate::map::{idx_of, GameMap, MapView, MAPHEIGHT, MAPWIDTH};
use crate::map_builders::SHOW_MAPGEN_VISUALIZER;

verus! {

/// The phases of the game loop, in the order a game goes through them:
/// `PreRun -> MainMenu -> MapGeneration -> AwaitingInput -> PlayerTurn <-> MonsterTurn`
/// (there is no separate character-creation phase: a new game goes from the menu
/// straight to the generation viewer).
#[derive(Clone, Copy, PartialEq, Eq, Structural, Debug)]
pub enum RunState {
    AwaitingInput,
    MonsterTurn,
    PlayerTurn,
    PreRun,
    ShowInventory,
    ShowDropItem,
    ShowTargeting { range: i32, item: EntityId },
    MainMenu { menu_sel: MainMenuSelection },
    SaveGame,
    /// Going down a level: the descent, then one run of the systems on the new level.
    NextLevel,
    ShowRemoveItem,
    GameOver,
    MagicMapReveal { row: i32 },
    MapGeneration,
    Screenshot,
}

/// What the outside work of the current phase came back with.
#[derive(Clone, Copy, PartialEq, Eq, Structural, Debug)]
pub enum StepInput {
    /// The systems ran (pre-run, player and monster turns, and after the descent of
    /// the next-level phase); `run_state` is the phase they left in the world.
    SystemsRan { run_state: RunState },
    /// The player's input gave the next phase.
    PlayerInput { next: RunState },
    /// An item menu answered; `ranged` is the range of the chosen item when it is a
    /// ranged item.
    ItemMenu { choice: ItemMenuResult, item: Option<EntityId>, ranged: Option<i32> },
    /// The targeting screen answered.
    Targeting { aim: ItemMenuResult, target: Option<Position> },
    /// The main menu answered.
    Menu { answer: MainMenuResult },
    /// The game-over screen answered.
    GameOverScreen { reply: GameOverResult },
    /// The generation viewer either finished its history or not; `then` is the phase
    /// to go to afterwards.
    MapGen { finished: bool, then: Option<RunState> },
    /// The phase's work is done (saving, descending, revealing a row).
    Done,
}

/// What the game must do after the phase changed.
#[derive(Clone, Copy, PartialEq, Eq, Structural, Debug)]
pub enum Effect {
    NoEffect,
    /// The player wants to use `item`, aimed at `target` if any.
    UseItem { item: EntityId, target: Option<Position> },
    /// The player wants to drop `item`.
    DropItem { item: EntityId },
    /// The player wants to take off `item`.
    RemoveItem { item: EntityId },
    /// Load the saved game, then delete the save.
    LoadGame,
    /// Leave the program.
    Quit,
    /// Clear the world and start a new game at depth one.
    GameOverCleanup,
}

/// The input fits the phase it answers.
pub open spec fn input_fits(rs: RunState, input: StepInput) -> bool {
    match rs {
        RunState::PreRun | RunState::PlayerTurn | RunState::MonsterTurn | RunState::NextLevel => input is SystemsRan,
        RunState::AwaitingInput => input is PlayerInput,
        RunState::ShowInventory | RunState::ShowDropItem | RunState::ShowRemoveItem => match input {
            StepInput::ItemMenu { choice, item, ranged } => choice == ItemMenuResult::Selected ==> item is Some,
            _ => false,
        },
        RunState::ShowTargeting { .. } => input is Targeting,
        RunState::MainMenu { .. } => input is Menu,
        RunState::GameOver => input is GameOverScreen,
        RunState::MapGeneration => match input {
            StepInput::MapGen { finished, then } => finished ==> then is Some,
            _ => false,
        },
        RunState::MagicMapReveal { row } => input is Done && row < i32::MAX,
        _ => input is Done,
    }
}

/// The next phase and the effect, for a phase and what its work came back with.
pub open spec fn transition(rs: RunState, input: StepInput) -> (RunState, Effect) {
    match rs {
        RunState::PreRun => (RunState::MainMenu { menu_sel: MainMenuSelection::NewGame }, Effect::NoEffect),
        RunState::AwaitingInput => (input->PlayerInput_next, Effect::NoEffect),
        RunState::PlayerTurn => match input->run_state {
            RunState::MagicMapReveal { .. } => (RunState::MagicMapReveal { row: 0 }, Effect::NoEffect),
            _ => (RunState::MonsterTurn, Effect::NoEffect),
        },
        RunState::MonsterTurn => (RunState::AwaitingInput, Effect::NoEffect),
        RunState::ShowInventory => match input->choice {
            ItemMenuResult::Cancel => (RunState::AwaitingInput, Effect::NoEffect),
            ItemMenuResult::NoResponse => (rs, Effect::NoEffect),
            ItemMenuResult::Selected => match input->ranged {
                Some(range) => (RunState::ShowTargeting { range, item: input->item->0 }, Effect::NoEffect),
                None => (RunState::PlayerTurn, Effect::UseItem { item: input->item->0, target: None }),
            },
        },
        RunState::ShowDropItem => match input->choice {
            ItemMenuResult::Cancel => (RunState::AwaitingInput, Effect::NoEffect),
            ItemMenuResult::NoResponse => (rs, Effect::NoEffect),
            ItemMenuResult::Selected => (RunState::PlayerTurn, Effect::DropItem { item: input->item->0 }),
        },
        RunState::ShowRemoveItem => match input->choice {
            ItemMenuResult::Cancel => (RunState::AwaitingInput, Effect::NoEffect),
            ItemMenuResult::NoResponse => (rs, Effect::NoEffect),
            ItemMenuResult::Selected => (RunState::PlayerTurn, Effect::RemoveItem { item: input->item->0 }),
        },
        RunState::ShowTargeting { range, item } => match input->aim {
            ItemMenuResult::Cancel => (RunState::AwaitingInput, Effect::NoEffect),
            ItemMenuResult::NoResponse => (rs, Effect::NoEffect),
            ItemMenuResult::Selected => (RunState::PlayerTurn, Effect::UseItem { item, target: input->target }),
        },
        RunState::MainMenu { .. } => match input->answer {
            MainMenuResult::NoSelection { selected } => (RunState::MainMenu { menu_sel: selected }, Effect::NoEffect),
            MainMenuResult::Selected { selected } => match selected {
                MainMenuSelection::NewGame => (RunState::MapGeneration, Effect::NoEffect),
                MainMenuSelection::LoadGame => (RunState::AwaitingInput, Effect::LoadGame),
                MainMenuSelection::Quit => (rs, Effect::Quit),
            },
        },
        RunState::GameOver => match input->reply {
            GameOverResult::NoSelection => (rs, Effect::NoEffect),
            GameOverResult::QuitToMenu => (RunState::MainMenu { menu_sel: MainMenuSelection::NewGame }, Effect::GameOverCleanup),
        },
        RunState::SaveGame => (RunState::MainMenu { menu_sel: MainMenuSelection::LoadGame }, Effect::NoEffect),
        RunState::NextLevel => (RunState::AwaitingInput, Effect::NoEffect),
        RunState::MagicMapReveal { row } => if row == MAPHEIGHT - 1 {
            (RunState::MonsterTurn, Effect::NoEffect)
        } else {
            (RunState::MagicMapReveal { row: (row + 1) as i32 }, Effect::NoEffect)
        },
        RunState::MapGeneration => if input->finished { (input->then->0, Effect::NoEffect) } else { (rs, Effect::NoEffect) },
        RunState::Screenshot => (rs, Effect::NoEffect),
    }
}

/// The next phase of the game loop and what must follow, given the current phase and
/// what its work came back with (see `transition`).
pub fn current_state(rs: RunState, input: StepInput) -> (r: (RunState, Effect))
    requires
        input_fits(rs, input),
    ensures
        r == transition(rs, input),
{
    let mut newrunstate = rs;
    let mut effect = Effect::NoEffect;
    match rs {
        RunState::PreRun => {
            newrunstate = RunState::MainMenu { menu_sel: MainMenuSelection::NewGame };
        }
        RunState::AwaitingInput => {
            if let StepInput::PlayerInput { next } = input {
                newrunstate = next;
            }
        }
        RunState::PlayerTurn => {
            if let StepInput::SystemsRan { run_state } = input {
                match run_state {
                    RunState::MagicMapReveal { .. } => newrunstate = RunState::MagicMapReveal { row: 0 },
                    _ => newrunstate = RunState::MonsterTurn,
                }
            }
        }
        RunState::MonsterTurn => {
            newrunstate = RunState::AwaitingInput;
        }
        RunState::ShowInventory => {
            if let StepInput::ItemMenu { choice, item, ranged } = input {
                match choice {
                    ItemMenuResult::Cancel => newrunstate = RunState::AwaitingInput,
                    ItemMenuResult::NoResponse => {}
                    ItemMenuResult::Selected => {
                        let item_entity = item.unwrap();
                        if let Some(range) = ranged {
                            newrunstate = RunState::ShowTargeting { range, item: item_entity };
                        } else {
                            effect = Effect::UseItem { item: item_entity, target: None };
                            newrunstate = RunState::PlayerTurn;
                        }
                    }
                }
            }
        }
        RunState::ShowDropItem => {
            if let StepInput::ItemMenu { choice, item, ranged } = input {
                match choice {
                    ItemMenuResult::Cancel => newrunstate = RunState::AwaitingInput,
                    ItemMenuResult::NoResponse => {}
                    ItemMenuResult::Selected => {
                        let item_entity = item.unwrap();
                        effect = Effect::DropItem { item: item_entity };
                        newrunstate = RunState::PlayerTurn;
                    }
                }
            }
        }
        RunState::ShowRemoveItem => {
            if let StepInput::ItemMenu { choice, item, ranged } = input {
                match choice {
                    ItemMenuResult::Cancel => newrunstate = RunState::AwaitingInput,
                    ItemMenuResult::NoResponse => {}
                    ItemMenuResult::Selected => {
                        let item_entity = item.unwrap();
                        effect = Effect::RemoveItem { item: item_entity };
                        newrunstate = RunState::PlayerTurn;
                    }
                }
            }
        }
        RunState::ShowTargeting { range, item } => {
            if let StepInput::Targeting { aim, target } = input {
                match aim {
                    ItemMenuResult::Cancel => newrunstate = RunState::AwaitingInput,
                    ItemMenuResult::NoResponse => {}
                    ItemMenuResult::Selected => {
                        effect = Effect::UseItem { item, target };
                        newrunstate = RunState::PlayerTurn;
                    }
                }
            }
        }
        RunState::MainMenu { .. } => {
            if let StepInput::Menu { answer } = input {
                match answer {
                    MainMenuResult::NoSelection { selected } => {
                        newrunstate = RunState::MainMenu { menu_sel: selected };
                    }
                    MainMenuResult::Selected { selected } => match selected {
                        MainMenuSelection::NewGame => newrunstate = RunState::MapGeneration,
                        MainMenuSelection::LoadGame => {
                            effect = Effect::LoadGame;
                            newrunstate = RunState::AwaitingInput;
                        }
                        MainMenuSelection::Quit => {
                            effect = Effect::Quit;
                        }
                    },
                }
            }
        }
        RunState::GameOver => {
            if let StepInput::GameOverScreen { reply } = input {
                match reply {
                    GameOverResult::NoSelection => {}
                    GameOverResult::QuitToMenu => {
                        effect = Effect::GameOverCleanup;
                        newrunstate = RunState::MainMenu { menu_sel: MainMenuSelection::NewGame };
                    }
                }
            }
        }
        RunState::SaveGame => {
            newrunstate = RunState::MainMenu { menu_sel: MainMenuSelection::LoadGame };
        }
        RunState::NextLevel => {
            newrunstate = RunState::AwaitingInput;
        }
        RunState::MagicMapReveal { row } => {
            if row == (MAPHEIGHT - 1) as i32 {
                newrunstate = RunState::MonsterTurn;
            } else {
                newrunstate = RunState::MagicMapReveal { row: row + 1 };
            }
        }
        RunState::MapGeneration => {
            if let StepInput::MapGen { finished, then } = input {
                if !SHOW_MAPGEN_VISUALIZER || finished {
                    newrunstate = then.unwrap();
                }
            }
        }
        RunState::Screenshot => {}
    }
    (newrunstate, effect)
}

/// Advances the generation viewer when its timer ran out: the next snapshot, and
/// whether the history is used up.
pub fn mapgen_advance(index: usize, history_len: usize, timer_expired: bool) -> (r: (usize, bool))
    requires
        index < usize::MAX,
    ensures
        timer_expired ==> r.0 == index + 1 && r.1 == (index + 1 >= history_len),
        !timer_expired ==> r.0 == index && !r.1,
{
    if timer_expired {
        let next = index + 1;
        (next, next >= history_len)
    } else {
        (index, false)
    }
}

/// The map with row `row` revealed in the first `MAPWIDTH` columns.
pub open spec fn revealed_row(m: MapView, row: int) -> MapView {
    MapView {
        revealed: Seq::new(m.revealed.len(), |i: int|
            if i / m.width == row && i % m.width < MAPWIDTH as int { true } else { m.revealed[i] }),
        ..m
    }
}

/// Reveals one row of the map, as the magic mapping scroll does row by row.
pub fn reveal_row(map: &mut GameMap, row: i32)
    requires
        old(map).wf(),
        old(map).width >= MAPWIDTH,
        0 <= row < old(map).height,
    ensures
        final(map)@ == revealed_row(old(map)@, row as int),
{
    let ghost m0 = map@;
    let w = map.width;
    let mut x: usize = 0;
    proof { assert(map.tiles@.len() == map.tiles.len()); }
    while x < MAPWIDTH
        invariant
            map.wf(),
            map@ == (MapView { revealed: map@.revealed, ..m0 }),
            w == m0.width,
            w >= MAPWIDTH,
            0 <= row < m0.height,
            x <= MAPWIDTH,
            map@.revealed.len() == m0.revealed.len(),
            m0.revealed.len() <= usize::MAX,
            forall|i: int| 0 <= i < m0.revealed.len() ==> #[trigger] map@.revealed[i] == (
                if i / (w as int) == row && i % (w as int) < x { true } else { m0.revealed[i] }),
        decreases MAPWIDTH - x,
    {
        proof {
            crate::map::lemma_idx_in_range(w as int, m0.height, x as int, row as int);
        }
        let idx = map.xy_idx(x as i32, row);
        map.revealed_tiles.set(idx, true);
        proof {
            assert forall|i: int| 0 <= i < m0.revealed.len() implies #[trigger] map@.revealed[i] == (
                if i / (w as int) == row && i % (w as int) < x + 1 { true } else { m0.revealed[i] }) by {
                crate::map::lemma_idx_unique(w as int, x as int, row as int, i);
            }
        }
        x += 1;
    }
    proof {
        assert(map@.revealed =~= revealed_row(m0, row as int).revealed);
    }
}

/// The phase after `n` more rounds of magic mapping from row `row`.
pub open spec fn after_reveals(row: int, n: nat) -> RunState
    decreases n,
{
    if n == 0 {
        RunState::MagicMapReveal { row: row as i32 }
    } else {
        match after_reveals(row, (n - 1) as nat) {
            RunState::MagicMapReveal { row: r } => transition(RunState::MagicMapReveal { row: r }, StepInput::Done).0,
            other => other,
        }
    }
}

/// Magic mapping reveals one row per round, from any row of the map down to the last
/// (`MAPHEIGHT - 1`), and then hands the turn to the monsters.
pub proof fn law_magic_mapping_completes(row: int, n: nat)
    requires
        0 <= row < MAPHEIGHT,
        n <= MAPHEIGHT - row,
    ensures
        n < MAPHEIGHT - row ==> after_reveals(row, n) == (RunState::MagicMapReveal { row: (row + n) as i32 }),
        n == MAPHEIGHT - row ==> after_reveals(row, n) == RunState::MonsterTurn,
    decreases n,
{
    if n > 0 {
        law_magic_mapping_completes(row, (n - 1) as nat);
    }
}

/// The order of the phases: the pre-run leads to the main menu, a new game from the
/// menu to the generation viewer, and the viewer, once finished, to the phase it was
/// given (waiting for input); then the monsters' turn goes back to waiting for input,
/// the player's turn leads to the monsters' turn unless the player read a magic map,
/// which starts revealing from the top row; a descent answers with a run of the
/// systems on the new level, and only then waits for input.
pub proof fn law_turn_cycle(input: StepInput)
    ensures
        transition(RunState::PreRun, input) == (RunState::MainMenu { menu_sel: MainMenuSelection::NewGame }, Effect::NoEffect),
        input == (StepInput::Menu { answer: MainMenuResult::Selected { selected: MainMenuSelection::NewGame } })
            ==> transition(RunState::MainMenu { menu_sel: MainMenuSelection::NewGame }, input).0 == RunState::MapGeneration,
        input == (StepInput::MapGen { finished: true, then: Some(RunState::AwaitingInput) })
            ==> transition(RunState::MapGeneration, input).0 == RunState::AwaitingInput,
        transition(RunState::MonsterTurn, input) == (RunState::AwaitingInput, Effect::NoEffect),
        input is SystemsRan ==> (
            transition(RunState::PlayerTurn, input).0 == RunState::MonsterTurn
            || transition(RunState::PlayerTurn, input).0 == (RunState::MagicMapReveal { row: 0 })),
        input_fits(RunState::NextLevel, input) ==> input is SystemsRan,
        input is SystemsRan ==> transition(RunState::NextLevel, input) == (RunState::AwaitingInput, Effect::NoEffect),
{
}

/// Cancelling any item menu or the targeting screen goes back to waiting for input and
/// asks for nothing; an item is only used, dropped or taken off when it was selected.
pub proof fn law_cancel_and_select(rs: RunState, input: StepInput)
    requires
        rs is ShowInventory || rs is ShowDropItem || rs is ShowRemoveItem || rs is ShowTargeting,
        input_fits(rs, input),
    ensures
        (input matches StepInput::ItemMenu { choice, .. } && choice == ItemMenuResult::Cancel)
            ==> transition(rs, input) == (RunState::AwaitingInput, Effect::NoEffect),
        (input matches StepInput::Targeting { aim, .. } && aim == ItemMenuResult::Cancel)
            ==> transition(rs, input) == (RunState::AwaitingInput, Effect::NoEffect),
        (transition(rs, input).1 is UseItem || transition(rs, input).1 is DropItem || transition(rs, input).1 is RemoveItem)
            ==> (input matches StepInput::ItemMenu { choice, .. } && choice == ItemMenuResult::Selected)
                || (input matches StepInput::Targeting { aim, .. } && aim == ItemMenuResult::Selected),
{
}


/// Magic mapping only ever reveals: every tile revealed before stays revealed, and
/// nothing but the revealed layer changes.
pub proof fn law_reveal_row_only_reveals(m: MapView, row: int, i: int)
    requires
        0 <= i < m.revealed.len(),
        m.revealed[i],
    ensures
        revealed_row(m, row).revealed[i],
        revealed_row(m, row).revealed.len() == m.revealed.len(),
        revealed_row(m, row).tiles == m.tiles,
        revealed_row(m, row).visible == m.visible,
        revealed_row(m, row).blocked == m.blocked,
{
}


/// The map after the first `k` rows were revealed, in the first `MAPWIDTH` columns.
pub open spec fn rows_revealed(m: MapView, k: int) -> MapView {
    MapView {
        revealed: Seq::new(m.revealed.len(), |i: int|
            if i / m.width < k && i % m.width < MAPWIDTH as int { true } else { m.revealed[i] }),
        ..m
    }
}

/// The map after `n` rounds of magic mapping from the top row: round `r` reveals row `r`.
pub open spec fn reveal_run(m: MapView, n: nat) -> MapView
    decreases n,
{
    if n == 0 { m } else { revealed_row(reveal_run(m, (n - 1) as nat), n - 1) }
}

/// After `k` rounds of magic mapping from the top row, the rows `0` to `k - 1` are
/// revealed and nothing else has changed.
proof fn lemma_reveal_run(m: MapView, k: nat)
    requires
        m.wf(),
    ensures
        reveal_run(m, k) == rows_revealed(m, k as int),
    decreases k,
{
    if k == 0 {
        assert forall|i: int| 0 <= i < m.revealed.len() implies #[trigger] rows_revealed(m, 0).revealed[i] == m.revealed[i] by {
            assert(i / m.width >= 0) by (nonlinear_arith) requires i >= 0, m.width > 0;
        }
        assert(reveal_run(m, k).revealed =~= rows_revealed(m, k as int).revealed);
    } else {
        lemma_reveal_run(m, (k - 1) as nat);
        assert(reveal_run(m, k).revealed =~= rows_revealed(m, k as int).revealed);
    }
}

/// Over a whole magic-mapping run, round by round: after `k` rounds the rows `0` to
/// `k - 1` are revealed and nothing else has changed; on a map of `MAPWIDTH` by
/// `MAPHEIGHT` tiles the full run of `MAPHEIGHT` rounds (the one that ends in the
/// monsters' turn, see `law_magic_mapping_completes`) reveals every tile.
pub proof fn law_magic_mapping_reveals_everything(m: MapView, k: nat)
    requires
        m.wf(),
    ensures
        reveal_run(m, k) == rows_revealed(m, k as int),
        (m.width == MAPWIDTH && m.height == MAPHEIGHT) ==> forall|i: int| 0 <= i < m.revealed.len() ==> #[trigger] reveal_run(m, MAPHEIGHT as nat).revealed[i],
{
    lemma_reveal_run(m, k);
    lemma_reveal_run(m, MAPHEIGHT as nat);
    if m.width == MAPWIDTH && m.height == MAPHEIGHT {
        assert forall|i: int| 0 <= i < m.revealed.len() implies #[trigger] reveal_run(m, MAPHEIGHT as nat).revealed[i] by {
            assert(i / m.width < MAPHEIGHT as int) by (nonlinear_arith)
                requires 0 <= i < m.width * m.height, m.width > 0, m.height == MAPHEIGHT;
            assert(i % m.width < MAPWIDTH as int) by (nonlinear_arith)
                requires m.width == MAPWIDTH, 0 <= i;
        }
    }
}


/// A menu that got no answer this frame stays open: an item menu (use, drop or take
/// off) or the targeting screen without a response keeps its phase and asks for
/// nothing, whatever else the input carries.
pub proof fn law_menus_wait_for_an_answer(rs: RunState, item: Option<EntityId>, ranged: Option<i32>, target: Option<Position>)
    ensures
        (rs is ShowInventory || rs is ShowDropItem || rs is ShowRemoveItem) ==>
            transition(rs, StepInput::ItemMenu { choice: ItemMenuResult::NoResponse, item, ranged }) == (rs, Effect::NoEffect),
        rs is ShowTargeting ==>
            transition(rs, StepInput::Targeting { aim: ItemMenuResult::NoResponse, target }) == (rs, Effect::NoEffect),
        (rs is MainMenu) ==> transition(rs, StepInput::Menu { answer: MainMenuResult::NoSelection { selected: rs->menu_sel } }) == (rs, Effect::NoEffect),
        transition(RunState::GameOver, StepInput::GameOverScreen { reply: GameOverResult::NoSelection }) == (RunState::GameOver, Effect::NoEffect),
{
}

} // verus!
