use vstd::prelude::*;

verus! {

/// The application's top-level states. `AnimationTest` is a diagnostic
/// state that no transition enters.
#[derive(Clone, Copy, PartialEq, Eq, Structural, Debug)]
pub enum AppState {
    Menu,
    Game,
    AnimationTest,
}

pub open spec fn app_state_step_spec(s: AppState, confirm_held: bool) -> AppState {
    match s {
        AppState::Menu => if confirm_held {
            AppState::Game
        } else {
            AppState::Menu
        },
        AppState::Game => AppState::Game,
        AppState::AnimationTest => AppState::AnimationTest,
    }
}

/// One frame of the state machine: holding the confirm key in the menu
/// starts the game; nothing ever leaves the game.
pub fn app_state_step(s: AppState, confirm_held: bool) -> (r: AppState)
    ensures
        r == app_state_step_spec(s, confirm_held),
        s == AppState::Menu && confirm_held ==> r == AppState::Game,
        s == AppState::Menu && !confirm_held ==> r == AppState::Menu,
        s == AppState::Game ==> r == AppState::Game,
        s != AppState::AnimationTest ==> r != AppState::AnimationTest,
{
    match s {
        AppState::Menu => if confirm_held {
            AppState::Game
        } else {
            AppState::Menu
        },
        AppState::Game => AppState::Game,
        AppState::AnimationTest => AppState::AnimationTest,
    }
}

/// State reached after a whole sequence of frames, one confirm-key sample
/// per frame.
pub open spec fn run_app_state(s: AppState, inputs: Seq<bool>) -> AppState
    decreases inputs.len(),
{
    if inputs.len() == 0 {
        s
    } else {
        run_app_state(app_state_step_spec(s, inputs[0]), inputs.drop_first())
    }
}

/// Once the game has started, every further input sequence leaves the
/// state machine in the game.
pub proof fn lemma_game_is_terminal(inputs: Seq<bool>)
    ensures
        run_app_state(AppState::Game, inputs) == AppState::Game,
    decreases inputs.len(),
{
    if inputs.len() > 0 {
        lemma_game_is_terminal(inputs.drop_first());
    }
}

/// From any state other than the diagnostic one — in particular from the
/// initial menu — no input sequence ever reaches `AnimationTest`.
pub proof fn lemma_animation_test_unreachable(s: AppState, inputs: Seq<bool>)
    requires
        s != AppState::AnimationTest,
    ensures
        run_app_state(s, inputs) != AppState::AnimationTest,
    decreases inputs.len(),
{
    if inputs.len() > 0 {
        lemma_animation_test_unreachable(app_state_step_spec(s, inputs[0]), inputs.drop_first());
    }
}

/// The menu's action prompt blinks on a two-second wall-clock cycle:
/// visible during the first second, hidden during the second.
pub fn prompt_visible(time_ms: u64) -> (r: bool)
    ensures
        r == (time_ms % 2000 < 1000),
{
    time_ms % 2000 < 1000
}

/// Top-left corner at which a box of the given measured size is drawn
/// centered in the window.
pub fn centered_origin(screen_w: i64, screen_h: i64, text_w: i64, text_h: i64) -> (r: (i64, i64))
    requires
        0 <= screen_w <= 0x40000000,
        0 <= screen_h <= 0x40000000,
        0 <= text_w <= 0x40000000,
        0 <= text_h <= 0x40000000,
    ensures
        r.0 == screen_w / 2 - text_w / 2,
        r.1 == screen_h / 2 - text_h / 2,
{
    (screen_w / 2 - text_w / 2, screen_h / 2 - text_h / 2)
}

} // verus!
