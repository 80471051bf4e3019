use tile_walker::anim::{animation_clips, AnimBuffer, SpriteState};
use tile_walker::app_state::{app_state_step, centered_origin, prompt_visible, AppState};

fn frame(
    buffer: &mut AnimBuffer,
    state: &mut SpriteState,
    held: (bool, bool, bool, bool),
    released: (bool, bool, bool, bool),
) {
    buffer.update(
        held.0, held.1, held.2, held.3, released.0, released.1, released.2, released.3,
    );
    state.animation_step(buffer);
}

#[test]
fn clip_table_matches_the_sprite_sheet() {
    let clips = animation_clips();
    assert_eq!(clips.len(), 5);
    assert_eq!((clips[0].row, clips[0].frames, clips[0].fps), (24, 2, 3));
    assert_eq!((clips[1].row, clips[1].frames, clips[1].fps), (8, 9, 8));
    assert_eq!((clips[2].row, clips[2].frames, clips[2].fps), (9, 9, 8));
    assert_eq!((clips[3].row, clips[3].frames, clips[3].fps), (10, 9, 8));
    assert_eq!((clips[4].row, clips[4].frames, clips[4].fps), (11, 9, 8));
}

#[test]
fn most_recently_added_direction_wins() {
    let mut buffer = AnimBuffer::new();
    let mut state = SpriteState::new();
    // W held: walkNorth
    frame(&mut buffer, &mut state, (true, false, false, false), (false, false, false, false));
    assert_eq!(state.animation, 1);
    // W and D held: walkEast, added last
    frame(&mut buffer, &mut state, (true, false, false, true), (false, false, false, false));
    assert_eq!(state.animation, 4);
    // D released while W still held: back to walkNorth
    frame(&mut buffer, &mut state, (true, false, false, false), (false, false, false, true));
    assert_eq!(state.animation, 1);
    // everything released: idle
    frame(&mut buffer, &mut state, (false, false, false, false), (true, false, false, false));
    assert_eq!(state.animation, 0);
    assert_eq!(state.frame, 0);
}

#[test]
fn switching_to_a_walking_clip_restarts_at_frame_one() {
    let mut buffer = AnimBuffer::new();
    let mut state = SpriteState::new();
    state.frame = 7;
    frame(&mut buffer, &mut state, (false, true, false, false), (false, false, false, false));
    assert_eq!(state.animation, 2);
    assert_eq!(state.frame, 1);
}

#[test]
fn walking_clips_skip_frame_zero() {
    let mut buffer = AnimBuffer::new();
    let mut state = SpriteState::new();
    frame(&mut buffer, &mut state, (false, false, true, false), (false, false, false, false));
    assert_eq!(state.animation, 3);
    // the engine's timer rolled the clip back to its first column
    state.frame = 0;
    state.animation_step(&buffer);
    assert_eq!(state.animation, 3);
    assert_eq!(state.frame, 1);
}

#[test]
fn holding_a_key_does_not_duplicate_its_code() {
    let mut buffer = AnimBuffer::new();
    buffer.update(true, false, false, false, false, false, false, false);
    buffer.update(true, false, false, false, false, false, false, false);
    assert_eq!(buffer.codes, vec![1]);
    buffer.update(true, true, false, false, false, false, false, false);
    assert_eq!(buffer.codes, vec![1, 2]);
    buffer.update(false, true, false, false, true, false, false, false);
    assert_eq!(buffer.codes, vec![2]);
}

#[test]
fn menu_confirm_starts_the_game() {
    assert_eq!(app_state_step(AppState::Menu, true), AppState::Game);
    assert_eq!(app_state_step(AppState::Menu, false), AppState::Menu);
    // nothing leaves the game, with or without the confirm key
    assert_eq!(app_state_step(AppState::Game, true), AppState::Game);
    assert_eq!(app_state_step(AppState::Game, false), AppState::Game);
}

#[test]
fn prompt_blinks_on_a_two_second_cycle() {
    assert!(prompt_visible(0));
    assert!(prompt_visible(999));
    assert!(!prompt_visible(1000));
    assert!(!prompt_visible(1999));
    assert!(prompt_visible(2000));
    assert!(!prompt_visible(3500));
    assert!(prompt_visible(10_000_400));
}

#[test]
fn greeting_is_centered_in_the_window() {
    assert_eq!(centered_origin(1200, 700, 100, 20), (550, 340));
    assert_eq!(centered_origin(1200, 700, 0, 0), (600, 350));
}
