use bevy_pong::state::{handle_escape_key, handle_pause_key, GameState, PlayingState};

#[test]
fn play_begins_paused() {
    assert_eq!(PlayingState::default(), PlayingState::Paused);
}

#[test]
fn pause_key_flips_the_state() {
    assert_eq!(handle_pause_key(true, PlayingState::Paused), PlayingState::Playing);
    assert_eq!(handle_pause_key(true, PlayingState::Playing), PlayingState::Paused);
}

#[test]
fn pause_key_not_pressed_keeps_the_state() {
    assert_eq!(handle_pause_key(false, PlayingState::Paused), PlayingState::Paused);
    assert_eq!(handle_pause_key(false, PlayingState::Playing), PlayingState::Playing);
}

#[test]
fn pause_key_pressed_twice_restores_the_state() {
    for start in [PlayingState::Paused, PlayingState::Playing] {
        let pressed = handle_pause_key(true, start);
        assert_ne!(pressed, start);
        let released = handle_pause_key(false, pressed);
        assert_eq!(released, pressed);
        let again = handle_pause_key(true, released);
        assert_eq!(again, start);
    }
}

#[test]
fn escape_key_asks_for_the_menu() {
    assert_eq!(handle_escape_key(true), Some(GameState::Menu));
}

#[test]
fn escape_key_not_pressed_asks_for_nothing() {
    assert_eq!(handle_escape_key(false), None);
}
