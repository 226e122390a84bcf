//! The two states that decide what runs: whether the game is being played at
//! all, and whether play is paused.

use vstd::prelude::*;

verus! {

/// Whether the menu is up or the game is being played.
#[derive(Clone, Copy, Debug, PartialEq, Eq, Structural)]
pub enum GameState {
    Menu,
    Playing,
}

/// Whether play is paused. Nothing on the court moves while it is.
#[derive(Clone, Copy, Debug, PartialEq, Eq, Structural)]
pub enum PlayingState {
    Paused,
    Playing,
}

impl PlayingState {
    /// The other state.
    pub open spec fn toggled(self) -> PlayingState {
        match self {
            PlayingState::Paused => PlayingState::Playing,
            PlayingState::Playing => PlayingState::Paused,
        }
    }
}

impl Default for PlayingState {
    /// Play begins paused.
    fn default() -> (state: PlayingState)
        ensures
            state == PlayingState::Paused,
    {
        PlayingState::Paused
    }
}

/// The state of play after the pause key has been looked at: the other state
/// if the key went down in this tick, the same state if it did not.
pub open spec fn after_pause_key(current: PlayingState, just_pressed: bool) -> PlayingState {
    if just_pressed {
        current.toggled()
    } else {
        current
    }
}

/// The state of the game that the escape key asks for: the menu if the key
/// went down in this tick, none if it did not.
pub open spec fn after_escape_key(just_pressed: bool) -> Option<GameState> {
    if just_pressed {
        Some(GameState::Menu)
    } else {
        None
    }
}

/// Pressing the pause key, letting go of it and pressing it again leaves the
/// state of play as it was.
pub proof fn lemma_pause_twice(current: PlayingState)
    ensures
        after_pause_key(after_pause_key(after_pause_key(current, true), false), true) == current,
        current.toggled().toggled() == current,
        current.toggled() != current,
{
}

/// Looks at the pause key and gives the state of play that follows.
pub fn handle_pause_key(just_pressed: bool, current: PlayingState) -> (next: PlayingState)
    ensures
        next == after_pause_key(current, just_pressed),
{
    if just_pressed {
        match current {
            PlayingState::Paused => PlayingState::Playing,
            PlayingState::Playing => PlayingState::Paused,
        }
    } else {
        current
    }
}

/// Looks at the escape key and gives the state of the game that it asks for,
/// if any.
pub fn handle_escape_key(just_pressed: bool) -> (request: Option<GameState>)
    ensures
        request == after_escape_key(just_pressed),
{
    if just_pressed {
        Some(GameState::Menu)
    } else {
        None
    }
}

} // verus!
