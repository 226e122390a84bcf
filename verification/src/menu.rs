//! What the buttons of the menu do.

use crate::state::GameState;
use vstd::prelude::*;

verus! {

/// What the pointer is doing to a button.
#[derive(Clone, Copy, Debug, PartialEq, Eq, Structural)]
pub enum Interaction {
    Pressed,
    Hovered,
    Idle,
}

/// What a button is for. A button may be for several things; when it is
/// pressed it does the first of them, in the order of the fields.
#[derive(Clone, Copy, Debug, PartialEq, Eq, Structural)]
pub struct ButtonRoles {
    /// The state of the game that the button leads to.
    pub change_state: Option<GameState>,
    /// Whether the button opens a link.
    pub open_link: bool,
    /// Whether the button quits the game.
    pub quit_game: bool,
    /// Whether the button sets the score back to zero.
    pub reset_score: bool,
}

/// What is to be done about a button.
#[derive(Clone, Copy, Debug, PartialEq, Eq, Structural)]
pub enum ButtonAction {
    /// Go to the given state of the game.
    ChangeState(GameState),
    /// Open the link of the button.
    OpenLink,
    /// Quit the game.
    Quit,
    /// Set the score back to zero.
    ResetScore,
    /// Show the button in the colour of a button under the pointer.
    ShowHovered,
    /// Show the button in its own colour.
    ShowNormal,
    /// Nothing.
    Ignore,
}

/// What is to be done about a button with `roles` when the pointer begins to
/// do `interaction` to it.
pub open spec fn button_action(interaction: Interaction, roles: ButtonRoles) -> ButtonAction {
    match interaction {
        Interaction::Pressed => {
            if roles.change_state.is_some() {
                ButtonAction::ChangeState(roles.change_state.unwrap())
            } else if roles.open_link {
                ButtonAction::OpenLink
            } else if roles.quit_game {
                ButtonAction::Quit
            } else if roles.reset_score {
                ButtonAction::ResetScore
            } else {
                ButtonAction::Ignore
            }
        },
        Interaction::Hovered => ButtonAction::ShowHovered,
        Interaction::Idle => ButtonAction::ShowNormal,
    }
}

/// Decides what is to be done about a button with `roles` when the pointer
/// begins to do `interaction` to it.
pub fn handle_button_click(interaction: Interaction, roles: &ButtonRoles) -> (action: ButtonAction)
    ensures
        action == button_action(interaction, *roles),
{
    match interaction {
        Interaction::Pressed => {
            match roles.change_state {
                Some(state) => ButtonAction::ChangeState(state),
                None => {
                    if roles.open_link {
                        ButtonAction::OpenLink
                    } else if roles.quit_game {
                        ButtonAction::Quit
                    } else if roles.reset_score {
                        ButtonAction::ResetScore
                    } else {
                        ButtonAction::Ignore
                    }
                },
            }
        },
        Interaction::Hovered => ButtonAction::ShowHovered,
        Interaction::Idle => ButtonAction::ShowNormal,
    }
}

} // verus!
