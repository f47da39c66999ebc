//! The life cycle of the application around a game: which mode it is in and
//! how a request changes the mode.

use vstd::prelude::*;

verus! {

/// The mode of the application.
#[derive(Debug, Clone, Copy, Eq, PartialEq, Hash, Structural)]
pub enum AppState {
    /// A game is being played.
    InGame,
    /// The game is paused: the board stays, input is held back.
    Pause,
    /// No game is loaded.
    Out,
}

/// A request to bring the application into the named mode.
#[derive(Debug, Copy, Clone)]
pub struct StateEvent(pub AppState);

/// A request to load a new game once the running one has been cleared.
#[derive(Debug, Copy, Clone)]
pub struct ReloadEvent;

/// What a menu button asks for.
#[derive(Debug, Copy, Clone, Ord, PartialOrd, Eq, PartialEq, Hash)]
pub enum ButtonAction {
    /// Clear the board.
    Clear,
    /// Generate a new board.
    Generate,
    /// Pause the game, or go on with a paused one.
    Pause,
    /// Switch to another set of colours.
    SwitchTheme,
}

/// How the stack of modes is to change.
#[derive(Debug, Clone, Copy, Eq, PartialEq, Hash, Structural)]
pub enum StateChange {
    /// Leave the stack as it is.
    Keep,
    /// Put the mode in place of the one on top, leaving that one.
    Enter(AppState),
    /// Put the mode in place of the one on top without leaving that one.
    Replace(AppState),
    /// Put the mode on top of the stack.
    Push(AppState),
    /// Take the top of the stack off.
    Pop,
}

/// The answer to a request: the change of the stack and whether a reload
/// is to be asked for after it.
#[derive(Debug, Clone, Copy, Eq, PartialEq, Hash, Structural)]
pub struct Transition {
    pub change: StateChange,
    pub reload: bool,
}

/// The mode that a button asks for, if it asks for one.
pub open spec fn spec_requested_state(action: ButtonAction) -> Option<AppState> {
    match action {
        ButtonAction::Clear => Some(AppState::Out),
        ButtonAction::Generate => Some(AppState::InGame),
        ButtonAction::Pause => Some(AppState::Pause),
        ButtonAction::SwitchTheme => None,
    }
}

impl ButtonAction {
    /// The mode that the button asks for, if it asks for one.
    pub fn requested_state(&self) -> (r: Option<AppState>)
        ensures
            r == spec_requested_state(*self),
    {
        match self {
            ButtonAction::Clear => Some(AppState::Out),
            ButtonAction::Generate => Some(AppState::InGame),
            ButtonAction::Pause => Some(AppState::Pause),
            ButtonAction::SwitchTheme => None,
        }
    }
}

/// The mode that the keys pressed in one frame ask for: the key to clear
/// goes before the key to pause, and that one before the key to generate.
/// No key asks for nothing.
pub fn requested_by_keys(clear: bool, pause: bool, generate: bool) -> (r: Option<AppState>)
    ensures
        r == if clear {
            Some(AppState::Out)
        } else if pause {
            Some(AppState::Pause)
        } else if generate {
            Some(AppState::InGame)
        } else {
            None
        },
{
    if clear {
        Some(AppState::Out)
    } else if pause {
        Some(AppState::Pause)
    } else if generate {
        Some(AppState::InGame)
    } else {
        None
    }
}

/// The answer to a request for `requested` while the application is in `current`.
///
/// Asking for a game during a game clears it and asks for a reload; during a
/// pause it replaces the pause; with nothing loaded it starts one. Asking to
/// clear leaves a game or replaces a pause. Asking to pause puts the pause on
/// top of a game, and takes it off again if the game is paused already.
pub open spec fn spec_transition(current: AppState, requested: AppState) -> Transition {
    match (requested, current) {
        (AppState::InGame, AppState::InGame) => Transition {
            change: StateChange::Enter(AppState::Out),
            reload: true,
        },
        (AppState::InGame, AppState::Pause) => Transition {
            change: StateChange::Replace(AppState::InGame),
            reload: false,
        },
        (AppState::InGame, AppState::Out) => Transition {
            change: StateChange::Enter(AppState::InGame),
            reload: false,
        },
        (AppState::Out, AppState::InGame) => Transition {
            change: StateChange::Enter(AppState::Out),
            reload: false,
        },
        (AppState::Out, AppState::Pause) => Transition {
            change: StateChange::Replace(AppState::Out),
            reload: false,
        },
        (AppState::Out, AppState::Out) => Transition { change: StateChange::Keep, reload: false },
        (AppState::Pause, AppState::InGame) => Transition {
            change: StateChange::Push(AppState::Pause),
            reload: false,
        },
        (AppState::Pause, AppState::Pause) => Transition {
            change: StateChange::Pop,
            reload: false,
        },
        (AppState::Pause, AppState::Out) => Transition { change: StateChange::Keep, reload: false },
    }
}

/// Decides how the stack of modes changes when `event` arrives while the
/// application is in `current`.
pub fn state_handler(current: AppState, event: StateEvent) -> (r: Transition)
    ensures
        r == spec_transition(current, event.0),
{
    match event.0 {
        AppState::InGame => match current {
            AppState::InGame => Transition {
                change: StateChange::Enter(AppState::Out),
                reload: true,
            },
            AppState::Pause => Transition {
                change: StateChange::Replace(AppState::InGame),
                reload: false,
            },
            AppState::Out => Transition {
                change: StateChange::Enter(AppState::InGame),
                reload: false,
            },
        },
        AppState::Out => match current {
            AppState::InGame => Transition {
                change: StateChange::Enter(AppState::Out),
                reload: false,
            },
            AppState::Pause => Transition {
                change: StateChange::Replace(AppState::Out),
                reload: false,
            },
            AppState::Out => Transition { change: StateChange::Keep, reload: false },
        },
        AppState::Pause => match current {
            AppState::InGame => Transition {
                change: StateChange::Push(AppState::Pause),
                reload: false,
            },
            AppState::Pause => Transition { change: StateChange::Pop, reload: false },
            AppState::Out => Transition { change: StateChange::Keep, reload: false },
        },
    }
}

/// Answers a request to reload: a game is asked for.
pub fn reload_handler(event: ReloadEvent) -> (r: StateEvent)
    ensures
        r.0 == AppState::InGame,
{
    StateEvent(AppState::InGame)
}

/// A reload is asked for only to follow a change that clears the game, so
/// the request that the reload makes then starts a new one.
pub proof fn law_reload_starts_a_game(current: AppState, requested: AppState)
    requires
        spec_transition(current, requested).reload,
    ensures
        spec_transition(current, requested).change == StateChange::Enter(AppState::Out),
        spec_transition(AppState::Out, AppState::InGame).change == StateChange::Enter(
            AppState::InGame,
        ),
        !spec_transition(AppState::Out, AppState::InGame).reload,
{
}

} // verus!
