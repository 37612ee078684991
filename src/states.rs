use vstd::prelude::*;

verus! {

/// Which screen the game shows.
#[derive(Clone, Copy, Debug, PartialEq, Eq, Hash, Structural)]
pub enum AppState {
    MainMenu,
    InGame,
}

impl Default for AppState {
    fn default() -> (r: AppState)
        ensures
            r == AppState::MainMenu,
    {
        AppState::MainMenu
    }
}

/// Whether the settings menu is open.
#[derive(Clone, Copy, Debug, PartialEq, Eq, Hash, Structural)]
pub enum SettingsState {
    Open,
    Closed,
}

impl Default for SettingsState {
    fn default() -> (r: SettingsState)
        ensures
            r == SettingsState::Closed,
    {
        SettingsState::Closed
    }
}

/// Whether a game in progress is paused.
#[derive(Clone, Copy, Debug, PartialEq, Eq, Hash, Structural)]
pub enum PausedState {
    Paused,
    Playing,
}

impl Default for PausedState {
    fn default() -> (r: PausedState)
        ensures
            r == PausedState::Playing,
    {
        PausedState::Playing
    }
}

/// A change that the game asks of its state machines, or of the program.
#[derive(Clone, Copy, Debug, PartialEq, Eq, Structural)]
pub enum StateRequest {
    App(AppState),
    Settings(SettingsState),
    Paused(PausedState),
    Exit,
}

/// The buttons of the menus.
#[derive(Clone, Copy, Debug, PartialEq, Eq, Hash, Structural)]
pub enum MenuButton {
    /// Resumes a paused game.
    Continue,
    /// Opens the settings menu.
    Settings,
    /// Leaves the game for the main menu.
    MainMenu,
    /// Starts a game from the main menu.
    Play,
    /// Closes the settings menu.
    Back,
    /// Ends the program.
    Exit,
}

/// What the pointer does to a button.
#[derive(Clone, Copy, Debug, PartialEq, Eq, Structural)]
pub enum ButtonInteraction {
    Clicked,
    Hovered,
    Idle,
}

/// How a button answers its interaction.
#[derive(Clone, Copy, Debug, PartialEq, Eq, Structural)]
pub enum ButtonResponse {
    /// It was clicked, and asks for this change.
    Request(StateRequest),
    /// The pointer is over it: draw it in its hover colour.
    Highlight,
    /// The pointer left it: draw it in its normal colour.
    Plain,
}

/// The change that a click on `b` asks for.
pub open spec fn click_request(b: MenuButton) -> StateRequest {
    match b {
        MenuButton::Continue => StateRequest::Paused(PausedState::Playing),
        MenuButton::Settings => StateRequest::Settings(SettingsState::Open),
        MenuButton::MainMenu => StateRequest::App(AppState::MainMenu),
        MenuButton::Play => StateRequest::App(AppState::InGame),
        MenuButton::Back => StateRequest::Settings(SettingsState::Closed),
        MenuButton::Exit => StateRequest::Exit,
    }
}

impl MenuButton {
    /// The change that a click on this button asks for.
    pub fn on_click(self) -> (r: StateRequest)
        ensures
            r == click_request(self),
    {
        match self {
            MenuButton::Continue => StateRequest::Paused(PausedState::Playing),
            MenuButton::Settings => StateRequest::Settings(SettingsState::Open),
            MenuButton::MainMenu => StateRequest::App(AppState::MainMenu),
            MenuButton::Play => StateRequest::App(AppState::InGame),
            MenuButton::Back => StateRequest::Settings(SettingsState::Closed),
            MenuButton::Exit => StateRequest::Exit,
        }
    }
}

/// How button `b` answers interaction `i`: a click asks for the button's
/// change, hovering highlights it, and anything else draws it plain.
pub fn interact_system(b: MenuButton, i: ButtonInteraction) -> (r: ButtonResponse)
    ensures
        r == match i {
            ButtonInteraction::Clicked => ButtonResponse::Request(click_request(b)),
            ButtonInteraction::Hovered => ButtonResponse::Highlight,
            ButtonInteraction::Idle => ButtonResponse::Plain,
        },
{
    match i {
        ButtonInteraction::Clicked => ButtonResponse::Request(b.on_click()),
        ButtonInteraction::Hovered => ButtonResponse::Highlight,
        ButtonInteraction::Idle => ButtonResponse::Plain,
    }
}

/// What the pause key asks for: nothing unless it was pressed; from a paused
/// game, to play again with the settings menu closed; else, to pause.
pub fn toggle_pause(pressed: bool, paused: PausedState) -> (r: Vec<StateRequest>)
    ensures
        !pressed ==> r@ == Seq::<StateRequest>::empty(),
        pressed && paused == PausedState::Paused ==> r@ == seq![
            StateRequest::Paused(PausedState::Playing),
            StateRequest::Settings(SettingsState::Closed),
        ],
        pressed && paused == PausedState::Playing ==> r@ == seq![
            StateRequest::Paused(PausedState::Paused),
        ],
{
    let mut out: Vec<StateRequest> = Vec::new();
    if pressed {
        match paused {
            PausedState::Paused => {
                out.push(StateRequest::Paused(PausedState::Playing));
                out.push(StateRequest::Settings(SettingsState::Closed));
            },
            PausedState::Playing => {
                out.push(StateRequest::Paused(PausedState::Paused));
            },
        }
    }
    assert(out@ =~= if !pressed {
        Seq::<StateRequest>::empty()
    } else if paused == PausedState::Paused {
        seq![
            StateRequest::Paused(PausedState::Playing),
            StateRequest::Settings(SettingsState::Closed),
        ]
    } else {
        seq![StateRequest::Paused(PausedState::Paused)]
    });
    out
}

/// Whether the physics step runs: in every state but a paused game.
pub fn pause_sim(paused: PausedState) -> (r: bool)
    ensures
        r == (paused != PausedState::Paused),
{
    match paused {
        PausedState::Paused => false,
        PausedState::Playing => true,
    }
}

} // verus!
