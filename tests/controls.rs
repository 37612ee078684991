use cupcake_platformer::{
    interact_system, jump_step, move_step, pause_sim, player_death, slider_sync, toggle_pause,
    AppState, ButtonInteraction, ButtonResponse, EntityId, MenuButton, MoveStep, PausedState,
    SettingsState, SliderSync, StateRequest,
};

#[test]
fn states_start_at_menu_closed_and_playing() {
    assert_eq!(AppState::default(), AppState::MainMenu);
    assert_eq!(SettingsState::default(), SettingsState::Closed);
    assert_eq!(PausedState::default(), PausedState::Playing);
}

#[test]
fn buttons_ask_for_their_changes() {
    let click = |b| interact_system(b, ButtonInteraction::Clicked);
    assert_eq!(click(MenuButton::Continue), ButtonResponse::Request(StateRequest::Paused(PausedState::Playing)));
    assert_eq!(click(MenuButton::Settings), ButtonResponse::Request(StateRequest::Settings(SettingsState::Open)));
    assert_eq!(click(MenuButton::MainMenu), ButtonResponse::Request(StateRequest::App(AppState::MainMenu)));
    assert_eq!(click(MenuButton::Play), ButtonResponse::Request(StateRequest::App(AppState::InGame)));
    assert_eq!(click(MenuButton::Back), ButtonResponse::Request(StateRequest::Settings(SettingsState::Closed)));
    assert_eq!(click(MenuButton::Exit), ButtonResponse::Request(StateRequest::Exit));
}

#[test]
fn hovering_highlights_and_leaving_draws_plain() {
    assert_eq!(interact_system(MenuButton::Play, ButtonInteraction::Hovered), ButtonResponse::Highlight);
    assert_eq!(interact_system(MenuButton::Back, ButtonInteraction::Idle), ButtonResponse::Plain);
}

#[test]
fn pause_key_toggles() {
    assert_eq!(toggle_pause(true, PausedState::Playing), vec![StateRequest::Paused(PausedState::Paused)]);
    assert_eq!(
        toggle_pause(true, PausedState::Paused),
        vec![StateRequest::Paused(PausedState::Playing), StateRequest::Settings(SettingsState::Closed)]
    );
    assert!(toggle_pause(false, PausedState::Paused).is_empty());
    assert!(toggle_pause(false, PausedState::Playing).is_empty());
}

#[test]
fn physics_stops_only_while_paused() {
    assert!(!pause_sim(PausedState::Paused));
    assert!(pause_sim(PausedState::Playing));
}

#[test]
fn movement_follows_keys() {
    let m = move_step(true, true, true);
    assert_eq!((m.step, m.stopping), (MoveStep::AccelerateLeft, false));
    let m = move_step(false, true, true);
    assert_eq!((m.step, m.stopping), (MoveStep::AccelerateRight, false));
    let m = move_step(false, false, false);
    assert_eq!((m.step, m.stopping), (MoveStep::StartStopping, true));
    let m = move_step(false, false, true);
    assert_eq!((m.step, m.stopping), (MoveStep::SlowDown, true));
}

#[test]
fn jump_needs_ground() {
    let j = jump_step(true, true);
    assert!(j.jumped && !j.grounded);
    let j = jump_step(true, false);
    assert!(!j.jumped && !j.grounded);
    let j = jump_step(false, true);
    assert!(!j.jumped && j.grounded);
}

#[test]
fn slider_loads_once_then_saves() {
    assert_eq!(slider_sync(true), SliderSync::Load);
    assert_eq!(slider_sync(false), SliderSync::Save);
}

#[test]
fn dead_player_leaves_parts_to_remove() {
    assert_eq!(player_death(false, Some(EntityId(2)), Some(EntityId(3))), vec![EntityId(2), EntityId(3)]);
    assert_eq!(player_death(false, None, Some(EntityId(3))), vec![EntityId(3)]);
    assert!(player_death(true, Some(EntityId(2)), Some(EntityId(3))).is_empty());
}
