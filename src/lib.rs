//! Gameplay rules of a small two-dimensional platformer: which platform is
//! spawned or removed next, when the player stands on ground, what a rocket
//! or a pair of arms hits, and how menus move the game between its states.
//! The engine hands these functions plain values (entity ids, integer
//! positions, key presses) and carries out what they decide.

pub mod combat;
pub mod controls;
pub mod ground;
pub mod platforms;
pub mod states;
pub mod world;

pub use combat::{
    grab_target, handle_rocket_hit, lemma_grabs_are_arms, lemma_rocket_hits_are_victims, Grabber,
    RocketTarget,
};
pub use controls::{
    jump_step, move_step, player_death, slider_sync, JumpStep, MoveStep, Movement, SliderSync,
};
pub use ground::{ground_player, lemma_landings_are_platforms, Grounding};
pub use platforms::{
    draw_platform, highest_platform, lemma_highest_unique, lemma_lowest_unique,
    lemma_removals_spare_landing, lemma_spawn_above_all, lowest_platform, next_platform_position,
    plan_platform, platforms_to_remove, starting_platform, PlacedPlatform, PlatformDraw, Position,
    MAX_PLATFORMS_FOR_SPAWN, RISE_END, RISE_MIN, SPREAD_END, SPREAD_MIN,
};
pub use states::{
    interact_system, pause_sim, toggle_pause, AppState, ButtonInteraction, ButtonResponse,
    MenuButton, PausedState, SettingsState, StateRequest,
};
pub use world::{Contact, EntityId};
