use vstd::prelude::*;

use crate::settings;
use crate::world;

verus! {

/// The main menu settles on a `GameSettings`.
pub type Settings = settings::GameSettings;

pub type SettingsScreen = settings::Screen;

pub type SettingsAction = settings::Action;

pub type GameScreen = world::Screen;

pub type GameScreenAction = world::Action;

/// The first scene: the main menu with no name typed yet.
pub fn main_menu() -> (r: settings::Screen)
    ensures
        r.name().len() == 0,
{
    settings::Screen::MainMenu { player_name: String::new() }
}

/// The scene of a game in progress.
pub fn game_world() -> (r: world::Screen)
    ensures
        r == world::Screen::GameWorld,
{
    world::Screen::GameWorld
}

} // verus!
