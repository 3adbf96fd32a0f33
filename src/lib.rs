//! The logic of a turn-based roguelike: map generation, the objects of a
//! game and how their actions resolve, monster behaviour, the refresh that
//! follows each move, and a stack of scenes driven by input events. Drawing,
//! keyboard input and field-of-view computation are left to the caller.

pub mod ai;
pub mod colors;
pub mod command_line;
pub mod dungeon;
pub mod game;
pub mod geometry;
pub mod items;
pub mod menu;
pub mod messages;
pub mod rng;
pub mod scene;
pub mod scenes;
pub mod settings;
pub mod targeting;
pub mod text;
pub mod world;
