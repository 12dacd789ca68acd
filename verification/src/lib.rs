//! The rules of McGuffin Quest, a dungeon crawler: the map and its generators, the
//! camera and the interface as lists of cells and drawing commands, the turn systems
//! and the game's state machine.

pub mod camera;
pub mod colors;
pub mod components;
pub mod console;
pub mod effects;
pub mod game_state;
pub mod gui;
pub mod map;
pub mod map_builders;
pub mod melee_combat_system;
pub mod monster_ai_system;
pub mod statemachine;
pub mod trigger_system;

mod outside;

pub use outside::{bresenham_line, cp437_glyph};
