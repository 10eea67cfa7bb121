//! The rules of a turn-based dungeon crawler: the dungeon generator, the
//! record of what the player has seen, and the state machine that resolves the
//! player's commands over the inventory, the equipment slots and the levels.

pub mod colors;
pub mod messages;
pub mod tile;
pub mod rect;
pub mod reach;
pub mod object;
pub mod random;
pub mod movement;
pub mod tables;
pub mod carve;
pub mod place;
pub mod dungeon;
pub mod game;
pub mod inventory;
pub mod visibility;
pub mod commands;
pub mod menu;
