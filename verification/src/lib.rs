//! Crafting workstations of a block-game server: the grid of input stacks, the recipes that are
//! held against it, the slot that shows the result, and the screen around them.

pub mod crafting_table_screen_handler;
pub mod inventory;
pub mod item;
pub mod laws;
pub mod matching;
pub mod pattern;
pub mod quick_move;
pub mod recipe_cache;
pub mod recipes;
pub mod result_slot;
pub mod screen_handler;
pub mod search;
pub mod workstation_screen_handler;
