//! Simulation core of a turn-based grid roguelike: dungeon generation,
//! an occupancy index, field-of-view bookkeeping and creature decisions.

pub mod components;
pub mod dungeon;
pub mod map;
pub mod map_indexing;
pub mod monsters;
pub mod player;
pub mod random;
pub mod visibility;
pub mod rectangle;
pub mod state;

