//! String extraction from RPG Maker XP game data.
//!
//! The library walks the game's data (actors, items, maps, event command
//! lists, ...) and collects every piece of text that the game shows, each
//! with a location that says where it came from.

pub mod text;
pub mod model;
pub mod found;
pub mod events;
pub mod rmxp;
pub mod output;
pub mod scripts;
