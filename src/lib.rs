//! Simulation core of a wave encounter: hostile units appear on perimeter
//! tiles, walk toward a fixed anchor, and either leak into it or are frozen
//! by the player's area spell.

pub mod spawn_point;
pub mod config;
pub mod player;
pub mod spell;
pub mod matomenos;
