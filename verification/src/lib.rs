//! A small persistent-world game economy.
//!
//! Players pilot ships across a bounded grid. Asteroids of several kinds
//! spawn and expire over discrete ticks, ships fly between coordinates, and
//! collecting an asteroid grants typed resources (energy, a scoring currency,
//! a scarce pool-limited bonus currency, and collectible skin tokens) under
//! global supply constraints.
//!
//! The whole engine is a pure function of the owned [`world::World`] state,
//! the current tick number, and a reproducible random seed; every state
//! transition carries a contract that pins its result down exactly.

pub mod types;
pub mod store;
pub mod utils;
pub mod world;
pub mod engine;
pub mod actions;
pub mod tick;
pub mod laws;
