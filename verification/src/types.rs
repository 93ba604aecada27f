//! Core value types of the game world and the tunable constants.

use vstd::prelude::*;

verus! {

/// Energy level of a ship.
pub type Energy = u32;

/// Starting energy of a freshly launched ship.
pub const DEFAULT_ENERGY: u32 = 100;

/// Energy drained from every active ship once per tick.
pub const ENERGY_DEPLETION_RATE: u32 = 2;

/// Target asteroid population when no explicit maximum is configured.
pub const MAX_ASTEROIDS_COUNT: u32 = 30;

/// Side length of the square grid when no explicit size is configured.
pub const MAP_SIZE: u32 = 50;

/// Base number of ticks a freshly spawned asteroid stays on the grid.
pub const ASTEROID_TTL_CONST: u32 = 25;

/// Largest Manhattan distance at which a ship may collect an asteroid.
pub const RESOURCE_DISTANCE_LIMIT: u32 = 5;

/// Stake contributed to the bonus prize pool by every game start.
pub const BONUS_STAKE: u64 = 5;

/// Minimum number of ticks between two collectible asteroid spawns.
pub const COLLECTIBLE_SPAWN_COOLDOWN: u32 = 10;

/// The emitted bonus total may not reach this fraction of the prize pool:
/// a bonus asteroid spawns only while `emitted < pool / ratio`.
pub const BONUS_EMISSION_LIMIT_RATIO: u64 = 10;

/// Energy credited to a ship that collects an energy asteroid.
pub const ENERGY_ASTEROID_REWARD: u32 = 15;

/// A point on the grid. Both components are bounded by the configured
/// grid size for every coordinate the engine itself places.
#[derive(Clone, Copy, PartialEq, Eq, Structural, Debug)]
pub struct Coord {
    pub x: u32,
    pub y: u32,
}

/// The closed set of asteroid kinds.
///
/// The three bonus tiers pay out a scarce pool-limited currency in fixed
/// escalating amounts; the three collectible tiers award skin tokens ranked
/// uncommon, rare and mystical.
#[derive(Clone, Copy, PartialEq, Eq, Structural, Debug)]
pub enum AsteroidKind {
    Energy,
    Gold,
    Bonus0,
    Bonus1,
    Bonus2,
    Collectible0,
    Collectible1,
    Collectible2,
}

/// An asteroid sitting on the grid: its kind and the tick at which it expires.
#[derive(Clone, Copy, PartialEq, Eq, Structural, Debug)]
pub struct Asteroid {
    pub kind: AsteroidKind,
    pub expiry: u64,
}

/// A time-bounded relocation of a ship between two coordinates.
#[derive(Clone, Copy, PartialEq, Eq, Structural, Debug)]
pub struct Flight {
    pub from: Coord,
    pub to: Coord,
    pub start: u64,
    pub end: u64,
}

/// An active ship: its position, remaining energy and the skin it flies.
#[derive(Clone, Copy, PartialEq, Eq, Structural, Debug)]
pub struct Starship {
    pub pos: Coord,
    pub energy: Energy,
    pub skin: u32,
}

/// A notification handed to the outside world, emitted once per occurrence.
#[derive(Clone, Copy, PartialEq, Eq, Structural, Debug)]
pub enum Event {
    AsteroidSpawned { resource_id: AsteroidKind, coord: Coord },
    AsteroidRemoved { coord: Coord },
    FlightStarted { owner: u64, from: Coord, to: Coord, end: u64, skin: u32 },
    EnergyDepleted { owner: u64 },
    GameStarted { owner: u64, coord: Coord, skin: u32 },
    AsteroidCollected { owner: u64, coord: Coord, resource: AsteroidKind, amount: u32 },
}

/// Why an action was rejected. Every rejection leaves the world unchanged.
#[derive(Clone, Copy, PartialEq, Eq, Structural, Debug)]
pub enum Error {
    NoneValue,
    StorageOverflow,
}

/// True of the three bonus tiers.
pub open spec fn is_bonus(kind: AsteroidKind) -> bool {
    kind is Bonus0 || kind is Bonus1 || kind is Bonus2
}

/// True of the three collectible tiers.
pub open spec fn is_collectible(kind: AsteroidKind) -> bool {
    kind is Collectible0 || kind is Collectible1 || kind is Collectible2
}

/// Fixed payout of a bonus tier; zero for every other kind.
pub open spec fn bonus_payout(kind: AsteroidKind) -> u32 {
    match kind {
        AsteroidKind::Bonus0 => 1,
        AsteroidKind::Bonus1 => 2,
        AsteroidKind::Bonus2 => 3,
        _ => 0,
    }
}

/// Payout of a bonus asteroid: the fixed amount its tier is worth,
/// and zero for any kind outside the bonus tiers.
pub fn bonus_amount(kind: AsteroidKind) -> (amount: u32)
    ensures
        amount == bonus_payout(kind),
{
    match kind {
        AsteroidKind::Bonus0 => 1,
        AsteroidKind::Bonus1 => 2,
        AsteroidKind::Bonus2 => 3,
        _ => 0,
    }
}

} // verus!
