//! The world state store: the authoritative aggregate of asteroids, flights,
//! ships, per-account resource balances and the global counters, together
//! with its mathematical model and its well-formedness invariant.

use vstd::prelude::*;

use crate::store::sl_uniq;
use crate::types::Asteroid;
use crate::types::AsteroidKind;
use crate::types::Coord;
use crate::types::Flight;
use crate::types::Starship;
use crate::types::MAP_SIZE;
use crate::types::MAX_ASTEROIDS_COUNT;
use crate::types::bonus_payout;

verus! {

/// The authoritative world state. Owned exclusively by whichever operation
/// is currently executing: exactly one tick or one direct action runs to
/// completion at a time, so no locking discipline is needed.
///
/// Each map is an association vector in insertion order with distinct keys;
/// accounts are stable unsigned identifiers supplied by the caller.
pub struct World {
    /// At most one asteroid per coordinate.
    pub asteroids: Vec<(Coord, Asteroid)>,
    /// At most one flight per account.
    pub flights: Vec<(u64, Flight)>,
    /// At most one ship per account; a ship present here is active.
    pub ships: Vec<(u64, Starship)>,
    /// Accumulated resource balance per account and kind; absent means zero.
    pub resources: Vec<((u64, AsteroidKind), u64)>,
    /// Total stake contributed to the bonus prize pool.
    pub bonus_pool: u64,
    /// Sum of payouts of all bonus asteroids currently on the grid.
    pub bonus_emitted_total: u64,
    /// Tick at which the last collectible asteroid spawned.
    pub last_bonus_spawn_tick: u64,
    /// Number of active players, kept in step with ship creation and loss.
    pub active_players: u32,
    /// Configured grid side length; defaulted when unset.
    pub map_size: Option<u32>,
    /// Configured target asteroid population; defaulted when unset.
    pub max_asteroids: Option<u32>,
    /// A plain stored value kept for the counter maintenance action.
    pub something: Option<u32>,
}

/// The mathematical model of a [`World`]: the same fields with each map
/// read as a sequence of key-value pairs.
#[verifier::ext_equal]
pub ghost struct WorldModel {
    pub asteroids: Seq<(Coord, Asteroid)>,
    pub flights: Seq<(u64, Flight)>,
    pub ships: Seq<(u64, Starship)>,
    pub resources: Seq<((u64, AsteroidKind), u64)>,
    pub bonus_pool: u64,
    pub bonus_emitted_total: u64,
    pub last_bonus_spawn_tick: u64,
    pub active_players: u32,
    pub map_size: Option<u32>,
    pub max_asteroids: Option<u32>,
    pub something: Option<u32>,
}

impl View for World {
    type V = WorldModel;

    open spec fn view(&self) -> WorldModel {
        WorldModel {
            asteroids: self.asteroids@,
            flights: self.flights@,
            ships: self.ships@,
            resources: self.resources@,
            bonus_pool: self.bonus_pool,
            bonus_emitted_total: self.bonus_emitted_total,
            last_bonus_spawn_tick: self.last_bonus_spawn_tick,
            active_players: self.active_players,
            map_size: self.map_size,
            max_asteroids: self.max_asteroids,
            something: self.something,
        }
    }
}

/// Sum of the bonus payouts of all asteroids in the sequence.
pub open spec fn bonus_sum(s: Seq<(Coord, Asteroid)>) -> int
    decreases s.len(),
{
    if s.len() == 0 {
        0
    } else {
        bonus_sum(s.drop_last()) + bonus_payout(s.last().1.kind)
    }
}

/// Every map of the world keeps its keys distinct: no two asteroids share
/// a coordinate, and an account has at most one flight, one ship, and one
/// ledger entry per kind.
pub open spec fn uniq_keys(m: WorldModel) -> bool {
    &&& sl_uniq(m.asteroids)
    &&& sl_uniq(m.flights)
    &&& sl_uniq(m.ships)
    &&& sl_uniq(m.resources)
}

/// Well-formedness of the world: distinct keys everywhere, the emitted
/// bonus total equal to the sum of payouts of the bonus asteroids
/// currently present, and an asteroid population a 32-bit count can hold.
pub open spec fn wf(m: WorldModel) -> bool {
    &&& uniq_keys(m)
    &&& m.bonus_emitted_total == bonus_sum(m.asteroids)
    &&& m.asteroids.len() <= u32::MAX
}

/// The configured grid side length, or its default.
pub open spec fn spec_map_size(m: WorldModel) -> u32 {
    match m.map_size {
        Some(s) => s,
        None => MAP_SIZE,
    }
}

/// The configured target asteroid population, or its default.
pub open spec fn spec_max_asteroids(m: WorldModel) -> u32 {
    match m.max_asteroids {
        Some(c) => c,
        None => MAX_ASTEROIDS_COUNT,
    }
}

/// Appending an asteroid grows the bonus sum by its payout.
pub proof fn lemma_bonus_sum_push(s: Seq<(Coord, Asteroid)>, c: Coord, a: Asteroid)
    ensures
        bonus_sum(s.push((c, a))) == bonus_sum(s) + bonus_payout(a.kind),
{
    assert(s.push((c, a)).drop_last() =~= s);
    assert(s.push((c, a)).last() == (c, a));
}

/// The bonus sum is never negative.
pub proof fn lemma_bonus_sum_nonneg(s: Seq<(Coord, Asteroid)>)
    ensures
        bonus_sum(s) >= 0,
    decreases s.len(),
{
    if s.len() > 0 {
        lemma_bonus_sum_nonneg(s.drop_last());
    }
}

/// Removing the asteroid at `i` lowers the bonus sum by exactly its payout.
pub proof fn lemma_bonus_sum_remove(s: Seq<(Coord, Asteroid)>, i: int)
    requires
        0 <= i < s.len(),
    ensures
        bonus_sum(s.remove(i)) == bonus_sum(s) - bonus_payout(s[i].1.kind),
    decreases s.len(),
{
    if i == s.len() - 1 {
        assert(s.remove(i) =~= s.drop_last());
    } else {
        assert(s.remove(i).drop_last() =~= s.drop_last().remove(i));
        assert(s.remove(i).last() == s.last());
        lemma_bonus_sum_remove(s.drop_last(), i);
        assert(bonus_sum(s.remove(i)) == bonus_sum(s.remove(i).drop_last()) + bonus_payout(
            s.remove(i).last().1.kind,
        ));
    }
}

impl World {
    /// A fresh world: no asteroids, flights, ships or balances, all
    /// counters at zero, and no tunable set.
    pub fn new() -> (w: World)
        ensures
            w@ == (WorldModel {
                asteroids: Seq::<(Coord, Asteroid)>::empty(),
                flights: Seq::<(u64, Flight)>::empty(),
                ships: Seq::<(u64, Starship)>::empty(),
                resources: Seq::<((u64, AsteroidKind), u64)>::empty(),
                bonus_pool: 0u64,
                bonus_emitted_total: 0u64,
                last_bonus_spawn_tick: 0u64,
                active_players: 0u32,
                map_size: None::<u32>,
                max_asteroids: None::<u32>,
                something: None::<u32>,
            }),
            wf(w@),
    {
        let w = World {
            asteroids: Vec::new(),
            flights: Vec::new(),
            ships: Vec::new(),
            resources: Vec::new(),
            bonus_pool: 0,
            bonus_emitted_total: 0,
            last_bonus_spawn_tick: 0,
            active_players: 0,
            map_size: None,
            max_asteroids: None,
            something: None,
        };
        proof {
            assert(w@ =~= WorldModel {
                asteroids: Seq::<(Coord, Asteroid)>::empty(),
                flights: Seq::<(u64, Flight)>::empty(),
                ships: Seq::<(u64, Starship)>::empty(),
                resources: Seq::<((u64, AsteroidKind), u64)>::empty(),
                bonus_pool: 0u64,
                bonus_emitted_total: 0u64,
                last_bonus_spawn_tick: 0u64,
                active_players: 0u32,
                map_size: None::<u32>,
                max_asteroids: None::<u32>,
                something: None::<u32>,
            });
        }
        w
    }

    /// The configured grid side length, or its default.
    pub fn map_size_effective(&self) -> (r: u32)
        ensures
            r == spec_map_size(self@),
    {
        match self.map_size {
            Some(s) => s,
            None => MAP_SIZE,
        }
    }

    /// The configured target asteroid population, or its default.
    pub fn max_asteroids_effective(&self) -> (r: u32)
        ensures
            r == spec_max_asteroids(self@),
    {
        match self.max_asteroids {
            Some(c) => c,
            None => MAX_ASTEROIDS_COUNT,
        }
    }
}

} // verus!
