//! The externally triggered actions: starting a game, starting a flight,
//! attempting a direct collection, the counter maintenance action and the
//! administrative setters. Every action either completes fully or is
//! rejected before any mutation; no partially applied state is observable.
//!
//! Identity of the acting account is the caller's concern: every action
//! arrives already validated and attributed to a stable account identifier.

use vstd::prelude::*;

use crate::engine::collect_model;
use crate::engine::collect_asteroid;
use crate::store::find_res_key;
use crate::store::find_u64_key;
use crate::store::sl_get;
use crate::store::sl_has;
use crate::types::AsteroidKind;
use crate::types::Coord;
use crate::types::Error;
use crate::types::Event;
use crate::types::Flight;
use crate::types::Starship;
use crate::types::BONUS_STAKE;
use crate::types::DEFAULT_ENERGY;
use crate::types::RESOURCE_DISTANCE_LIMIT;
use crate::utils::get_distance;
use crate::utils::spec_distance;
use crate::world::World;
use crate::world::WorldModel;
use crate::world::spec_map_size;
use crate::world::uniq_keys;

verus! {

/// A flight may start only for an account that has no flight under way and
/// an active ship to fly.
pub open spec fn start_flight_allowed(m: WorldModel, user: u64) -> bool {
    &&& !sl_has(m.flights, user)
    &&& sl_has(m.ships, user)
}

/// The successful flight start: a flight from the ship's position to
/// `coord`, taking off now and arriving one tick later, and its
/// notification carrying the ship's skin for the presentation layer.
pub open spec fn start_flight_model(m: WorldModel, user: u64, coord: Coord, now: u64) -> (
    WorldModel,
    Seq<Event>,
) {
    let ship = sl_get(m.ships, user)->Some_0;
    let fl = Flight { from: ship.pos, to: coord, start: now, end: (now + 1) as u64 };
    (
        WorldModel { flights: m.flights.push((user, fl)), ..m },
        seq![
            Event::FlightStarted {
                owner: user,
                from: ship.pos,
                to: coord,
                end: (now + 1) as u64,
                skin: ship.skin,
            },
        ],
    )
}

/// A direct collection is eligible only for an account with no flight under
/// way, an active ship, and the target within the configured distance limit
/// of that ship.
pub open spec fn try_collect_allowed(m: WorldModel, user: u64, coord: Coord) -> bool {
    &&& !sl_has(m.flights, user)
    &&& sl_has(m.ships, user)
    &&& spec_distance(sl_get(m.ships, user)->Some_0.pos, coord) <= RESOURCE_DISTANCE_LIMIT
}

/// The collectible tier a nonzero skin identifier stands for, if any.
pub open spec fn skin_kind(skin: u32) -> Option<AsteroidKind> {
    if skin == 5 {
        Some(AsteroidKind::Collectible0)
    } else if skin == 6 {
        Some(AsteroidKind::Collectible1)
    } else if skin == 7 {
        Some(AsteroidKind::Collectible2)
    } else {
        None
    }
}

/// The accumulated balance of `kind` held by `user`; absent means zero.
pub open spec fn res_balance(m: WorldModel, user: u64, kind: AsteroidKind) -> u64 {
    match sl_get(m.resources, (user, kind)) {
        Some(n) => n,
        None => 0,
    }
}

/// A game may start only for an account without a ship, at a coordinate
/// within the grid, and with a skin the account owns: zero means no skin,
/// and any other identifier must name a collectible tier of which the
/// account holds at least one token.
pub open spec fn start_game_allowed(m: WorldModel, user: u64, coord: Coord, skin: u32) -> bool {
    &&& !sl_has(m.ships, user)
    &&& coord.x < spec_map_size(m)
    &&& coord.y < spec_map_size(m)
    &&& (skin == 0 || {
        &&& skin_kind(skin) is Some
        &&& res_balance(m, user, skin_kind(skin)->Some_0) > 0
    })
}

/// The successful game start: a fresh ship with full energy at `coord`,
/// the fixed stake contributed to the bonus prize pool, one more active
/// player, and the start notification.
pub open spec fn start_game_model(m: WorldModel, user: u64, coord: Coord, skin: u32) -> (
    WorldModel,
    Seq<Event>,
) {
    (
        WorldModel {
            ships: m.ships.push((user, Starship { pos: coord, energy: DEFAULT_ENERGY, skin })),
            bonus_pool: m.bonus_pool.saturating_add(BONUS_STAKE),
            active_players: m.active_players.saturating_add(1),
            ..m
        },
        seq![Event::GameStarted { owner: user, coord, skin }],
    )
}

/// Every ship reset to full energy at the origin, all flights cleared.
pub open spec fn admin_reset_model(m: WorldModel) -> WorldModel {
    WorldModel {
        ships: Seq::new(
            m.ships.len(),
            |i: int|
                (
                    m.ships[i].0,
                    Starship {
                        pos: Coord { x: 0, y: 0 },
                        energy: DEFAULT_ENERGY,
                        skin: m.ships[i].1.skin,
                    },
                ),
        ),
        flights: Seq::<(u64, Flight)>::empty(),
        ..m
    }
}

impl World {
    /// Starts a flight for `user` from its ship's position to `coord`,
    /// taking off at the current tick and arriving one tick later.
    /// Rejected, with nothing changed, if the account already has a flight
    /// under way or has no active ship.
    pub fn start_flight(
        &mut self,
        user: u64,
        coord: Coord,
        now: u64,
        events: &mut Vec<Event>,
    ) -> (r: Result<(), Error>)
        requires
            uniq_keys(old(self)@),
            now < u64::MAX,
        ensures
            r is Ok <==> start_flight_allowed(old(self)@, user),
            start_flight_allowed(old(self)@, user) ==> {
                &&& final(self)@ == start_flight_model(old(self)@, user, coord, now).0
                &&& final(events)@ == old(events)@ + start_flight_model(old(self)@, user, coord, now).1
            },
            !start_flight_allowed(old(self)@, user) ==> {
                &&& r == Err::<(), Error>(Error::NoneValue)
                &&& final(self)@ == old(self)@
                &&& final(events)@ == old(events)@
            },
    {
        if find_u64_key(&self.flights, user).is_some() {
            return Err(Error::NoneValue);
        }
        let ship = match find_u64_key(&self.ships, user) {
            None => {
                return Err(Error::NoneValue);
            },
            Some(j) => self.ships[j].1,
        };
        let end = now + 1;
        self.flights.push((user, Flight { from: ship.pos, to: coord, start: now, end }));
        events.push(
            Event::FlightStarted { owner: user, from: ship.pos, to: coord, end, skin: ship.skin },
        );
        proof {
            assert(final(self)@ =~= start_flight_model(old(self)@, user, coord, now).0);
            assert(final(events)@ =~= old(events)@ + start_flight_model(
                old(self)@,
                user,
                coord,
                now,
            ).1);
        }
        Ok(())
    }

    /// Increments the stored counter value. Rejected when no value has been
    /// set, and when the increment would overflow the counter.
    pub fn cause_error(&mut self) -> (r: Result<(), Error>)
        ensures
            match old(self).something {
                None => r == Err::<(), Error>(Error::NoneValue) && final(self)@ == old(self)@,
                Some(v) => {
                    if v == u32::MAX {
                        r == Err::<(), Error>(Error::StorageOverflow) && final(self)@ == old(self)@
                    } else {
                        r is Ok && final(self)@ == (WorldModel {
                            something: Some((v + 1) as u32),
                            ..old(self)@
                        })
                    }
                },
            },
    {
        match self.something {
            None => Err(Error::NoneValue),
            Some(v) => {
                if v == u32::MAX {
                    Err(Error::StorageOverflow)
                } else {
                    self.something = Some(v + 1);
                    proof {
                        assert(final(self)@ =~= (WorldModel {
                            something: Some((v + 1) as u32),
                            ..old(self)@
                        }));
                    }
                    Ok(())
                }
            },
        }
    }

    /// Attempts a direct collection at `coord` by `user`. Rejected, with
    /// nothing changed, while the account's ship is in flight, when it has
    /// no active ship, or when the target is farther from the ship than the
    /// configured distance limit; otherwise the shared collection routine
    /// runs unconditionally.
    pub fn try_to_collect_resource(
        &mut self,
        user: u64,
        coord: Coord,
        events: &mut Vec<Event>,
    ) -> (r: Result<(), Error>)
        requires
            uniq_keys(old(self)@),
        ensures
            r is Ok <==> try_collect_allowed(old(self)@, user, coord),
            try_collect_allowed(old(self)@, user, coord) ==> {
                &&& final(self)@ == collect_model(old(self)@, user, coord).0
                &&& final(events)@ == old(events)@ + collect_model(old(self)@, user, coord).1
            },
            !try_collect_allowed(old(self)@, user, coord) ==> {
                &&& r == Err::<(), Error>(Error::NoneValue)
                &&& final(self)@ == old(self)@
                &&& final(events)@ == old(events)@
            },
            uniq_keys(final(self)@),
    {
        proof {
            crate::engine::lemma_collect_model_uniq(old(self)@, user, coord);
        }
        if find_u64_key(&self.flights, user).is_some() {
            return Err(Error::NoneValue);
        }
        let ship = match find_u64_key(&self.ships, user) {
            None => {
                return Err(Error::NoneValue);
            },
            Some(j) => self.ships[j].1,
        };
        let dx = if ship.pos.x >= coord.x {
            ship.pos.x - coord.x
        } else {
            coord.x - ship.pos.x
        };
        let dy = if ship.pos.y >= coord.y {
            ship.pos.y - coord.y
        } else {
            coord.y - ship.pos.y
        };
        if dx > RESOURCE_DISTANCE_LIMIT || dy > RESOURCE_DISTANCE_LIMIT {
            return Err(Error::NoneValue);
        }
        let distance = get_distance(ship.pos, coord);
        if distance > RESOURCE_DISTANCE_LIMIT {
            return Err(Error::NoneValue);
        }
        collect_asteroid(self, user, coord, events);
        Ok(())
    }

    /// Starts the game for `user`: places a fresh ship with full energy at
    /// `coord` flying the chosen skin, contributes the fixed stake to the
    /// bonus prize pool, and counts one more active player. Rejected, with
    /// nothing changed, if the account already has a ship, the coordinate
    /// lies outside the grid, or a nonzero skin is not a collectible tier
    /// the account holds.
    pub fn start_game(
        &mut self,
        user: u64,
        coord: Coord,
        skin: u32,
        events: &mut Vec<Event>,
    ) -> (r: Result<(), Error>)
        requires
            uniq_keys(old(self)@),
        ensures
            r is Ok <==> start_game_allowed(old(self)@, user, coord, skin),
            start_game_allowed(old(self)@, user, coord, skin) ==> {
                &&& final(self)@ == start_game_model(old(self)@, user, coord, skin).0
                &&& final(events)@ == old(events)@ + start_game_model(old(self)@, user, coord, skin).1
            },
            !start_game_allowed(old(self)@, user, coord, skin) ==> {
                &&& r == Err::<(), Error>(Error::NoneValue)
                &&& final(self)@ == old(self)@
                &&& final(events)@ == old(events)@
            },
    {
        if find_u64_key(&self.ships, user).is_some() {
            return Err(Error::NoneValue);
        }
        let size = self.map_size_effective();
        if coord.x >= size || coord.y >= size {
            return Err(Error::NoneValue);
        }
        if skin != 0 {
            let kind = match skin {
                5 => AsteroidKind::Collectible0,
                6 => AsteroidKind::Collectible1,
                7 => AsteroidKind::Collectible2,
                _ => {
                    return Err(Error::NoneValue);
                },
            };
            let owned = match find_res_key(&self.resources, user, kind) {
                Some(i) => self.resources[i].1 > 0,
                None => false,
            };
            if !owned {
                return Err(Error::NoneValue);
            }
        }
        self.ships.push((user, Starship { pos: coord, energy: DEFAULT_ENERGY, skin }));
        events.push(Event::GameStarted { owner: user, coord, skin });
        self.bonus_pool = self.bonus_pool.saturating_add(BONUS_STAKE);
        self.active_players = self.active_players.saturating_add(1);
        proof {
            assert(final(self)@ =~= start_game_model(old(self)@, user, coord, skin).0);
            assert(final(events)@ =~= old(events)@ + start_game_model(
                old(self)@,
                user,
                coord,
                skin,
            ).1);
        }
        Ok(())
    }

    /// Sets the grid side length used by bounds checks and spawn placement.
    pub fn admin_set_map_size(&mut self, size: u32) -> (r: Result<(), Error>)
        ensures
            r is Ok,
            final(self)@ == (WorldModel { map_size: Some(size), ..old(self)@ }),
    {
        self.map_size = Some(size);
        proof {
            assert(final(self)@ =~= (WorldModel { map_size: Some(size), ..old(self)@ }));
        }
        Ok(())
    }

    /// Sets the target asteroid population the spawner fills back up to.
    pub fn admin_set_max_asteroids_count(&mut self, count: u32) -> (r: Result<(), Error>)
        ensures
            r is Ok,
            final(self)@ == (WorldModel { max_asteroids: Some(count), ..old(self)@ }),
    {
        self.max_asteroids = Some(count);
        proof {
            assert(final(self)@ =~= (WorldModel { max_asteroids: Some(count), ..old(self)@ }));
        }
        Ok(())
    }

    /// Resets every active ship to full energy at the origin and clears all
    /// flights.
    pub fn admin_reset_game(&mut self) -> (r: Result<(), Error>)
        ensures
            r is Ok,
            final(self)@ == admin_reset_model(old(self)@),
    {
        let ghost m0 = old(self)@;
        let n = self.ships.len();
        let mut i: usize = 0;
        while i < n
            invariant
                i <= n,
                n == self.ships@.len(),
                self@ == (WorldModel { ships: self@.ships, ..m0 }),
                self.ships@.len() == m0.ships.len(),
                forall|j: int|
                    0 <= j < i ==> self.ships@[j] == (
                        m0.ships[j].0,
                        Starship {
                            pos: Coord { x: 0, y: 0 },
                            energy: DEFAULT_ENERGY,
                            skin: m0.ships[j].1.skin,
                        },
                    ),
                forall|j: int| i <= j < n ==> self.ships@[j] == m0.ships[j],
            decreases n - i,
        {
            let entry = self.ships[i];
            self.ships[i] = (
                entry.0,
                Starship { pos: Coord { x: 0, y: 0 }, energy: DEFAULT_ENERGY, skin: entry.1.skin },
            );
            i += 1;
        }
        self.flights.clear();
        proof {
            assert(final(self)@ =~= admin_reset_model(m0));
        }
        Ok(())
    }
}

} // verus!
