use astromine::types::Asteroid;
use astromine::types::AsteroidKind;
use astromine::types::Coord;
use astromine::types::Error;
use astromine::types::Event;
use astromine::world::World;

#[test]
fn single_spawn_on_empty_grid() {
    // Grid 50, at most one asteroid, fixed seed, no asteroids yet: one tick
    // spawns exactly one asteroid with expiry = tick + ttl base + 0.
    let mut w = World::new();
    let mut evs: Vec<Event> = Vec::new();
    assert_eq!(w.admin_set_map_size(50), Ok(()));
    assert_eq!(w.admin_set_max_asteroids_count(1), Ok(()));
    let seed = vec![7u8, 0, 0, 0];
    w.on_initialize(1, &seed, &mut evs);
    // Seed 7: x = 7 % 50, y = (7 / 100) % 50, roll = (7 / 500) % 100 = 0;
    // the bonus gate fails on an empty pool, so the energy band wins.
    assert_eq!(
        evs,
        vec![Event::AsteroidSpawned {
            resource_id: AsteroidKind::Energy,
            coord: Coord { x: 7, y: 0 },
        }]
    );
    assert_eq!(w.asteroids.len(), 1);
    assert_eq!(w.asteroids[0].0, Coord { x: 7, y: 0 });
    assert_eq!(w.asteroids[0].1, Asteroid { kind: AsteroidKind::Energy, expiry: 1 + 25 });
}

#[test]
fn flight_arrival_collects_at_destination() {
    // A flight of travel duration 1 resolves on the next tick: the flight
    // record goes, the ship stands at the destination, and an asteroid
    // waiting there is collected, with its collected notification ahead of
    // its removal notification.
    let mut w = World::new();
    let mut evs: Vec<Event> = Vec::new();
    assert_eq!(w.admin_set_max_asteroids_count(0), Ok(()));
    assert_eq!(w.start_game(1, Coord { x: 0, y: 0 }, 0, &mut evs), Ok(()));
    assert_eq!(w.start_flight(1, Coord { x: 10, y: 10 }, 5, &mut evs), Ok(()));
    w.asteroids.push((
        Coord { x: 10, y: 10 },
        Asteroid { kind: AsteroidKind::Gold, expiry: 100 },
    ));
    evs.clear();
    let seed = vec![9u8, 0, 0, 0];
    w.on_initialize(6, &seed, &mut evs);
    assert_eq!(w.flights.len(), 0);
    assert_eq!(w.ships.len(), 1);
    assert_eq!(w.ships[0].1.pos, Coord { x: 10, y: 10 });
    // One round of decay has run since the start.
    assert_eq!(w.ships[0].1.energy, 98);
    assert_eq!(w.resources, vec![((1, AsteroidKind::Gold), 1)]);
    assert_eq!(
        evs,
        vec![
            Event::AsteroidCollected {
                owner: 1,
                coord: Coord { x: 10, y: 10 },
                resource: AsteroidKind::Gold,
                amount: 1,
            },
            Event::AsteroidRemoved { coord: Coord { x: 10, y: 10 } },
        ]
    );
}

#[test]
fn arrival_beats_expiry_in_the_same_tick() {
    // The target asteroid would also expire this very tick; flights resolve
    // before expiry, so the arriving ship still collects it.
    let mut w = World::new();
    let mut evs: Vec<Event> = Vec::new();
    assert_eq!(w.admin_set_max_asteroids_count(0), Ok(()));
    assert_eq!(w.start_game(1, Coord { x: 0, y: 0 }, 0, &mut evs), Ok(()));
    assert_eq!(w.start_flight(1, Coord { x: 3, y: 3 }, 5, &mut evs), Ok(()));
    // Expiry 5 < 6: the sweep at tick 6 would remove it.
    w.asteroids.push((Coord { x: 3, y: 3 }, Asteroid { kind: AsteroidKind::Gold, expiry: 5 }));
    evs.clear();
    let seed = vec![9u8, 0, 0, 0];
    w.on_initialize(6, &seed, &mut evs);
    assert_eq!(w.resources, vec![((1, AsteroidKind::Gold), 1)]);
    assert_eq!(
        evs,
        vec![
            Event::AsteroidCollected {
                owner: 1,
                coord: Coord { x: 3, y: 3 },
                resource: AsteroidKind::Gold,
                amount: 1,
            },
            Event::AsteroidRemoved { coord: Coord { x: 3, y: 3 } },
        ]
    );
}

#[test]
fn collection_rejected_beyond_distance_limit() {
    // Distance 6 against the configured limit 5: rejected, no state
    // change, no notification.
    let mut w = World::new();
    let mut evs: Vec<Event> = Vec::new();
    assert_eq!(w.start_game(1, Coord { x: 0, y: 0 }, 0, &mut evs), Ok(()));
    w.asteroids.push((Coord { x: 3, y: 3 }, Asteroid { kind: AsteroidKind::Gold, expiry: 99 }));
    evs.clear();
    assert_eq!(w.try_to_collect_resource(1, Coord { x: 3, y: 3 }, &mut evs), Err(Error::NoneValue));
    assert_eq!(evs.len(), 0);
    assert_eq!(w.asteroids.len(), 1);
    assert_eq!(w.resources.len(), 0);
    assert_eq!(w.ships[0].1.pos, Coord { x: 0, y: 0 });
    // Distance 5 exactly is still allowed.
    w.asteroids.push((Coord { x: 2, y: 3 }, Asteroid { kind: AsteroidKind::Gold, expiry: 99 }));
    assert_eq!(w.try_to_collect_resource(1, Coord { x: 2, y: 3 }, &mut evs), Ok(()));
}

#[test]
fn collection_rejected_while_in_flight_or_without_ship() {
    let mut w = World::new();
    let mut evs: Vec<Event> = Vec::new();
    // No ship at all.
    assert_eq!(w.try_to_collect_resource(1, Coord { x: 0, y: 0 }, &mut evs), Err(Error::NoneValue));
    assert_eq!(w.start_game(1, Coord { x: 0, y: 0 }, 0, &mut evs), Ok(()));
    assert_eq!(w.start_flight(1, Coord { x: 1, y: 1 }, 5, &mut evs), Ok(()));
    // A ship in flight cannot collect.
    assert_eq!(w.try_to_collect_resource(1, Coord { x: 0, y: 0 }, &mut evs), Err(Error::NoneValue));
}

#[test]
fn energy_pickup_saturates_at_ceiling() {
    // An energy pickup at the saturating maximum: energy stays at the
    // maximum, nothing wraps, and the ship still relocates to the pickup.
    let mut w = World::new();
    let mut evs: Vec<Event> = Vec::new();
    assert_eq!(w.start_game(1, Coord { x: 0, y: 0 }, 0, &mut evs), Ok(()));
    w.ships[0].1.energy = u32::MAX;
    w.asteroids.push((Coord { x: 2, y: 0 }, Asteroid { kind: AsteroidKind::Energy, expiry: 99 }));
    evs.clear();
    assert_eq!(w.try_to_collect_resource(1, Coord { x: 2, y: 0 }, &mut evs), Ok(()));
    assert_eq!(w.ships[0].1.energy, u32::MAX);
    assert_eq!(w.ships[0].1.pos, Coord { x: 2, y: 0 });
    assert_eq!(w.asteroids.len(), 0);
    assert_eq!(
        evs,
        vec![
            Event::AsteroidCollected {
                owner: 1,
                coord: Coord { x: 2, y: 0 },
                resource: AsteroidKind::Energy,
                amount: 15,
            },
            Event::AsteroidRemoved { coord: Coord { x: 2, y: 0 } },
        ]
    );
}

#[test]
fn no_two_asteroids_share_a_coordinate() {
    // After several ticks at the default population target, every pair of
    // asteroid entries has distinct coordinates.
    let mut w = World::new();
    let mut evs: Vec<Event> = Vec::new();
    let seed = vec![0xB4u8, 0xC3, 0, 0];
    for t in 1..6u64 {
        w.on_initialize(t, &seed, &mut evs);
        for i in 0..w.asteroids.len() {
            for j in (i + 1)..w.asteroids.len() {
                assert_ne!(w.asteroids[i].0, w.asteroids[j].0);
            }
        }
    }
    assert!(w.asteroids.len() > 0);
}

#[test]
fn emitted_total_matches_present_bonus_payouts() {
    // With a funded pool some bonus asteroids spawn; between any two ticks
    // the emitted total equals the payouts of the bonus asteroids present.
    let mut w = World::new();
    let mut evs: Vec<Event> = Vec::new();
    w.bonus_pool = 1000;
    let seed = vec![0xB4u8, 0xC3, 0, 0];
    let mut saw_bonus = false;
    for t in 1..40u64 {
        w.on_initialize(t, &seed, &mut evs);
        let mut sum: u64 = 0;
        for &(_, a) in w.asteroids.iter() {
            sum += match a.kind {
                AsteroidKind::Bonus0 => 1,
                AsteroidKind::Bonus1 => 2,
                AsteroidKind::Bonus2 => 3,
                _ => 0,
            };
        }
        assert_eq!(w.bonus_emitted_total, sum);
        if sum > 0 {
            saw_bonus = true;
        }
    }
    assert!(saw_bonus);
}

#[test]
fn at_most_one_flight_and_ship_per_account() {
    let mut w = World::new();
    let mut evs: Vec<Event> = Vec::new();
    assert_eq!(w.start_game(1, Coord { x: 0, y: 0 }, 0, &mut evs), Ok(()));
    assert_eq!(w.start_game(1, Coord { x: 1, y: 1 }, 0, &mut evs), Err(Error::NoneValue));
    assert_eq!(w.start_game(2, Coord { x: 1, y: 1 }, 0, &mut evs), Ok(()));
    assert_eq!(w.start_flight(1, Coord { x: 2, y: 2 }, 5, &mut evs), Ok(()));
    assert_eq!(w.start_flight(1, Coord { x: 3, y: 3 }, 5, &mut evs), Err(Error::NoneValue));
    let seed = vec![3u8, 0, 0, 0];
    w.on_initialize(6, &seed, &mut evs);
    for i in 0..w.ships.len() {
        for j in (i + 1)..w.ships.len() {
            assert_ne!(w.ships[i].0, w.ships[j].0);
        }
    }
    for i in 0..w.flights.len() {
        for j in (i + 1)..w.flights.len() {
            assert_ne!(w.flights[i].0, w.flights[j].0);
        }
    }
}

#[test]
fn empty_coordinate_collection_is_a_noop_twice() {
    let mut w = World::new();
    let mut evs: Vec<Event> = Vec::new();
    assert_eq!(w.start_game(1, Coord { x: 0, y: 0 }, 0, &mut evs), Ok(()));
    evs.clear();
    let pool = w.bonus_pool;
    for _ in 0..2 {
        astromine::engine::collect_asteroid(&mut w, 1, Coord { x: 4, y: 4 }, &mut evs);
        assert_eq!(evs.len(), 0);
        assert_eq!(w.asteroids.len(), 0);
        assert_eq!(w.resources.len(), 0);
        assert_eq!(w.ships.len(), 1);
        assert_eq!(w.ships[0].1.pos, Coord { x: 0, y: 0 });
        assert_eq!(w.ships[0].1.energy, 100);
        assert_eq!(w.bonus_pool, pool);
        assert_eq!(w.bonus_emitted_total, 0);
    }
}

#[test]
fn depletion_converges_to_zero_with_one_notification() {
    // Full energy 100 at 2 per tick: the ship survives 49 ticks, is gone
    // after the 50th, exactly one depletion notification is ever emitted,
    // and later ticks emit nothing more for the account.
    let mut w = World::new();
    let mut evs: Vec<Event> = Vec::new();
    assert_eq!(w.admin_set_max_asteroids_count(0), Ok(()));
    assert_eq!(w.start_game(1, Coord { x: 0, y: 0 }, 0, &mut evs), Ok(()));
    evs.clear();
    let seed = vec![1u8, 0, 0, 0];
    for t in 1..=49u64 {
        w.on_initialize(t, &seed, &mut evs);
        assert_eq!(w.ships.len(), 1);
        assert_eq!(w.ships[0].1.energy, 100 - 2 * (t as u32));
    }
    w.on_initialize(50, &seed, &mut evs);
    assert_eq!(w.ships.len(), 0);
    assert_eq!(w.active_players, 0);
    let depleted = evs.iter().filter(|e| matches!(e, Event::EnergyDepleted { owner: 1 })).count();
    assert_eq!(depleted, 1);
    evs.clear();
    for t in 51..55u64 {
        w.on_initialize(t, &seed, &mut evs);
    }
    assert!(evs.iter().all(|e| !matches!(e, Event::EnergyDepleted { owner: 1 })));
    assert_eq!(w.ships.len(), 0);
}
