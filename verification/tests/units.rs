use astromine::types::Asteroid;
use astromine::types::AsteroidKind;
use astromine::types::Coord;
use astromine::types::Error;
use astromine::types::Event;
use astromine::types::bonus_amount;
use astromine::utils::get_distance;
use astromine::utils::get_hash_u32;
use astromine::utils::get_random;
use astromine::utils::get_random_x;
use astromine::utils::get_random_y;
use astromine::tick::get_random_asteroid_type;
use astromine::world::World;

#[test]
fn random_exact_values() {
    // (100 / 1) % 7 == 2: a zero index is treated as one before dividing.
    assert_eq!(get_random(100, 0, 7), 2);
    assert_eq!(get_random(100, 1, 7), 2);
    // (100 / 3) % 7 == 33 % 7 == 5.
    assert_eq!(get_random(100, 3, 7), 5);
    // The same inputs always give the same output.
    assert_eq!(get_random(12345, 17, 50), get_random(12345, 17, 50));
}

#[test]
fn random_xy_use_independent_offsets() {
    // x draws at index, y at 100 + index.
    assert_eq!(get_random_x(50100, 50, 1), (50100 / 1) % 50);
    assert_eq!(get_random_y(50100, 50, 1), (50100 / 101) % 50);
    assert_eq!(get_random_x(50100, 50, 0), (50100 / 1) % 50);
    assert_eq!(get_random_y(50100, 50, 0), (50100 / 100) % 50);
}

#[test]
fn hash_reads_first_four_bytes_little_endian() {
    let seed = vec![1u8, 2, 3, 4];
    assert_eq!(get_hash_u32(&seed), 1 + 2 * 0x100 + 3 * 0x1_0000 + 4 * 0x100_0000);
    let longer = vec![7u8, 0, 0, 0, 0xFF, 0xFF];
    assert_eq!(get_hash_u32(&longer), 7);
}

#[test]
fn distance_is_manhattan() {
    assert_eq!(get_distance(Coord { x: 1, y: 2 }, Coord { x: 4, y: 0 }), 5);
    assert_eq!(get_distance(Coord { x: 4, y: 0 }, Coord { x: 1, y: 2 }), 5);
    assert_eq!(get_distance(Coord { x: 3, y: 3 }, Coord { x: 3, y: 3 }), 0);
}

#[test]
fn bonus_amounts_per_tier() {
    assert_eq!(bonus_amount(AsteroidKind::Bonus0), 1);
    assert_eq!(bonus_amount(AsteroidKind::Bonus1), 2);
    assert_eq!(bonus_amount(AsteroidKind::Bonus2), 3);
    assert_eq!(bonus_amount(AsteroidKind::Gold), 0);
    assert_eq!(bonus_amount(AsteroidKind::Energy), 0);
    assert_eq!(bonus_amount(AsteroidKind::Collectible2), 0);
}

#[test]
fn kind_selection_bands() {
    // seed 7500 at index 0 rolls (7500 / 500) % 100 == 15: the energy band.
    assert_eq!(
        get_random_asteroid_type(7500, 0, 1, 0, 0, 0, 0),
        AsteroidKind::Energy
    );
    // seed 17500 rolls 35: the collectible band, once the cooldown passed.
    assert_eq!(
        get_random_asteroid_type(17500, 0, 12, 0, 0, 0, 0),
        AsteroidKind::Collectible0
    );
    assert_eq!(
        get_random_asteroid_type(17500, 0, 12, 0, 0, 0, 2),
        AsteroidKind::Collectible1
    );
    assert_eq!(
        get_random_asteroid_type(17500, 0, 12, 0, 0, 0, 3),
        AsteroidKind::Collectible2
    );
    // The same roll inside the cooldown falls through to gold.
    assert_eq!(
        get_random_asteroid_type(17500, 0, 10, 0, 0, 0, 0),
        AsteroidKind::Gold
    );
    // seed 30000 rolls 60: gold.
    assert_eq!(
        get_random_asteroid_type(30000, 0, 1, 0, 0, 0, 0),
        AsteroidKind::Gold
    );
}

#[test]
fn bonus_suppressed_exactly_at_cap() {
    // Roll 0 would pick the first bonus tier. Pool 100 with ratio 10 caps
    // the emitted total at 10: 9 is still under the cap, 10 is not.
    assert_eq!(
        get_random_asteroid_type(0, 0, 1, 100, 9, 0, 0),
        AsteroidKind::Bonus0
    );
    assert_eq!(
        get_random_asteroid_type(0, 0, 1, 100, 10, 0, 0),
        AsteroidKind::Energy
    );
}

#[test]
fn bonus_tier_sub_bands() {
    // Rolls 0..5 pick tier 0, 5..7 tier 1, 7..10 tier 2.
    // seed 500 * r at index 0 rolls exactly r.
    assert_eq!(get_random_asteroid_type(500 * 4, 0, 1, 100, 0, 0, 0), AsteroidKind::Bonus0);
    assert_eq!(get_random_asteroid_type(500 * 5, 0, 1, 100, 0, 0, 0), AsteroidKind::Bonus1);
    assert_eq!(get_random_asteroid_type(500 * 6, 0, 1, 100, 0, 0, 0), AsteroidKind::Bonus1);
    assert_eq!(get_random_asteroid_type(500 * 7, 0, 1, 100, 0, 0, 0), AsteroidKind::Bonus2);
    assert_eq!(get_random_asteroid_type(500 * 9, 0, 1, 100, 0, 0, 0), AsteroidKind::Bonus2);
}

#[test]
fn cause_error_unset_value() {
    let mut w = World::new();
    assert_eq!(w.cause_error(), Err(Error::NoneValue));
    assert_eq!(w.something, None);
}

#[test]
fn cause_error_increments() {
    let mut w = World::new();
    w.something = Some(5);
    assert_eq!(w.cause_error(), Ok(()));
    assert_eq!(w.something, Some(6));
}

#[test]
fn cause_error_overflow() {
    let mut w = World::new();
    w.something = Some(u32::MAX);
    assert_eq!(w.cause_error(), Err(Error::StorageOverflow));
    assert_eq!(w.something, Some(u32::MAX));
}

#[test]
fn admin_setters_store_values() {
    let mut w = World::new();
    assert_eq!(w.admin_set_map_size(64), Ok(()));
    assert_eq!(w.map_size, Some(64));
    assert_eq!(w.admin_set_max_asteroids_count(3), Ok(()));
    assert_eq!(w.max_asteroids, Some(3));
}

#[test]
fn admin_reset_restores_ships_and_clears_flights() {
    let mut w = World::new();
    let mut evs: Vec<Event> = Vec::new();
    assert_eq!(w.start_game(1, Coord { x: 4, y: 9 }, 0, &mut evs), Ok(()));
    assert_eq!(w.start_flight(1, Coord { x: 6, y: 6 }, 3, &mut evs), Ok(()));
    w.ships[0].1.energy = 17;
    assert_eq!(w.admin_reset_game(), Ok(()));
    assert_eq!(w.flights.len(), 0);
    assert_eq!(w.ships.len(), 1);
    assert_eq!(w.ships[0].0, 1);
    assert_eq!(w.ships[0].1.pos, Coord { x: 0, y: 0 });
    assert_eq!(w.ships[0].1.energy, 100);
}

#[test]
fn start_game_rejects_bad_inputs() {
    let mut w = World::new();
    let mut evs: Vec<Event> = Vec::new();
    // Out of the default 50-sided grid.
    assert_eq!(w.start_game(1, Coord { x: 50, y: 0 }, 0, &mut evs), Err(Error::NoneValue));
    // A skin identifier that names no collectible tier.
    assert_eq!(w.start_game(1, Coord { x: 0, y: 0 }, 9, &mut evs), Err(Error::NoneValue));
    // A collectible skin the account does not hold.
    assert_eq!(w.start_game(1, Coord { x: 0, y: 0 }, 5, &mut evs), Err(Error::NoneValue));
    assert_eq!(w.ships.len(), 0);
    assert_eq!(evs.len(), 0);
    // Holding one token of the matching tier makes the same start succeed.
    w.resources.push(((1, AsteroidKind::Collectible0), 1));
    assert_eq!(w.start_game(1, Coord { x: 0, y: 0 }, 5, &mut evs), Ok(()));
    assert_eq!(w.ships[0].1.skin, 5);
}

#[test]
fn start_game_contributes_stake_and_counts_player() {
    let mut w = World::new();
    let mut evs: Vec<Event> = Vec::new();
    assert_eq!(w.start_game(8, Coord { x: 2, y: 2 }, 0, &mut evs), Ok(()));
    assert_eq!(w.bonus_pool, 5);
    assert_eq!(w.active_players, 1);
    assert_eq!(w.ships[0].1.energy, 100);
    assert_eq!(
        evs,
        vec![Event::GameStarted { owner: 8, coord: Coord { x: 2, y: 2 }, skin: 0 }]
    );
}

#[test]
fn start_flight_records_and_announces() {
    let mut w = World::new();
    let mut evs: Vec<Event> = Vec::new();
    assert_eq!(w.start_game(1, Coord { x: 4, y: 9 }, 0, &mut evs), Ok(()));
    evs.clear();
    assert_eq!(w.start_flight(1, Coord { x: 10, y: 10 }, 5, &mut evs), Ok(()));
    assert_eq!(w.flights.len(), 1);
    let fl = w.flights[0].1;
    assert_eq!(fl.from, Coord { x: 4, y: 9 });
    assert_eq!(fl.to, Coord { x: 10, y: 10 });
    assert_eq!(fl.start, 5);
    assert_eq!(fl.end, 6);
    assert_eq!(
        evs,
        vec![Event::FlightStarted {
            owner: 1,
            from: Coord { x: 4, y: 9 },
            to: Coord { x: 10, y: 10 },
            end: 6,
            skin: 0,
        }]
    );
    // No second flight while one is under way.
    assert_eq!(w.start_flight(1, Coord { x: 1, y: 1 }, 5, &mut evs), Err(Error::NoneValue));
    // No flight without a ship.
    assert_eq!(w.start_flight(2, Coord { x: 1, y: 1 }, 5, &mut evs), Err(Error::NoneValue));
}

#[test]
fn collect_bonus_credits_canonical_ledger_entry() {
    let mut w = World::new();
    let mut evs: Vec<Event> = Vec::new();
    assert_eq!(w.start_game(1, Coord { x: 0, y: 0 }, 0, &mut evs), Ok(()));
    w.asteroids.push((Coord { x: 2, y: 1 }, Asteroid { kind: AsteroidKind::Bonus2, expiry: 99 }));
    w.bonus_emitted_total = 3;
    evs.clear();
    assert_eq!(w.try_to_collect_resource(1, Coord { x: 2, y: 1 }, &mut evs), Ok(()));
    // The payout lands under the canonical bonus entry, not the tier's own.
    assert_eq!(w.resources, vec![((1, AsteroidKind::Bonus0), 3)]);
    assert_eq!(w.bonus_emitted_total, 0);
    assert_eq!(w.asteroids.len(), 0);
    assert_eq!(
        evs,
        vec![
            Event::AsteroidCollected {
                owner: 1,
                coord: Coord { x: 2, y: 1 },
                resource: AsteroidKind::Bonus2,
                amount: 3,
            },
            Event::AsteroidRemoved { coord: Coord { x: 2, y: 1 } },
        ]
    );
}

#[test]
fn collect_energy_without_ship_drops_credit() {
    let mut w = World::new();
    let mut evs: Vec<Event> = Vec::new();
    w.asteroids.push((Coord { x: 5, y: 5 }, Asteroid { kind: AsteroidKind::Energy, expiry: 99 }));
    astromine::engine::collect_asteroid(&mut w, 1, Coord { x: 5, y: 5 }, &mut evs);
    // No ship: the energy is absorbed, the asteroid still leaves.
    assert_eq!(w.ships.len(), 0);
    assert_eq!(w.resources.len(), 0);
    assert_eq!(w.asteroids.len(), 0);
    assert_eq!(
        evs,
        vec![
            Event::AsteroidCollected {
                owner: 1,
                coord: Coord { x: 5, y: 5 },
                resource: AsteroidKind::Energy,
                amount: 1,
            },
            Event::AsteroidRemoved { coord: Coord { x: 5, y: 5 } },
        ]
    );
}

#[test]
fn collect_gold_and_collectible_credit_one_unit() {
    let mut w = World::new();
    let mut evs: Vec<Event> = Vec::new();
    assert_eq!(w.start_game(1, Coord { x: 0, y: 0 }, 0, &mut evs), Ok(()));
    w.asteroids.push((Coord { x: 1, y: 0 }, Asteroid { kind: AsteroidKind::Gold, expiry: 99 }));
    w.asteroids.push((
        Coord { x: 0, y: 1 },
        Asteroid { kind: AsteroidKind::Collectible1, expiry: 99 },
    ));
    assert_eq!(w.try_to_collect_resource(1, Coord { x: 1, y: 0 }, &mut evs), Ok(()));
    assert_eq!(w.try_to_collect_resource(1, Coord { x: 0, y: 1 }, &mut evs), Ok(()));
    assert_eq!(w.try_to_collect_resource(1, Coord { x: 1, y: 0 }, &mut evs), Ok(()));
    assert_eq!(
        w.resources,
        vec![((1, AsteroidKind::Gold), 1), ((1, AsteroidKind::Collectible1), 1)]
    );
}
