//! The per-tick world advancement: the scheduled state transition that
//! resolves completed flights, expires and replenishes asteroids under the
//! constrained probabilistic type-selection policy, and decays ship energy.
//!
//! The order of the four phases is an invariant of the design: flights
//! resolve before expiry so a ship arriving exactly when its target would
//! expire still collects it; expiry frees slots before the spawner refills;
//! decay runs last so a ship's energy cannot drop before it arrives.

use vstd::prelude::*;

use crate::engine::collect_asteroid;
use crate::engine::collect_model;
use crate::engine::lemma_collect_model_uniq;
use crate::engine::lemma_remove_model_uniq;
use crate::engine::lemma_ship_moved_uniq;
use crate::engine::relocate_ship;
use crate::engine::remove_asteroid;
use crate::engine::remove_model;
use crate::engine::ship_moved_model;
use crate::store::find_coord_key;
use crate::store::lemma_sl_push;
use crate::store::sl_has;
use crate::store::sl_uniq;
use crate::types::Asteroid;
use crate::types::AsteroidKind;
use crate::types::Coord;
use crate::types::Event;
use crate::types::Flight;
use crate::types::Starship;
use crate::types::ASTEROID_TTL_CONST;
use crate::types::BONUS_EMISSION_LIMIT_RATIO;
use crate::types::COLLECTIBLE_SPAWN_COOLDOWN;
use crate::types::ENERGY_DEPLETION_RATE;
use crate::types::bonus_amount;
use crate::types::bonus_payout;
use crate::types::is_bonus;
use crate::types::is_collectible;
use crate::utils::get_hash_u32;
use crate::utils::get_random;
use crate::utils::get_random_x;
use crate::utils::get_random_y;
use crate::utils::le_u32_of;
use crate::utils::spec_random;
use crate::world::World;
use crate::world::WorldModel;
use crate::world::spec_map_size;
use crate::world::spec_max_asteroids;
use crate::world::uniq_keys;

verus! {

/// Resolving one completed flight: the collection at the destination, then
/// the ship's relocation there.
pub open spec fn resolve_one_model(m: WorldModel, user: u64, fl: Flight) -> (
    WorldModel,
    Seq<Event>,
) {
    let collected = collect_model(m, user, fl.to);
    (ship_moved_model(collected.0, user, fl.to), collected.1)
}

/// Walking the flight list in order: a flight whose end tick has been
/// reached is resolved; any other is kept.
pub open spec fn resolve_seq_model(m: WorldModel, fls: Seq<(u64, Flight)>, now: u64) -> (
    WorldModel,
    Seq<(u64, Flight)>,
    Seq<Event>,
)
    decreases fls.len(),
{
    if fls.len() == 0 {
        (m, Seq::<(u64, Flight)>::empty(), Seq::<Event>::empty())
    } else {
        let prev = resolve_seq_model(m, fls.drop_last(), now);
        let user = fls.last().0;
        let fl = fls.last().1;
        if fl.end <= now {
            let one = resolve_one_model(prev.0, user, fl);
            (one.0, prev.1, prev.2 + one.1)
        } else {
            (prev.0, prev.1.push((user, fl)), prev.2)
        }
    }
}

/// The flight resolution phase over the whole world.
pub open spec fn resolve_flights_model(m: WorldModel, now: u64) -> (WorldModel, Seq<Event>) {
    let walked = resolve_seq_model(m, m.flights, now);
    (WorldModel { flights: walked.1, ..walked.0 }, walked.2)
}

/// Walking an asteroid snapshot in order and removing every expired entry.
pub open spec fn expire_seq_model(m: WorldModel, asts: Seq<(Coord, Asteroid)>, now: u64) -> (
    WorldModel,
    Seq<Event>,
)
    decreases asts.len(),
{
    if asts.len() == 0 {
        (m, Seq::<Event>::empty())
    } else {
        let prev = expire_seq_model(m, asts.drop_last(), now);
        let c = asts.last().0;
        let a = asts.last().1;
        if a.expiry < now {
            let removed = remove_model(prev.0, a.kind, c);
            (removed.0, prev.1 + removed.1)
        } else {
            prev
        }
    }
}

/// The expiry phase over the whole world.
pub open spec fn expire_model(m: WorldModel, now: u64) -> (WorldModel, Seq<Event>) {
    expire_seq_model(m, m.asteroids, now)
}

/// The weighted type-selection policy for one roll in `[0, 100)`:
/// a bonus tier on a roll below 10 while the emitted total is under its
/// pool-bounded cap; energy on a roll below 30; a collectible tier ranked
/// by the player count on a roll below 50 once the cooldown has passed;
/// gold otherwise, and as the fallback whenever a gate fails.
pub open spec fn kind_for_roll(
    roll: u32,
    block: u64,
    pool_size: u64,
    emitted: u64,
    last_spawn: u64,
    players: u32,
) -> AsteroidKind {
    if roll < 10 && emitted < pool_size / BONUS_EMISSION_LIMIT_RATIO {
        if roll < 5 {
            AsteroidKind::Bonus0
        } else if roll < 7 {
            AsteroidKind::Bonus1
        } else {
            AsteroidKind::Bonus2
        }
    } else if roll < 30 {
        AsteroidKind::Energy
    } else if roll < 50 && block as int > last_spawn as int + COLLECTIBLE_SPAWN_COOLDOWN as int {
        if players > 2 {
            AsteroidKind::Collectible2
        } else if players > 1 {
            AsteroidKind::Collectible1
        } else {
            AsteroidKind::Collectible0
        }
    } else {
        AsteroidKind::Gold
    }
}

/// One slot of the spawn loop: the placement drawn from the seed at two
/// independent index offsets, abandoned if the coordinate is occupied;
/// otherwise the kind is rolled, a chosen bonus tier's payout joins the
/// emitted total, a chosen collectible stamps the spawn clock, and the
/// asteroid is inserted with its staggered expiry.
pub open spec fn spawn_iter_model(m: WorldModel, now: u64, seed: u32, size: u32, i: u32) -> (
    WorldModel,
    Seq<Event>,
) {
    let c = Coord { x: spec_random(seed, i, size), y: spec_random(seed, (100 + i) as u32, size) };
    if sl_has(m.asteroids, c) {
        (m, Seq::<Event>::empty())
    } else {
        let roll = spec_random(seed, (500 + i) as u32, 100);
        let kind = kind_for_roll(
            roll,
            now,
            m.bonus_pool,
            m.bonus_emitted_total,
            m.last_bonus_spawn_tick,
            m.active_players,
        );
        let emitted = if is_bonus(kind) {
            m.bonus_emitted_total.saturating_add(bonus_payout(kind) as u64)
        } else {
            m.bonus_emitted_total
        };
        let last = if is_collectible(kind) {
            now
        } else {
            m.last_bonus_spawn_tick
        };
        let a = Asteroid { kind, expiry: (now + ASTEROID_TTL_CONST + i) as u64 };
        (
            WorldModel {
                asteroids: m.asteroids.push((c, a)),
                bonus_emitted_total: emitted,
                last_bonus_spawn_tick: last,
                ..m
            },
            seq![Event::AsteroidSpawned { resource_id: kind, coord: c }],
        )
    }
}

/// The first `n` slots of the spawn loop in order.
pub open spec fn spawn_upto_model(m: WorldModel, now: u64, seed: u32, size: u32, n: nat) -> (
    WorldModel,
    Seq<Event>,
)
    decreases n,
{
    if n == 0 {
        (m, Seq::<Event>::empty())
    } else {
        let prev = spawn_upto_model(m, now, seed, size, (n - 1) as nat);
        let one = spawn_iter_model(prev.0, now, seed, size, (n - 1) as u32);
        (one.0, prev.1 + one.1)
    }
}

/// How many slots the spawner tries to fill: the shortfall between the
/// configured target population and the current count.
pub open spec fn spawn_deficit(m: WorldModel) -> nat {
    if spec_max_asteroids(m) as int >= m.asteroids.len() as int {
        (spec_max_asteroids(m) as int - m.asteroids.len() as int) as nat
    } else {
        0
    }
}

/// The spawn phase over the whole world.
pub open spec fn spawn_model(m: WorldModel, now: u64, seed: u32) -> (WorldModel, Seq<Event>) {
    spawn_upto_model(m, now, seed, spec_map_size(m), spawn_deficit(m))
}

/// Walking the ship list in order: every ship loses the fixed depletion
/// amount (saturating); one that reaches zero leaves the store, costs one
/// active player (saturating) and announces its depletion, any other is
/// written back with its position and skin unchanged.
pub open spec fn decay_seq_model(ships: Seq<(u64, Starship)>, players: u32) -> (
    Seq<(u64, Starship)>,
    u32,
    Seq<Event>,
)
    decreases ships.len(),
{
    if ships.len() == 0 {
        (Seq::<(u64, Starship)>::empty(), players, Seq::<Event>::empty())
    } else {
        let prev = decay_seq_model(ships.drop_last(), players);
        let owner = ships.last().0;
        let ship = ships.last().1;
        let left = ship.energy.saturating_sub(ENERGY_DEPLETION_RATE);
        if left == 0 {
            (prev.0, prev.1.saturating_sub(1), prev.2.push(Event::EnergyDepleted { owner }))
        } else {
            (prev.0.push((owner, Starship { energy: left, ..ship })), prev.1, prev.2)
        }
    }
}

/// The energy decay phase over the whole world.
pub open spec fn decay_model(m: WorldModel) -> (WorldModel, Seq<Event>) {
    let walked = decay_seq_model(m.ships, m.active_players);
    (WorldModel { ships: walked.0, active_players: walked.1, ..m }, walked.2)
}

/// One full tick: resolve flights, expire asteroids, spawn replacements,
/// decay energy, in that order, with the notifications concatenated.
pub open spec fn tick_model(m: WorldModel, now: u64, seed: u32) -> (WorldModel, Seq<Event>) {
    let resolved = resolve_flights_model(m, now);
    let expired = expire_model(resolved.0, now);
    let spawned = spawn_model(expired.0, now, seed);
    let decayed = decay_model(spawned.0);
    (decayed.0, resolved.1 + expired.1 + spawned.1 + decayed.1)
}

/// A prefix of a sequence with distinct keys has distinct keys.
pub proof fn lemma_sl_uniq_prefix<K, V>(s: Seq<(K, V)>, n: int)
    requires
        sl_uniq(s),
        0 <= n <= s.len(),
    ensures
        sl_uniq(s.take(n)),
{
    assert forall|i: int, j: int|
        0 <= i < j < s.take(n).len() implies #[trigger] s.take(n)[i].0 != #[trigger] s.take(n)[j].0 by {
        assert(s.take(n)[i] == s[i]);
        assert(s.take(n)[j] == s[j]);
    }
}

/// Flight resolution keeps every map's keys distinct, keeps only flights
/// that were already recorded, never grows the asteroid store, and touches
/// neither the configuration, the pool, the spawn clock nor the player
/// count.
pub proof fn lemma_resolve_seq_props(m: WorldModel, fls: Seq<(u64, Flight)>, now: u64)
    requires
        uniq_keys(m),
        sl_uniq(fls),
    ensures
        uniq_keys(resolve_seq_model(m, fls, now).0),
        resolve_seq_model(m, fls, now).0 == (WorldModel {
            asteroids: resolve_seq_model(m, fls, now).0.asteroids,
            ships: resolve_seq_model(m, fls, now).0.ships,
            resources: resolve_seq_model(m, fls, now).0.resources,
            bonus_emitted_total: resolve_seq_model(m, fls, now).0.bonus_emitted_total,
            ..m
        }),
        resolve_seq_model(m, fls, now).0.asteroids.len() <= m.asteroids.len(),
        sl_uniq(resolve_seq_model(m, fls, now).1),
        forall|u: u64| #[trigger] sl_has(resolve_seq_model(m, fls, now).1, u) ==> sl_has(fls, u),
    decreases fls.len(),
{
    if fls.len() > 0 {
        let head = fls.drop_last();
        assert(sl_uniq(head)) by {
            assert forall|i: int, j: int|
                0 <= i < j < head.len() implies #[trigger] head[i].0 != #[trigger] head[j].0 by {
                assert(head[i] == fls[i]);
                assert(head[j] == fls[j]);
            }
        }
        lemma_resolve_seq_props(m, head, now);
        let prev = resolve_seq_model(m, head, now);
        let user = fls.last().0;
        let fl = fls.last().1;
        if fl.end <= now {
            lemma_collect_model_uniq(prev.0, user, fl.to);
            lemma_ship_moved_uniq(collect_model(prev.0, user, fl.to).0, user, fl.to);
        } else {
            assert(!sl_has(prev.1, user)) by {
                if sl_has(prev.1, user) {
                    assert(sl_has(head, user));
                    let j = crate::store::sl_idx(head, user);
                    assert(0 <= j < head.len() && head[j].0 == user);
                    assert(fls[j].0 == user);
                    assert(fls[j].0 != fls[fls.len() - 1].0);
                }
            }
            lemma_sl_push(prev.1, user, fl);
            assert forall|u: u64|
                #[trigger] sl_has(resolve_seq_model(m, fls, now).1, u) implies sl_has(fls, u) by {
                if sl_has(prev.1, u) {
                    assert(sl_has(head, u));
                    let j = crate::store::sl_idx(head, u);
                    assert(0 <= j < head.len() && head[j].0 == u);
                    assert(fls[j].0 == u);
                    assert(sl_has(fls, u));
                } else {
                    assert(u == user);
                    assert(fls[fls.len() - 1].0 == u);
                    assert(sl_has(fls, u));
                }
            }
        }
        assert forall|u: u64| #[trigger] sl_has(prev.1, u) implies sl_has(fls, u) by {
            assert(sl_has(head, u));
            let j = crate::store::sl_idx(head, u);
            assert(0 <= j < head.len() && head[j].0 == u);
            assert(fls[j].0 == u);
        }
    }
}

/// The expiry walk keeps every map's keys distinct, never grows the
/// asteroid store, and touches nothing but the asteroid store and the
/// emitted total.
pub proof fn lemma_expire_seq_props(m: WorldModel, asts: Seq<(Coord, Asteroid)>, now: u64)
    requires
        uniq_keys(m),
    ensures
        uniq_keys(expire_seq_model(m, asts, now).0),
        expire_seq_model(m, asts, now).0 == (WorldModel {
            asteroids: expire_seq_model(m, asts, now).0.asteroids,
            bonus_emitted_total: expire_seq_model(m, asts, now).0.bonus_emitted_total,
            ..m
        }),
        expire_seq_model(m, asts, now).0.asteroids.len() <= m.asteroids.len(),
    decreases asts.len(),
{
    if asts.len() > 0 {
        lemma_expire_seq_props(m, asts.drop_last(), now);
        let prev = expire_seq_model(m, asts.drop_last(), now);
        let c = asts.last().0;
        let a = asts.last().1;
        if a.expiry < now {
            lemma_remove_model_uniq(prev.0, a.kind, c);
        }
    }
}

/// The spawn walk keeps every map's keys distinct, grows the asteroid
/// store by at most one entry per slot, and touches nothing but the
/// asteroid store, the emitted total and the spawn clock.
pub proof fn lemma_spawn_upto_props(m: WorldModel, now: u64, seed: u32, size: u32, n: nat)
    requires
        uniq_keys(m),
    ensures
        uniq_keys(spawn_upto_model(m, now, seed, size, n).0),
        spawn_upto_model(m, now, seed, size, n).0 == (WorldModel {
            asteroids: spawn_upto_model(m, now, seed, size, n).0.asteroids,
            bonus_emitted_total: spawn_upto_model(m, now, seed, size, n).0.bonus_emitted_total,
            last_bonus_spawn_tick: spawn_upto_model(m, now, seed, size, n).0.last_bonus_spawn_tick,
            ..m
        }),
        spawn_upto_model(m, now, seed, size, n).0.asteroids.len() <= m.asteroids.len() + n,
    decreases n,
{
    if n > 0 {
        lemma_spawn_upto_props(m, now, seed, size, (n - 1) as nat);
        let prev = spawn_upto_model(m, now, seed, size, (n - 1) as nat);
        let i = (n - 1) as u32;
        let c = Coord {
            x: spec_random(seed, i, size),
            y: spec_random(seed, (100 + i) as u32, size),
        };
        if !sl_has(prev.0.asteroids, c) {
            let roll = spec_random(seed, (500 + i) as u32, 100);
            let kind = kind_for_roll(
                roll,
                now,
                prev.0.bonus_pool,
                prev.0.bonus_emitted_total,
                prev.0.last_bonus_spawn_tick,
                prev.0.active_players,
            );
            let a = Asteroid { kind, expiry: (now + ASTEROID_TTL_CONST + i) as u64 };
            lemma_sl_push(prev.0.asteroids, c, a);
        }
    }
}

/// The decay walk keeps the surviving ships' keys distinct and keeps only
/// ships that were already recorded.
pub proof fn lemma_decay_seq_props(ships: Seq<(u64, Starship)>, players: u32)
    requires
        sl_uniq(ships),
    ensures
        sl_uniq(decay_seq_model(ships, players).0),
        forall|u: u64| #[trigger] sl_has(decay_seq_model(ships, players).0, u) ==> sl_has(ships, u),
    decreases ships.len(),
{
    if ships.len() > 0 {
        let head = ships.drop_last();
        assert(sl_uniq(head)) by {
            assert forall|i: int, j: int|
                0 <= i < j < head.len() implies #[trigger] head[i].0 != #[trigger] head[j].0 by {
                assert(head[i] == ships[i]);
                assert(head[j] == ships[j]);
            }
        }
        lemma_decay_seq_props(head, players);
        let prev = decay_seq_model(head, players);
        let owner = ships.last().0;
        let ship = ships.last().1;
        let left = ship.energy.saturating_sub(ENERGY_DEPLETION_RATE);
        if left != 0 {
            assert(!sl_has(prev.0, owner)) by {
                if sl_has(prev.0, owner) {
                    assert(sl_has(head, owner));
                    let j = crate::store::sl_idx(head, owner);
                    assert(0 <= j < head.len() && head[j].0 == owner);
                    assert(ships[j].0 == owner);
                    assert(ships[j].0 != ships[ships.len() - 1].0);
                }
            }
            lemma_sl_push(prev.0, owner, Starship { energy: left, ..ship });
        }
        assert forall|u: u64|
            #[trigger] sl_has(decay_seq_model(ships, players).0, u) implies sl_has(ships, u) by {
            if sl_has(prev.0, u) {
                assert(sl_has(head, u));
                let j = crate::store::sl_idx(head, u);
                assert(0 <= j < head.len() && head[j].0 == u);
                assert(ships[j].0 == u);
            } else {
                if left != 0 {
                    assert(u == owner);
                    assert(ships[ships.len() - 1].0 == u);
                }
            }
        }
    }
}

/// Chooses the kind of asteroid to spawn from one roll seeded by the
/// per-slot index, honouring the bonus emission cap against the prize pool,
/// the collectible cooldown, and the player-count rarity ranking.
pub fn get_random_asteroid_type(
    seed: u32,
    index: u32,
    block: u64,
    pool_size: u64,
    emitted: u64,
    last_spawn: u64,
    players: u32,
) -> (kind: AsteroidKind)
    requires
        index <= u32::MAX - 500,
    ensures
        kind == kind_for_roll(
            spec_random(seed, (500 + index) as u32, 100),
            block,
            pool_size,
            emitted,
            last_spawn,
            players,
        ),
{
    let roll = get_random(seed, 500 + index, 100);
    if roll < 10 && emitted < pool_size / BONUS_EMISSION_LIMIT_RATIO {
        if roll < 5 {
            AsteroidKind::Bonus0
        } else if roll < 7 {
            AsteroidKind::Bonus1
        } else {
            AsteroidKind::Bonus2
        }
    } else if roll < 30 {
        AsteroidKind::Energy
    } else if roll < 50 && last_spawn <= u64::MAX - (COLLECTIBLE_SPAWN_COOLDOWN as u64) && block
        > last_spawn + (COLLECTIBLE_SPAWN_COOLDOWN as u64) {
        if players > 2 {
            AsteroidKind::Collectible2
        } else if players > 1 {
            AsteroidKind::Collectible1
        } else {
            AsteroidKind::Collectible0
        }
    } else {
        AsteroidKind::Gold
    }
}

/// Resolves every flight whose end tick has been reached: collects at the
/// destination, relocates the ship, and drops the flight record.
fn resolve_flights(world: &mut World, now: u64, events: &mut Vec<Event>)
    requires
        uniq_keys(old(world)@),
    ensures
        final(world)@ == resolve_flights_model(old(world)@, now).0,
        final(events)@ == old(events)@ + resolve_flights_model(old(world)@, now).1,
        uniq_keys(final(world)@),
{
    let ghost m0 = world@;
    let ghost fls = world.flights@;
    let mut kept: Vec<(u64, Flight)> = Vec::new();
    let n = world.flights.len();
    let mut i: usize = 0;
    while i < n
        invariant
            i <= n,
            n == fls.len(),
            m0.flights == fls,
            uniq_keys(m0),
            sl_uniq(fls),
            world@ == resolve_seq_model(m0, fls.take(i as int), now).0,
            world@.flights == fls,
            uniq_keys(world@),
            kept@ == resolve_seq_model(m0, fls.take(i as int), now).1,
            events@ == old(events)@ + resolve_seq_model(m0, fls.take(i as int), now).2,
        decreases n - i,
    {
        proof {
            assert(fls.take(i as int + 1).drop_last() =~= fls.take(i as int));
            assert(fls.take(i as int + 1).last() == fls[i as int]);
        }
        let ghost prev = resolve_seq_model(m0, fls.take(i as int), now);
        let entry = world.flights[i];
        let user = entry.0;
        let fl = entry.1;
        if fl.end <= now {
            proof {
                lemma_collect_model_uniq(prev.0, user, fl.to);
                lemma_ship_moved_uniq(collect_model(prev.0, user, fl.to).0, user, fl.to);
            }
            collect_asteroid(world, user, fl.to, events);
            relocate_ship(world, user, fl.to);
            proof {
                assert(world@ == resolve_seq_model(m0, fls.take(i as int + 1), now).0);
                assert(events@ =~= old(events)@ + resolve_seq_model(
                    m0,
                    fls.take(i as int + 1),
                    now,
                ).2);
            }
        } else {
            kept.push((user, fl));
        }
        i += 1;
    }
    proof {
        assert(fls.take(n as int) =~= fls);
    }
    world.flights = kept;
    proof {
        lemma_resolve_seq_props(m0, fls, now);
        assert(final(world)@ =~= resolve_flights_model(m0, now).0);
    }
}

/// Removes every asteroid whose expiry tick has passed.
fn expire_asteroids(world: &mut World, now: u64, events: &mut Vec<Event>)
    requires
        uniq_keys(old(world)@),
    ensures
        final(world)@ == expire_model(old(world)@, now).0,
        final(events)@ == old(events)@ + expire_model(old(world)@, now).1,
        uniq_keys(final(world)@),
{
    let ghost m0 = world@;
    let n = world.asteroids.len();
    let mut snap: Vec<(Coord, Asteroid)> = Vec::new();
    let mut i: usize = 0;
    while i < n
        invariant
            i <= n,
            n == world.asteroids@.len(),
            world@ == m0,
            snap@ == m0.asteroids.take(i as int),
        decreases n - i,
    {
        let e = world.asteroids[i];
        snap.push(e);
        proof {
            assert(m0.asteroids.take(i as int + 1) =~= m0.asteroids.take(i as int).push(e));
        }
        i += 1;
    }
    proof {
        assert(snap@ =~= m0.asteroids);
    }
    let mut i: usize = 0;
    while i < n
        invariant
            i <= n,
            n == snap@.len(),
            snap@ == m0.asteroids,
            uniq_keys(m0),
            world@ == expire_seq_model(m0, snap@.take(i as int), now).0,
            uniq_keys(world@),
            events@ == old(events)@ + expire_seq_model(m0, snap@.take(i as int), now).1,
        decreases n - i,
    {
        proof {
            assert(snap@.take(i as int + 1).drop_last() =~= snap@.take(i as int));
            assert(snap@.take(i as int + 1).last() == snap@[i as int]);
        }
        let ghost prev = expire_seq_model(m0, snap@.take(i as int), now);
        let entry = snap[i];
        if entry.1.expiry < now {
            proof {
                lemma_remove_model_uniq(prev.0, entry.1.kind, entry.0);
            }
            remove_asteroid(world, entry.1.kind, entry.0, events);
            proof {
                assert(events@ =~= old(events)@ + expire_seq_model(
                    m0,
                    snap@.take(i as int + 1),
                    now,
                ).1);
            }
        }
        i += 1;
    }
    proof {
        assert(snap@.take(n as int) =~= snap@);
    }
}

/// Fills the grid back up to the target population: one placement and one
/// type roll per open slot, each slot abandoned for this tick if its drawn
/// coordinate is occupied.
fn spawn_asteroids(world: &mut World, now: u64, seed: u32, events: &mut Vec<Event>)
    requires
        uniq_keys(old(world)@),
        old(world)@.asteroids.len() <= u32::MAX,
        spec_map_size(old(world)@) >= 1,
        spec_max_asteroids(old(world)@) <= u32::MAX - 500,
        now + ASTEROID_TTL_CONST + spec_max_asteroids(old(world)@) <= u64::MAX,
    ensures
        final(world)@ == spawn_model(old(world)@, now, seed).0,
        final(events)@ == old(events)@ + spawn_model(old(world)@, now, seed).1,
        uniq_keys(final(world)@),
{
    let ghost m0 = world@;
    let size = world.map_size_effective();
    let count = world.asteroids.len() as u32;
    let maxa = world.max_asteroids_effective();
    let deficit = maxa.saturating_sub(count);
    proof {
        assert(deficit as nat == spawn_deficit(m0));
    }
    let mut i: u32 = 0;
    while i < deficit
        invariant
            i <= deficit,
            deficit as nat == spawn_deficit(m0),
            deficit <= maxa,
            maxa == spec_max_asteroids(m0),
            maxa <= u32::MAX - 500,
            size == spec_map_size(m0),
            size >= 1,
            now + ASTEROID_TTL_CONST + maxa <= u64::MAX,
            uniq_keys(m0),
            world@ == spawn_upto_model(m0, now, seed, size, i as nat).0,
            uniq_keys(world@),
            events@ == old(events)@ + spawn_upto_model(m0, now, seed, size, i as nat).1,
        decreases deficit - i,
    {
        let ghost prev = spawn_upto_model(m0, now, seed, size, i as nat);
        let x = get_random_x(seed, size, i);
        let y = get_random_y(seed, size, i);
        let c = Coord { x, y };
        match find_coord_key(&world.asteroids, c) {
            Some(_) => {
                proof {
                    assert(spawn_upto_model(m0, now, seed, size, i as nat + 1).0 == world@);
                    assert(events@ =~= old(events)@ + spawn_upto_model(
                        m0,
                        now,
                        seed,
                        size,
                        i as nat + 1,
                    ).1);
                }
            },
            None => {
                let kind = get_random_asteroid_type(
                    seed,
                    i,
                    now,
                    world.bonus_pool,
                    world.bonus_emitted_total,
                    world.last_bonus_spawn_tick,
                    world.active_players,
                );
                if matches!(kind, AsteroidKind::Bonus0 | AsteroidKind::Bonus1 | AsteroidKind::Bonus2) {
                    let amount = bonus_amount(kind);
                    world.bonus_emitted_total = world.bonus_emitted_total.saturating_add(
                        amount as u64,
                    );
                } else if matches!(
                    kind,
                    AsteroidKind::Collectible0 | AsteroidKind::Collectible1
                        | AsteroidKind::Collectible2,
                ) {
                    world.last_bonus_spawn_tick = now;
                }
                let expiry = now + (ASTEROID_TTL_CONST as u64) + (i as u64);
                world.asteroids.push((c, Asteroid { kind, expiry }));
                events.push(Event::AsteroidSpawned { resource_id: kind, coord: c });
                proof {
                    lemma_sl_push(prev.0.asteroids, c, Asteroid { kind, expiry });
                    assert(world@ =~= spawn_upto_model(m0, now, seed, size, i as nat + 1).0);
                    assert(events@ =~= old(events)@ + spawn_upto_model(
                        m0,
                        now,
                        seed,
                        size,
                        i as nat + 1,
                    ).1);
                }
            },
        }
        i += 1;
    }
}

/// Depletes every active ship's energy once, removing ships that reach
/// zero and keeping the active player count in step.
fn decay_ships(world: &mut World, events: &mut Vec<Event>)
    requires
        uniq_keys(old(world)@),
    ensures
        final(world)@ == decay_model(old(world)@).0,
        final(events)@ == old(events)@ + decay_model(old(world)@).1,
        uniq_keys(final(world)@),
{
    let ghost m0 = world@;
    let n = world.ships.len();
    let mut kept: Vec<(u64, Starship)> = Vec::new();
    let mut i: usize = 0;
    while i < n
        invariant
            i <= n,
            n == world.ships@.len(),
            world@ == (WorldModel { active_players: world@.active_players, ..m0 }),
            kept@ == decay_seq_model(m0.ships.take(i as int), m0.active_players).0,
            world@.active_players == decay_seq_model(m0.ships.take(i as int), m0.active_players).1,
            events@ == old(events)@ + decay_seq_model(m0.ships.take(i as int), m0.active_players).2,
        decreases n - i,
    {
        proof {
            assert(m0.ships.take(i as int + 1).drop_last() =~= m0.ships.take(i as int));
            assert(m0.ships.take(i as int + 1).last() == m0.ships[i as int]);
        }
        let entry = world.ships[i];
        let owner = entry.0;
        let ship = entry.1;
        let left = ship.energy.saturating_sub(ENERGY_DEPLETION_RATE);
        if left == 0 {
            events.push(Event::EnergyDepleted { owner });
            world.active_players = world.active_players.saturating_sub(1);
        } else {
            kept.push((owner, Starship { pos: ship.pos, energy: left, skin: ship.skin }));
        }
        i += 1;
    }
    proof {
        assert(m0.ships.take(n as int) =~= m0.ships);
    }
    world.ships = kept;
    proof {
        lemma_decay_seq_props(m0.ships, m0.active_players);
        assert(final(world)@ =~= decay_model(m0).0);
    }
}

impl World {
    /// Advances the world by one tick: resolves completed flights, expires
    /// and replenishes asteroids, and decays ship energy, in that fixed
    /// order. `now` is the current discrete step number and `seed` the
    /// reproducible random material for this tick, of which the first four
    /// bytes are read.
    pub fn on_initialize(&mut self, now: u64, seed: &Vec<u8>, events: &mut Vec<Event>)
        requires
            uniq_keys(old(self)@),
            old(self)@.asteroids.len() <= u32::MAX,
            seed@.len() >= 4,
            spec_map_size(old(self)@) >= 1,
            spec_max_asteroids(old(self)@) <= u32::MAX - 500,
            now + ASTEROID_TTL_CONST + spec_max_asteroids(old(self)@) <= u64::MAX,
        ensures
            final(self)@ == tick_model(old(self)@, now, le_u32_of(seed@) as u32).0,
            final(events)@ == old(events)@ + tick_model(old(self)@, now, le_u32_of(seed@) as u32).1,
            uniq_keys(final(self)@),
    {
        let ghost m0 = self@;
        let ghost s = le_u32_of(seed@) as u32;
        let hash = get_hash_u32(seed);
        resolve_flights(self, now, events);
        proof {
            lemma_resolve_seq_props(m0, m0.flights, now);
        }
        let ghost m1 = resolve_flights_model(m0, now).0;
        expire_asteroids(self, now, events);
        proof {
            lemma_expire_seq_props(m1, m1.asteroids, now);
        }
        let ghost m2 = expire_model(m1, now).0;
        spawn_asteroids(self, now, hash, events);
        let ghost m3 = spawn_model(m2, now, s).0;
        decay_ships(self, events);
        proof {
            assert(final(self)@ == tick_model(m0, now, s).0);
            assert(final(events)@ =~= old(events)@ + tick_model(m0, now, s).1);
        }
    }
}

} // verus!
