//! The global laws of the engine, stated over the models and proved once
//! for every reachable input:
//!
//! - no two asteroids ever share a coordinate, and an account never holds
//!   more than one flight or one ship (key distinctness, [`uniq_keys`]);
//! - the emitted bonus total always equals the sum of payouts of the bonus
//!   asteroids currently present ([`wf`]);
//! - both hold after any sequence of ticks and actions from any
//!   well-formed state ([`lemma_run_model_wf`]);
//! - collection at an empty coordinate is a complete no-op, twice over
//!   ([`lemma_collect_empty_noop`]);
//! - repeated energy depletion saturates at exactly zero
//!   ([`lemma_depletion_converges`]), a depleting ship announces its
//!   depletion exactly once, and a departed ship stays gone
//!   ([`lemma_decay_one_depletion`], [`lemma_tick_ship_absent`]).

use vstd::prelude::*;

use crate::actions::admin_reset_model;
use crate::actions::start_flight_allowed;
use crate::actions::start_flight_model;
use crate::actions::start_game_allowed;
use crate::actions::start_game_model;
use crate::actions::try_collect_allowed;
use crate::engine::add_resource_model;
use crate::engine::collect_credit_model;
use crate::engine::collect_model;
use crate::engine::lemma_add_resource_uniq;
use crate::engine::lemma_collect_model_uniq;
use crate::engine::lemma_remove_model_uniq;
use crate::engine::lemma_ship_moved_uniq;
use crate::engine::remove_model;
use crate::engine::ship_moved_model;
use crate::store::lemma_sl_idx_of;
use crate::store::lemma_sl_push;
use crate::store::lemma_sl_update;
use crate::store::sl_get;
use crate::store::sl_has;
use crate::store::sl_idx;
use crate::store::sl_uniq;
use crate::tick::decay_model;
use crate::tick::decay_seq_model;
use crate::tick::expire_model;
use crate::tick::expire_seq_model;
use crate::tick::kind_for_roll;
use crate::tick::lemma_decay_seq_props;
use crate::tick::lemma_expire_seq_props;
use crate::tick::lemma_resolve_seq_props;
use crate::tick::lemma_spawn_upto_props;
use crate::tick::resolve_flights_model;
use crate::tick::resolve_one_model;
use crate::tick::resolve_seq_model;
use crate::tick::spawn_deficit;
use crate::tick::spawn_iter_model;
use crate::tick::spawn_model;
use crate::tick::spawn_upto_model;
use crate::tick::tick_model;
use crate::types::Asteroid;
use crate::types::AsteroidKind;
use crate::types::Coord;
use crate::types::Event;
use crate::types::Flight;
use crate::types::Starship;
use crate::types::BONUS_EMISSION_LIMIT_RATIO;
use crate::types::ENERGY_ASTEROID_REWARD;
use crate::types::bonus_payout;
use crate::types::is_bonus;
use crate::types::is_collectible;
use crate::world::WorldModel;
use crate::world::bonus_sum;
use crate::world::lemma_bonus_sum_nonneg;
use crate::world::lemma_bonus_sum_push;
use crate::world::lemma_bonus_sum_remove;
use crate::world::spec_map_size;
use crate::world::uniq_keys;
use crate::world::wf;

verus! {

/// Crediting a ledger never disturbs the asteroid store or the emitted
/// total, so well-formedness survives it.
pub proof fn lemma_add_resource_wf(m: WorldModel, user: u64, kind: AsteroidKind, amount: u64)
    requires
        wf(m),
    ensures
        wf(add_resource_model(m, user, kind, amount)),
{
    lemma_add_resource_uniq(m, user, kind, amount);
}

/// Removing a present asteroid keeps the world well formed: the emitted
/// total equals the payouts of all present bonus asteroids, so it covers
/// the removed one's payout and the saturating subtraction is exact.
pub proof fn lemma_remove_model_wf(m: WorldModel, a: Asteroid, coord: Coord)
    requires
        wf(m),
        sl_get(m.asteroids, coord) == Some(a),
    ensures
        wf(remove_model(m, a.kind, coord).0),
{
    lemma_remove_model_uniq(m, a.kind, coord);
    let i = sl_idx(m.asteroids, coord);
    assert(0 <= i < m.asteroids.len() && m.asteroids[i].0 == coord);
    assert(m.asteroids[i].1 == a);
    lemma_bonus_sum_remove(m.asteroids, i);
    lemma_bonus_sum_nonneg(m.asteroids.remove(i));
}

/// The crediting half of a collection never disturbs the asteroid store or
/// the emitted total, so well-formedness survives it.
pub proof fn lemma_collect_credit_wf(m: WorldModel, user: u64, coord: Coord, kind: AsteroidKind)
    requires
        wf(m),
    ensures
        wf(collect_credit_model(m, user, coord, kind).0),
        collect_credit_model(m, user, coord, kind).0.asteroids == m.asteroids,
{
    if kind is Energy {
        if sl_has(m.ships, user) {
            let i = sl_idx(m.ships, user);
            assert(0 <= i < m.ships.len() && m.ships[i].0 == user);
            let ship = m.ships[i].1;
            let moved = Starship {
                pos: coord,
                energy: ship.energy.saturating_add(ENERGY_ASTEROID_REWARD),
                skin: ship.skin,
            };
            lemma_sl_update(m.ships, i, user, moved);
        }
    } else if kind is Gold || is_collectible(kind) {
        lemma_add_resource_wf(m, user, kind, 1);
    } else {
        lemma_add_resource_wf(m, user, AsteroidKind::Bonus0, bonus_payout(kind) as u64);
    }
}

/// A collection keeps the world well formed, whatever stands at the
/// coordinate.
pub proof fn lemma_collect_model_wf(m: WorldModel, user: u64, coord: Coord)
    requires
        wf(m),
    ensures
        wf(collect_model(m, user, coord).0),
{
    match sl_get(m.asteroids, coord) {
        None => {},
        Some(ast) => {
            lemma_collect_credit_wf(m, user, coord, ast.kind);
            let credited = collect_credit_model(m, user, coord, ast.kind);
            assert(sl_get(credited.0.asteroids, coord) == Some(ast));
            lemma_remove_model_wf(credited.0, ast, coord);
        },
    }
}

/// Moving a ship keeps the world well formed.
pub proof fn lemma_ship_moved_wf(m: WorldModel, user: u64, coord: Coord)
    requires
        wf(m),
    ensures
        wf(ship_moved_model(m, user, coord)),
{
    lemma_ship_moved_uniq(m, user, coord);
}

/// The flight resolution walk keeps the world well formed.
pub proof fn lemma_resolve_seq_wf(m: WorldModel, fls: Seq<(u64, Flight)>, now: u64)
    requires
        wf(m),
    ensures
        wf(resolve_seq_model(m, fls, now).0),
    decreases fls.len(),
{
    if fls.len() > 0 {
        lemma_resolve_seq_wf(m, fls.drop_last(), now);
        let prev = resolve_seq_model(m, fls.drop_last(), now);
        let user = fls.last().0;
        let fl = fls.last().1;
        if fl.end <= now {
            lemma_collect_model_wf(prev.0, user, fl.to);
            lemma_ship_moved_wf(collect_model(prev.0, user, fl.to).0, user, fl.to);
        }
    }
}

/// The flight resolution phase keeps the world well formed: the walked
/// state is well formed and the kept flights keep their distinct keys.
pub proof fn lemma_resolve_flights_wf(m: WorldModel, now: u64)
    requires
        wf(m),
    ensures
        wf(resolve_flights_model(m, now).0),
{
    lemma_resolve_seq_wf(m, m.flights, now);
    lemma_resolve_seq_props(m, m.flights, now);
}

/// The expiry walk keeps the world well formed, provided every entry of
/// the walked snapshot is (still) bound in the asteroid store: each
/// removal then hits a present asteroid of the recorded kind.
pub proof fn lemma_expire_seq_wf(m: WorldModel, asts: Seq<(Coord, Asteroid)>, now: u64)
    requires
        wf(m),
        sl_uniq(asts),
        forall|j: int|
            0 <= j < asts.len() ==> sl_get(m.asteroids, #[trigger] asts[j].0) == Some(asts[j].1),
    ensures
        wf(expire_seq_model(m, asts, now).0),
        forall|c2: Coord|
            !sl_has(asts, c2) ==> sl_get(expire_seq_model(m, asts, now).0.asteroids, c2) == sl_get(
                m.asteroids,
                c2,
            ),
    decreases asts.len(),
{
    if asts.len() > 0 {
        let head = asts.drop_last();
        assert(sl_uniq(head)) by {
            assert forall|i: int, j: int|
                0 <= i < j < head.len() implies #[trigger] head[i].0 != #[trigger] head[j].0 by {
                assert(head[i] == asts[i]);
                assert(head[j] == asts[j]);
            }
        }
        assert(forall|j: int|
            0 <= j < head.len() ==> sl_get(m.asteroids, #[trigger] head[j].0) == Some(head[j].1))
            by {
            assert forall|j: int|
                0 <= j < head.len() implies sl_get(m.asteroids, #[trigger] head[j].0) == Some(
                head[j].1,
            ) by {
                assert(head[j] == asts[j]);
            }
        }
        lemma_expire_seq_wf(m, head, now);
        let prev = expire_seq_model(m, head, now);
        let c = asts.last().0;
        let a = asts.last().1;
        assert(!sl_has(head, c)) by {
            if sl_has(head, c) {
                let j = sl_idx(head, c);
                assert(0 <= j < head.len() && head[j].0 == c);
                assert(asts[j].0 == c);
                assert(asts[j].0 != asts[asts.len() - 1].0);
            }
        }
        assert(sl_get(prev.0.asteroids, c) == sl_get(m.asteroids, c));
        assert(sl_get(m.asteroids, c) == Some(a)) by {
            assert(asts[asts.len() - 1].0 == c);
        }
        if a.expiry < now {
            lemma_remove_model_wf(prev.0, a, c);
            lemma_remove_model_uniq(prev.0, a.kind, c);
        }
        assert forall|c2: Coord|
            !sl_has(asts, c2) implies sl_get(expire_seq_model(m, asts, now).0.asteroids, c2)
            == sl_get(m.asteroids, c2) by {
            assert(!sl_has(head, c2)) by {
                if sl_has(head, c2) {
                    let j = sl_idx(head, c2);
                    assert(0 <= j < head.len() && head[j].0 == c2);
                    assert(asts[j].0 == c2);
                    assert(sl_has(asts, c2));
                }
            }
            assert(c2 != c) by {
                assert(asts[asts.len() - 1].0 == c);
            }
        }
    }
}

/// The expiry phase keeps the world well formed.
pub proof fn lemma_expire_wf(m: WorldModel, now: u64)
    requires
        wf(m),
    ensures
        wf(expire_model(m, now).0),
{
    assert forall|j: int|
        0 <= j < m.asteroids.len() implies sl_get(m.asteroids, #[trigger] m.asteroids[j].0) == Some(
        m.asteroids[j].1,
    ) by {
        lemma_sl_idx_of(m.asteroids, m.asteroids[j].0, j);
    }
    lemma_expire_seq_wf(m, m.asteroids, now);
}

/// One spawn slot keeps the world well formed except possibly for the
/// population bound, which the caller tracks: a chosen bonus tier's payout
/// joins the emitted total exactly (the emission gate keeps the sum far
/// from the ceiling), and any other kind leaves the sum untouched.
pub proof fn lemma_spawn_iter_wf(m: WorldModel, now: u64, seed: u32, size: u32, i: u32)
    requires
        uniq_keys(m),
        m.bonus_emitted_total == bonus_sum(m.asteroids),
    ensures
        uniq_keys(spawn_iter_model(m, now, seed, size, i).0),
        spawn_iter_model(m, now, seed, size, i).0.bonus_emitted_total == bonus_sum(
            spawn_iter_model(m, now, seed, size, i).0.asteroids,
        ),
        spawn_iter_model(m, now, seed, size, i).0.asteroids.len() <= m.asteroids.len() + 1,
{
    let c = Coord {
        x: crate::utils::spec_random(seed, i, size),
        y: crate::utils::spec_random(seed, (100 + i) as u32, size),
    };
    if !sl_has(m.asteroids, c) {
        let roll = crate::utils::spec_random(seed, (500 + i) as u32, 100);
        let kind = kind_for_roll(
            roll,
            now,
            m.bonus_pool,
            m.bonus_emitted_total,
            m.last_bonus_spawn_tick,
            m.active_players,
        );
        let a = Asteroid { kind, expiry: (now + crate::types::ASTEROID_TTL_CONST + i) as u64 };
        lemma_sl_push(m.asteroids, c, a);
        lemma_bonus_sum_push(m.asteroids, c, a);
        if is_bonus(kind) {
            assert(m.bonus_emitted_total < m.bonus_pool / BONUS_EMISSION_LIMIT_RATIO);
            assert(m.bonus_emitted_total + bonus_payout(kind) <= u64::MAX);
        } else {
            assert(bonus_payout(kind) == 0);
        }
    }
}

/// The spawn walk keeps the world well formed, provided the target
/// population still fits the count's type.
pub proof fn lemma_spawn_upto_wf(m: WorldModel, now: u64, seed: u32, size: u32, n: nat)
    requires
        wf(m),
        m.asteroids.len() + n <= u32::MAX,
    ensures
        wf(spawn_upto_model(m, now, seed, size, n).0),
    decreases n,
{
    if n > 0 {
        lemma_spawn_upto_wf(m, now, seed, size, (n - 1) as nat);
        lemma_spawn_upto_props(m, now, seed, size, (n - 1) as nat);
        let prev = spawn_upto_model(m, now, seed, size, (n - 1) as nat);
        lemma_spawn_iter_wf(prev.0, now, seed, size, (n - 1) as u32);
    }
}

/// The spawn phase keeps the world well formed: it fills at most up to the
/// configured target population.
pub proof fn lemma_spawn_wf(m: WorldModel, now: u64, seed: u32)
    requires
        wf(m),
    ensures
        wf(spawn_model(m, now, seed).0),
{
    lemma_spawn_upto_wf(m, now, seed, spec_map_size(m), spawn_deficit(m));
}

/// The decay phase keeps the world well formed.
pub proof fn lemma_decay_wf(m: WorldModel)
    requires
        wf(m),
    ensures
        wf(decay_model(m).0),
{
    lemma_decay_seq_props(m.ships, m.active_players);
}

/// One full tick keeps the world well formed: after it, as before it, no
/// two asteroids share a coordinate, every account holds at most one
/// flight and one ship, and the emitted bonus total equals the sum of
/// payouts of the bonus asteroids present.
pub proof fn lemma_tick_model_wf(m: WorldModel, now: u64, seed: u32)
    requires
        wf(m),
    ensures
        wf(tick_model(m, now, seed).0),
{
    lemma_resolve_flights_wf(m, now);
    let m1 = resolve_flights_model(m, now).0;
    lemma_expire_wf(m1, now);
    let m2 = expire_model(m1, now).0;
    lemma_spawn_wf(m2, now, seed);
    let m3 = spawn_model(m2, now, seed).0;
    lemma_decay_wf(m3);
}

/// An accepted flight start keeps the world well formed: the new flight's
/// key was free.
pub proof fn lemma_start_flight_wf(m: WorldModel, user: u64, coord: Coord, now: u64)
    requires
        wf(m),
        start_flight_allowed(m, user),
    ensures
        wf(start_flight_model(m, user, coord, now).0),
{
    let ship = sl_get(m.ships, user)->Some_0;
    let fl = Flight { from: ship.pos, to: coord, start: now, end: (now + 1) as u64 };
    lemma_sl_push(m.flights, user, fl);
}

/// An accepted game start keeps the world well formed: the new ship's key
/// was free.
pub proof fn lemma_start_game_wf(m: WorldModel, user: u64, coord: Coord, skin: u32)
    requires
        wf(m),
        start_game_allowed(m, user, coord, skin),
    ensures
        wf(start_game_model(m, user, coord, skin).0),
{
    lemma_sl_push(
        m.ships,
        user,
        Starship { pos: coord, energy: crate::types::DEFAULT_ENERGY, skin },
    );
}

/// The administrative reset keeps the world well formed: every ship keeps
/// its key, and the cleared flight map is trivially distinct.
pub proof fn lemma_admin_reset_wf(m: WorldModel)
    requires
        wf(m),
    ensures
        wf(admin_reset_model(m)),
{
    let s2 = admin_reset_model(m).ships;
    assert forall|i: int, j: int|
        0 <= i < j < s2.len() implies #[trigger] s2[i].0 != #[trigger] s2[j].0 by {
        assert(s2[i].0 == m.ships[i].0);
        assert(s2[j].0 == m.ships[j].0);
    }
}

/// One interaction with the engine, as the driver may issue them in any
/// order: a tick, a direct action, or an administrative command.
pub enum GameAction {
    Tick { now: u64, seed: u32 },
    StartGame { user: u64, coord: Coord, skin: u32 },
    StartFlight { user: u64, coord: Coord, now: u64 },
    TryCollect { user: u64, coord: Coord },
    CauseError,
    AdminSetMapSize { size: u32 },
    AdminSetMaxAsteroidsCount { count: u32 },
    AdminResetGame,
}

/// The state transition of one interaction: a rejected action leaves the
/// world exactly as it was.
pub open spec fn step_model(m: WorldModel, a: GameAction) -> WorldModel {
    match a {
        GameAction::Tick { now, seed } => tick_model(m, now, seed).0,
        GameAction::StartGame { user, coord, skin } => if start_game_allowed(m, user, coord, skin) {
            start_game_model(m, user, coord, skin).0
        } else {
            m
        },
        GameAction::StartFlight { user, coord, now } => if start_flight_allowed(m, user) {
            start_flight_model(m, user, coord, now).0
        } else {
            m
        },
        GameAction::TryCollect { user, coord } => if try_collect_allowed(m, user, coord) {
            collect_model(m, user, coord).0
        } else {
            m
        },
        GameAction::CauseError => match m.something {
            Some(v) => if v < u32::MAX {
                WorldModel { something: Some((v + 1) as u32), ..m }
            } else {
                m
            },
            None => m,
        },
        GameAction::AdminSetMapSize { size } => WorldModel { map_size: Some(size), ..m },
        GameAction::AdminSetMaxAsteroidsCount { count } => WorldModel {
            max_asteroids: Some(count),
            ..m
        },
        GameAction::AdminResetGame => admin_reset_model(m),
    }
}

/// The state after a whole sequence of interactions, applied in order.
pub open spec fn run_model(m: WorldModel, acts: Seq<GameAction>) -> WorldModel
    decreases acts.len(),
{
    if acts.len() == 0 {
        m
    } else {
        step_model(run_model(m, acts.drop_last()), acts.last())
    }
}

/// After any sequence of ticks and actions from a well-formed state the
/// world is still well formed: no two asteroids share a coordinate, no
/// account holds two flights or two ships, and the emitted bonus total
/// equals the sum of payouts of the bonus asteroids present.
pub proof fn lemma_run_model_wf(m: WorldModel, acts: Seq<GameAction>)
    requires
        wf(m),
    ensures
        wf(run_model(m, acts)),
    decreases acts.len(),
{
    if acts.len() > 0 {
        lemma_run_model_wf(m, acts.drop_last());
        let prev = run_model(m, acts.drop_last());
        match acts.last() {
            GameAction::Tick { now, seed } => {
                lemma_tick_model_wf(prev, now, seed);
            },
            GameAction::StartGame { user, coord, skin } => {
                if start_game_allowed(prev, user, coord, skin) {
                    lemma_start_game_wf(prev, user, coord, skin);
                }
            },
            GameAction::StartFlight { user, coord, now } => {
                if start_flight_allowed(prev, user) {
                    lemma_start_flight_wf(prev, user, coord, now);
                }
            },
            GameAction::TryCollect { user, coord } => {
                if try_collect_allowed(prev, user, coord) {
                    lemma_collect_model_wf(prev, user, coord);
                }
            },
            GameAction::CauseError => {},
            GameAction::AdminSetMapSize { size: _ } => {},
            GameAction::AdminSetMaxAsteroidsCount { count: _ } => {},
            GameAction::AdminResetGame => {
                lemma_admin_reset_wf(prev);
            },
        }
    }
}

/// Collection at a coordinate holding no asteroid is a complete no-op: no
/// state change and no notification, and so again on a second call.
pub proof fn lemma_collect_empty_noop(m: WorldModel, user: u64, coord: Coord)
    requires
        !sl_has(m.asteroids, coord),
    ensures
        collect_model(m, user, coord).0 == m,
        collect_model(m, user, coord).1 == Seq::<Event>::empty(),
        collect_model(collect_model(m, user, coord).0, user, coord).0 == m,
        collect_model(collect_model(m, user, coord).0, user, coord).1 == Seq::<Event>::empty(),
{
}

/// A ship's energy after `n` rounds of per-tick depletion.
pub open spec fn energy_after(e: u32, n: nat) -> u32
    decreases n,
{
    if n == 0 {
        e
    } else {
        energy_after(e, (n - 1) as nat).saturating_sub(crate::types::ENERGY_DEPLETION_RATE)
    }
}

/// Each depletion round takes at least one unit until nothing is left.
pub proof fn lemma_energy_after_bound(e: u32, n: nat)
    ensures
        energy_after(e, n) as int <= (if e >= n {
            e - n
        } else {
            0int
        }),
    decreases n,
{
    if n > 0 {
        lemma_energy_after_bound(e, (n - 1) as nat);
    }
}

/// Repeated depletion converges to exactly zero and stays there: it never
/// wraps below zero, and once zero is reached every further round leaves
/// zero.
pub proof fn lemma_depletion_converges(e: u32, n: nat)
    requires
        n >= e,
    ensures
        energy_after(e, n) == 0,
{
    lemma_energy_after_bound(e, n);
}

/// How many depletion notifications for account `u` a notification
/// sequence carries.
pub open spec fn depleted_count(evs: Seq<Event>, u: u64) -> int
    decreases evs.len(),
{
    if evs.len() == 0 {
        0
    } else {
        depleted_count(evs.drop_last(), u) + (if evs.last() == (Event::EnergyDepleted { owner: u }) {
            1int
        } else {
            0int
        })
    }
}

/// Counting depletion notifications distributes over concatenation.
pub proof fn lemma_depleted_count_append(a: Seq<Event>, b: Seq<Event>, u: u64)
    ensures
        depleted_count(a + b, u) == depleted_count(a, u) + depleted_count(b, u),
    decreases b.len(),
{
    if b.len() == 0 {
        assert(a + b =~= a);
    } else {
        assert((a + b).drop_last() =~= a + b.drop_last());
        assert((a + b).last() == b.last());
        lemma_depleted_count_append(a, b.drop_last(), u);
    }
}

/// The decay phase announces the depletion of account `u` exactly once if
/// its ship is present and about to reach zero, and never otherwise; and
/// its ship survives the phase exactly when its energy exceeds the
/// depletion rate.
pub proof fn lemma_decay_one_depletion(ships: Seq<(u64, Starship)>, players: u32, u: u64)
    requires
        sl_uniq(ships),
    ensures
        depleted_count(decay_seq_model(ships, players).2, u) == (if sl_has(ships, u) && sl_get(
            ships,
            u,
        )->Some_0.energy <= crate::types::ENERGY_DEPLETION_RATE {
            1int
        } else {
            0int
        }),
        sl_has(decay_seq_model(ships, players).0, u) <==> (sl_has(ships, u) && sl_get(ships, u)->Some_0.energy
            > crate::types::ENERGY_DEPLETION_RATE),
    decreases ships.len(),
{
    if ships.len() > 0 {
        let head = ships.drop_last();
        assert(sl_uniq(head)) by {
            assert forall|i: int, j: int|
                0 <= i < j < head.len() implies #[trigger] head[i].0 != #[trigger] head[j].0 by {
                assert(head[i] == ships[i]);
                assert(head[j] == ships[j]);
            }
        }
        lemma_decay_one_depletion(head, players, u);
        lemma_decay_seq_props(head, players);
        let prev = decay_seq_model(head, players);
        let owner = ships.last().0;
        let ship = ships.last().1;
        let left = ship.energy.saturating_sub(crate::types::ENERGY_DEPLETION_RATE);
        assert(!sl_has(head, owner)) by {
            if sl_has(head, owner) {
                let j = sl_idx(head, owner);
                assert(0 <= j < head.len() && head[j].0 == owner);
                assert(ships[j].0 == owner);
                assert(ships[j].0 != ships[ships.len() - 1].0);
            }
        }
        lemma_sl_idx_of(ships, owner, ships.len() - 1);
        assert(forall|u2: u64|
            u2 != owner ==> #[trigger] sl_get(ships, u2) == sl_get(head, u2) && (sl_has(ships, u2)
                <==> sl_has(head, u2))) by {
            assert(ships =~= head.push((owner, ship)));
            lemma_sl_push(head, owner, ship);
        }
        if left == 0 {
            assert(decay_seq_model(ships, players).2 == prev.2.push(
                Event::EnergyDepleted { owner },
            ));
            assert(prev.2.push(Event::EnergyDepleted { owner }).drop_last() =~= prev.2);
            assert(!sl_has(prev.0, owner));
        } else {
            lemma_sl_push(prev.0, owner, Starship { energy: left, ..ship });
        }
    }
}

/// A one-notification sequence counts one depletion exactly when it is
/// that depletion.
pub proof fn lemma_depleted_count_single(e: Event, u: u64)
    ensures
        depleted_count(seq![e], u) == (if e == (Event::EnergyDepleted { owner: u }) {
            1int
        } else {
            0int
        }),
{
    assert(seq![e].drop_last() =~= Seq::<Event>::empty());
    assert(seq![e].len() == 1);
    assert(seq![e].last() == e);
    assert(depleted_count(seq![e], u) == depleted_count(Seq::<Event>::empty(), u) + (if seq![e].last()
        == (Event::EnergyDepleted { owner: u }) {
        1int
    } else {
        0int
    }));
}

/// A collection never announces a depletion.
pub proof fn lemma_collect_no_depleted(m: WorldModel, user: u64, coord: Coord, u: u64)
    ensures
        depleted_count(collect_model(m, user, coord).1, u) == 0,
{
    match sl_get(m.asteroids, coord) {
        None => {},
        Some(ast) => {
            let credited = collect_credit_model(m, user, coord, ast.kind);
            let ev1 = Event::AsteroidCollected {
                owner: user,
                coord,
                resource: ast.kind,
                amount: credited.1,
            };
            lemma_depleted_count_append(seq![ev1], seq![Event::AsteroidRemoved { coord }], u);
            lemma_depleted_count_single(ev1, u);
            lemma_depleted_count_single(Event::AsteroidRemoved { coord }, u);
        },
    }
}

/// The flight resolution walk never announces a depletion, and neither
/// creates nor loses any account's ship.
pub proof fn lemma_resolve_seq_ships(m: WorldModel, fls: Seq<(u64, Flight)>, now: u64, u: u64)
    requires
        uniq_keys(m),
    ensures
        depleted_count(resolve_seq_model(m, fls, now).2, u) == 0,
        sl_has(resolve_seq_model(m, fls, now).0.ships, u) <==> sl_has(m.ships, u),
    decreases fls.len(),
{
    if fls.len() > 0 {
        let head = fls.drop_last();
        lemma_resolve_seq_ships(m, head, now, u);
        let prev = resolve_seq_model(m, head, now);
        let user = fls.last().0;
        let fl = fls.last().1;
        if fl.end <= now {
            lemma_resolve_seq_uniq_any(m, head, now);
            lemma_collect_no_depleted(prev.0, user, fl.to, u);
            lemma_depleted_count_append(prev.2, resolve_one_model(prev.0, user, fl).1, u);
            lemma_collect_ships_keys(prev.0, user, fl.to, u);
            let mc = collect_model(prev.0, user, fl.to).0;
            lemma_collect_model_uniq(prev.0, user, fl.to);
            lemma_ship_moved_keys(mc, user, fl.to, u);
        }
    }
}

/// Helper: the walked state of the flight resolution keeps distinct keys
/// for any flight list, not only the world's own.
pub proof fn lemma_resolve_seq_uniq_any(m: WorldModel, fls: Seq<(u64, Flight)>, now: u64)
    requires
        uniq_keys(m),
    ensures
        uniq_keys(resolve_seq_model(m, fls, now).0),
    decreases fls.len(),
{
    if fls.len() > 0 {
        lemma_resolve_seq_uniq_any(m, fls.drop_last(), now);
        let prev = resolve_seq_model(m, fls.drop_last(), now);
        let user = fls.last().0;
        let fl = fls.last().1;
        if fl.end <= now {
            lemma_collect_model_uniq(prev.0, user, fl.to);
            lemma_ship_moved_uniq(collect_model(prev.0, user, fl.to).0, user, fl.to);
        }
    }
}

/// A collection neither creates nor loses any account's ship.
pub proof fn lemma_collect_ships_keys(m: WorldModel, user: u64, coord: Coord, u: u64)
    requires
        sl_uniq(m.ships),
    ensures
        sl_has(collect_model(m, user, coord).0.ships, u) <==> sl_has(m.ships, u),
{
    match sl_get(m.asteroids, coord) {
        None => {},
        Some(ast) => {
            if ast.kind is Energy && sl_has(m.ships, user) {
                let i = sl_idx(m.ships, user);
                assert(0 <= i < m.ships.len() && m.ships[i].0 == user);
                let ship = m.ships[i].1;
                let moved = Starship {
                    pos: coord,
                    energy: ship.energy.saturating_add(ENERGY_ASTEROID_REWARD),
                    skin: ship.skin,
                };
                lemma_sl_update(m.ships, i, user, moved);
            }
        },
    }
}

/// Relocating a ship neither creates nor loses any account's ship.
pub proof fn lemma_ship_moved_keys(m: WorldModel, user: u64, coord: Coord, u: u64)
    requires
        sl_uniq(m.ships),
    ensures
        sl_has(ship_moved_model(m, user, coord).ships, u) <==> sl_has(m.ships, u),
{
    if sl_has(m.ships, user) {
        let i = sl_idx(m.ships, user);
        assert(0 <= i < m.ships.len() && m.ships[i].0 == user);
        lemma_sl_update(m.ships, i, user, Starship { pos: coord, ..m.ships[i].1 });
    }
}

/// The expiry walk never announces a depletion.
pub proof fn lemma_expire_no_depleted(m: WorldModel, asts: Seq<(Coord, Asteroid)>, now: u64, u: u64)
    ensures
        depleted_count(expire_seq_model(m, asts, now).1, u) == 0,
    decreases asts.len(),
{
    if asts.len() > 0 {
        lemma_expire_no_depleted(m, asts.drop_last(), now, u);
        let prev = expire_seq_model(m, asts.drop_last(), now);
        let c = asts.last().0;
        let a = asts.last().1;
        if a.expiry < now {
            lemma_depleted_count_append(prev.1, remove_model(prev.0, a.kind, c).1, u);
            lemma_depleted_count_single(Event::AsteroidRemoved { coord: c }, u);
        }
    }
}

/// The spawn walk never announces a depletion.
pub proof fn lemma_spawn_no_depleted(m: WorldModel, now: u64, seed: u32, size: u32, n: nat, u: u64)
    ensures
        depleted_count(spawn_upto_model(m, now, seed, size, n).1, u) == 0,
    decreases n,
{
    if n > 0 {
        lemma_spawn_no_depleted(m, now, seed, size, (n - 1) as nat, u);
        let prev = spawn_upto_model(m, now, seed, size, (n - 1) as nat);
        let one = spawn_iter_model(prev.0, now, seed, size, (n - 1) as u32);
        lemma_depleted_count_append(prev.1, one.1, u);
        if one.1.len() > 0 {
            lemma_depleted_count_single(one.1[0], u);
            assert(one.1 =~= seq![one.1[0]]);
        }
    }
}

/// An account whose ship is gone stays without a ship through a whole
/// tick, and the tick announces no depletion for it: a depleting ship's
/// single notification is never repeated.
pub proof fn lemma_tick_ship_absent(m: WorldModel, now: u64, seed: u32, u: u64)
    requires
        uniq_keys(m),
        !sl_has(m.ships, u),
    ensures
        !sl_has(tick_model(m, now, seed).0.ships, u),
        depleted_count(tick_model(m, now, seed).1, u) == 0,
{
    let resolved = resolve_flights_model(m, now);
    let m1 = resolved.0;
    lemma_resolve_seq_ships(m, m.flights, now, u);
    lemma_resolve_seq_props(m, m.flights, now);
    let expired = expire_model(m1, now);
    let m2 = expired.0;
    lemma_expire_seq_props(m1, m1.asteroids, now);
    lemma_expire_no_depleted(m1, m1.asteroids, now, u);
    assert(m2.ships == m1.ships);
    let spawned = spawn_model(m2, now, seed);
    let m3 = spawned.0;
    lemma_spawn_upto_props(m2, now, seed, spec_map_size(m2), spawn_deficit(m2));
    lemma_spawn_no_depleted(m2, now, seed, spec_map_size(m2), spawn_deficit(m2), u);
    assert(m3.ships == m2.ships);
    let decayed = decay_model(m3);
    lemma_decay_one_depletion(m3.ships, m3.active_players, u);
    lemma_depleted_count_append(resolved.1, expired.1, u);
    lemma_depleted_count_append(resolved.1 + expired.1, spawned.1, u);
    lemma_depleted_count_append(resolved.1 + expired.1 + spawned.1, decayed.1, u);
}

} // verus!

