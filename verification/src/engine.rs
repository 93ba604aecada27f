//! The resource collector and asteroid removal: the single authoritative
//! routine that converts "the asteroid at coordinate `c` is taken by account
//! `a`" into balance, pool and ship updates and the asteroid's removal. It is
//! invoked both by the tick and by direct player action.
//!
//! Each executable function's contract equates its effect with a spec-level
//! model of the whole transition, so callers reason purely over the models.

use vstd::prelude::*;

use crate::store::find_coord_key;
use crate::store::find_res_key;
use crate::store::find_u64_key;
use crate::store::lemma_sl_push;
use crate::store::lemma_sl_remove;
use crate::store::lemma_sl_update;
use crate::store::sl_get;
use crate::store::sl_has;
use crate::store::sl_idx;
use crate::store::sl_uniq;
use crate::types::AsteroidKind;
use crate::types::Coord;
use crate::types::Event;
use crate::types::Starship;
use crate::types::ENERGY_ASTEROID_REWARD;
use crate::types::bonus_amount;
use crate::types::bonus_payout;
use crate::types::is_bonus;
use crate::types::is_collectible;
use crate::world::World;
use crate::world::WorldModel;
use crate::world::uniq_keys;

verus! {

/// Crediting `amount` of `kind` to an account's ledger: the existing entry
/// grows by a saturating add, or a fresh entry is created.
pub open spec fn add_resource_model(
    m: WorldModel,
    user: u64,
    kind: AsteroidKind,
    amount: u64,
) -> WorldModel {
    let key = (user, kind);
    if sl_has(m.resources, key) {
        let i = sl_idx(m.resources, key);
        let cur = m.resources[i].1;
        WorldModel { resources: m.resources.update(i, (key, cur.saturating_add(amount))), ..m }
    } else {
        WorldModel { resources: m.resources.push((key, amount)), ..m }
    }
}

/// Removing the asteroid at `coord` of kind `kind`: a bonus kind gives its
/// payout back to the emission budget (saturating, never below zero), the
/// entry leaves the store, and a removal notification is emitted.
pub open spec fn remove_model(m: WorldModel, kind: AsteroidKind, coord: Coord) -> (
    WorldModel,
    Seq<Event>,
) {
    let emitted = if is_bonus(kind) {
        m.bonus_emitted_total.saturating_sub(bonus_payout(kind) as u64)
    } else {
        m.bonus_emitted_total
    };
    let asts = if sl_has(m.asteroids, coord) {
        m.asteroids.remove(sl_idx(m.asteroids, coord))
    } else {
        m.asteroids
    };
    (
        WorldModel { asteroids: asts, bonus_emitted_total: emitted, ..m },
        seq![Event::AsteroidRemoved { coord }],
    )
}

/// The crediting half of a collection, and the amount reported for it:
/// energy feeds the collector's ship (saturating) and relocates it, and is
/// dropped if no ship is active; gold and collectibles credit one unit of
/// their own kind; a bonus tier credits its payout into the canonical
/// bonus ledger entry.
pub open spec fn collect_credit_model(m: WorldModel, user: u64, coord: Coord, kind: AsteroidKind) -> (
    WorldModel,
    u32,
) {
    if kind is Energy {
        if sl_has(m.ships, user) {
            let i = sl_idx(m.ships, user);
            let ship = m.ships[i].1;
            let moved = Starship {
                pos: coord,
                energy: ship.energy.saturating_add(ENERGY_ASTEROID_REWARD),
                skin: ship.skin,
            };
            (WorldModel { ships: m.ships.update(i, (user, moved)), ..m }, ENERGY_ASTEROID_REWARD)
        } else {
            (m, 1u32)
        }
    } else if kind is Gold || is_collectible(kind) {
        (add_resource_model(m, user, kind, 1), 1u32)
    } else {
        (add_resource_model(m, user, AsteroidKind::Bonus0, bonus_payout(kind) as u64), bonus_payout(
            kind,
        ))
    }
}

/// A full collection at `coord` by `user`: a no-op without an asteroid
/// there; otherwise the credit, a collected notification, and the removal.
pub open spec fn collect_model(m: WorldModel, user: u64, coord: Coord) -> (WorldModel, Seq<Event>) {
    match sl_get(m.asteroids, coord) {
        None => (m, Seq::<Event>::empty()),
        Some(ast) => {
            let credited = collect_credit_model(m, user, coord, ast.kind);
            let removed = remove_model(credited.0, ast.kind, coord);
            (
                removed.0,
                seq![
                    Event::AsteroidCollected {
                        owner: user,
                        coord,
                        resource: ast.kind,
                        amount: credited.1,
                    },
                ] + removed.1,
            )
        },
    }
}

/// Relocating an account's ship to `coord`, if it has one.
pub open spec fn ship_moved_model(m: WorldModel, user: u64, coord: Coord) -> WorldModel {
    if sl_has(m.ships, user) {
        let i = sl_idx(m.ships, user);
        let ship = m.ships[i].1;
        WorldModel {
            ships: m.ships.update(i, (user, Starship { pos: coord, ..ship })),
            ..m
        }
    } else {
        m
    }
}

/// Crediting a ledger entry touches nothing but the resources map and keeps
/// its keys distinct.
pub proof fn lemma_add_resource_uniq(m: WorldModel, user: u64, kind: AsteroidKind, amount: u64)
    requires
        sl_uniq(m.resources),
    ensures
        uniq_keys(m) ==> uniq_keys(add_resource_model(m, user, kind, amount)),
        sl_uniq(add_resource_model(m, user, kind, amount).resources),
        add_resource_model(m, user, kind, amount) == (WorldModel {
            resources: add_resource_model(m, user, kind, amount).resources,
            ..m
        }),
{
    let key = (user, kind);
    if sl_has(m.resources, key) {
        lemma_sl_update(m.resources, sl_idx(m.resources, key), key, m.resources[sl_idx(m.resources, key)].1.saturating_add(amount));
    } else {
        lemma_sl_push(m.resources, key, amount);
    }
}

/// Removal touches nothing but the asteroid store and the emitted total,
/// keeps all keys distinct, and leaves every other coordinate's asteroid
/// as it was.
pub proof fn lemma_remove_model_uniq(m: WorldModel, kind: AsteroidKind, coord: Coord)
    requires
        sl_uniq(m.asteroids),
    ensures
        uniq_keys(m) ==> uniq_keys(remove_model(m, kind, coord).0),
        sl_uniq(remove_model(m, kind, coord).0.asteroids),
        !sl_has(remove_model(m, kind, coord).0.asteroids, coord),
        forall|c2: Coord|
            c2 != coord ==> sl_get(remove_model(m, kind, coord).0.asteroids, c2) == sl_get(
                m.asteroids,
                c2,
            ),
        remove_model(m, kind, coord).0 == (WorldModel {
            asteroids: remove_model(m, kind, coord).0.asteroids,
            bonus_emitted_total: remove_model(m, kind, coord).0.bonus_emitted_total,
            ..m
        }),
        remove_model(m, kind, coord).0.asteroids.len() <= m.asteroids.len(),
{
    if sl_has(m.asteroids, coord) {
        let i = sl_idx(m.asteroids, coord);
        assert(0 <= i < m.asteroids.len() && m.asteroids[i].0 == coord);
        lemma_sl_remove(m.asteroids, i);
    }
}

/// A collection keeps every map's keys distinct, never grows the asteroid
/// store, and touches neither the flights, the configuration, the pool,
/// the spawn clock nor the player count.
pub proof fn lemma_collect_model_uniq(m: WorldModel, user: u64, coord: Coord)
    requires
        uniq_keys(m),
    ensures
        uniq_keys(collect_model(m, user, coord).0),
        collect_model(m, user, coord).0 == (WorldModel {
            asteroids: collect_model(m, user, coord).0.asteroids,
            ships: collect_model(m, user, coord).0.ships,
            resources: collect_model(m, user, coord).0.resources,
            bonus_emitted_total: collect_model(m, user, coord).0.bonus_emitted_total,
            ..m
        }),
        collect_model(m, user, coord).0.asteroids.len() <= m.asteroids.len(),
{
    match sl_get(m.asteroids, coord) {
        None => {},
        Some(ast) => {
            let kind = ast.kind;
            let credited = collect_credit_model(m, user, coord, kind);
            if kind is Energy {
                if sl_has(m.ships, user) {
                    let i = sl_idx(m.ships, user);
                    assert(0 <= i < m.ships.len() && m.ships[i].0 == user);
                    let ship = m.ships[i].1;
                    let moved = Starship {
                        pos: coord,
                        energy: ship.energy.saturating_add(ENERGY_ASTEROID_REWARD),
                        skin: ship.skin,
                    };
                    lemma_sl_update(m.ships, i, user, moved);
                }
            } else if kind is Gold || is_collectible(kind) {
                lemma_add_resource_uniq(m, user, kind, 1);
            } else {
                lemma_add_resource_uniq(m, user, AsteroidKind::Bonus0, bonus_payout(kind) as u64);
            }
            assert(uniq_keys(credited.0));
            assert(credited.0.asteroids == m.asteroids);
            lemma_remove_model_uniq(credited.0, kind, coord);
        },
    }
}

/// Moving a ship keeps every map's keys distinct and touches nothing else.
pub proof fn lemma_ship_moved_uniq(m: WorldModel, user: u64, coord: Coord)
    requires
        sl_uniq(m.ships),
    ensures
        uniq_keys(m) ==> uniq_keys(ship_moved_model(m, user, coord)),
        sl_uniq(ship_moved_model(m, user, coord).ships),
        ship_moved_model(m, user, coord) == (WorldModel {
            ships: ship_moved_model(m, user, coord).ships,
            ..m
        }),
{
    if sl_has(m.ships, user) {
        let i = sl_idx(m.ships, user);
        assert(0 <= i < m.ships.len() && m.ships[i].0 == user);
        let ship = m.ships[i].1;
        lemma_sl_update(m.ships, i, user, Starship { pos: coord, ..ship });
    }
}

/// Adds `amount` of `kind` to the account's accumulated balance,
/// saturating at the ceiling; an absent entry counts as zero.
pub fn add_resource_to_account(world: &mut World, user: u64, kind: AsteroidKind, amount: u64)
    requires
        sl_uniq(old(world)@.resources),
    ensures
        final(world)@ == add_resource_model(old(world)@, user, kind, amount),
{
    let r = find_res_key(&world.resources, user, kind);
    match r {
        Some(i) => {
            let cur = world.resources[i].1;
            world.resources[i] = ((user, kind), cur.saturating_add(amount));
            proof {
                assert(world@ =~= add_resource_model(old(world)@, user, kind, amount));
            }
        },
        None => {
            world.resources.push(((user, kind), amount));
            proof {
                assert(world@ =~= add_resource_model(old(world)@, user, kind, amount));
            }
        },
    }
}

/// Removes the asteroid at `coord` from the store: gives a bonus payout
/// back to the emission budget (saturating subtract, never below zero),
/// emits a removal notification, and deletes the entry.
///
/// The caller passes the kind of the asteroid being removed; the routine
/// itself is unconditional.
pub fn remove_asteroid(world: &mut World, kind: AsteroidKind, coord: Coord, events: &mut Vec<Event>)
    requires
        sl_uniq(old(world)@.asteroids),
    ensures
        final(world)@ == remove_model(old(world)@, kind, coord).0,
        final(events)@ == old(events)@ + remove_model(old(world)@, kind, coord).1,
{
    if matches!(kind, AsteroidKind::Bonus0 | AsteroidKind::Bonus1 | AsteroidKind::Bonus2) {
        let amount = bonus_amount(kind);
        world.bonus_emitted_total = world.bonus_emitted_total.saturating_sub(amount as u64);
    }
    events.push(Event::AsteroidRemoved { coord });
    let r = find_coord_key(&world.asteroids, coord);
    match r {
        Some(i) => {
            world.asteroids.remove(i);
        },
        None => {},
    }
    proof {
        assert(final(world)@ =~= remove_model(old(world)@, kind, coord).0);
        assert(final(events)@ =~= old(events)@ + remove_model(old(world)@, kind, coord).1);
    }
}

/// The shared collection routine: unconditional once invoked (eligibility
/// checks are the action layer's concern). Without an asteroid at `coord`
/// it changes nothing and emits nothing; otherwise it credits the account
/// per the asteroid's kind, emits a collected notification carrying the
/// actual credit, and removes the asteroid.
pub fn collect_asteroid(world: &mut World, user: u64, coord: Coord, events: &mut Vec<Event>)
    requires
        uniq_keys(old(world)@),
    ensures
        final(world)@ == collect_model(old(world)@, user, coord).0,
        final(events)@ == old(events)@ + collect_model(old(world)@, user, coord).1,
        uniq_keys(final(world)@),
{
    proof {
        lemma_collect_model_uniq(old(world)@, user, coord);
    }
    let found = find_coord_key(&world.asteroids, coord);
    let ast = match found {
        None => {
            proof {
                assert(final(events)@ =~= old(events)@ + collect_model(old(world)@, user, coord).1);
            }
            return ;
        },
        Some(i) => world.asteroids[i].1,
    };
    let kind = ast.kind;
    let ghost m0 = old(world)@;
    let ghost credited = collect_credit_model(m0, user, coord, kind);
    let mut amount: u32 = 1;
    if matches!(kind, AsteroidKind::Energy) {
        let s = find_u64_key(&world.ships, user);
        match s {
            Some(j) => {
                let ship = world.ships[j].1;
                amount = ENERGY_ASTEROID_REWARD;
                let moved = Starship {
                    pos: coord,
                    energy: ship.energy.saturating_add(amount),
                    skin: ship.skin,
                };
                world.ships[j] = (user, moved);
            },
            None => {},
        }
    } else if matches!(
        kind,
        AsteroidKind::Gold | AsteroidKind::Collectible0 | AsteroidKind::Collectible1
            | AsteroidKind::Collectible2,
    ) {
        add_resource_to_account(world, user, kind, 1);
    } else {
        amount = bonus_amount(kind);
        add_resource_to_account(world, user, AsteroidKind::Bonus0, amount as u64);
    }
    proof {
        assert(world@ =~= credited.0);
        assert(amount == credited.1);
        assert(sl_uniq(world@.asteroids)) by {
            assert(world@.asteroids == m0.asteroids);
        }
    }
    events.push(Event::AsteroidCollected { owner: user, coord, resource: kind, amount });
    remove_asteroid(world, kind, coord, events);
    proof {
        assert(remove_model(credited.0, kind, coord).0 == collect_model(m0, user, coord).0);
        assert(final(events)@ =~= old(events)@ + collect_model(m0, user, coord).1);
    }
}

/// Sets the position of the account's ship, if it has one.
pub fn relocate_ship(world: &mut World, user: u64, coord: Coord)
    requires
        sl_uniq(old(world)@.ships),
    ensures
        final(world)@ == ship_moved_model(old(world)@, user, coord),
{
    let s = find_u64_key(&world.ships, user);
    match s {
        Some(j) => {
            let ship = world.ships[j].1;
            world.ships[j] = (user, Starship { pos: coord, energy: ship.energy, skin: ship.skin });
            proof {
                assert(world@ =~= ship_moved_model(old(world)@, user, coord));
            }
        },
        None => {},
    }
}

} // verus!
