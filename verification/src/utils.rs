//! The deterministic randomizer and the grid distance.
//!
//! Randomness reaches the engine as a reproducible byte sequence supplied by
//! the caller at tick time; a 32-bit seed is read from its first four bytes,
//! and every draw within a tick decorrelates by an index of its own.

use vstd::prelude::*;

use crate::types::Coord;

verus! {

/// The 32-bit value held by the first four bytes of `b`, least significant
/// byte first.
pub open spec fn le_u32_of(b: Seq<u8>) -> int
    recommends
        b.len() >= 4,
{
    b[0] + 0x100 * b[1] + 0x1_0000 * b[2] + 0x100_0000 * b[3]
}

/// Reads the 32-bit seed from the first four bytes of the supplied
/// seed material, least significant byte first.
pub fn get_hash_u32(seed: &Vec<u8>) -> (r: u32)
    requires
        seed@.len() >= 4,
    ensures
        r == le_u32_of(seed@),
{
    let b0 = seed[0] as u32;
    let b1 = seed[1] as u32;
    let b2 = seed[2] as u32;
    let b3 = seed[3] as u32;
    b0 + 0x100 * b1 + 0x1_0000 * b2 + 0x100_0000 * b3
}

/// The pseudo-random draw: dividing the seed by the (zero-guarded) index
/// decorrelates draws within one tick, and the remainder bounds the result.
pub open spec fn spec_random(seed: u32, skip: u32, max: u32) -> u32
    recommends
        max > 0,
{
    let s: u32 = if skip == 0 {
        1u32
    } else {
        skip
    };
    (((seed as int) / (s as int)) % (max as int)) as u32
}

/// Derives a reproducible value in `[0, max)` from the seed and a per-call
/// index. A pure function: the same inputs always give the same output, as
/// deterministic replay requires. A zero index is treated as one before
/// dividing.
pub fn get_random(seed: u32, skip: u32, max: u32) -> (r: u32)
    requires
        max > 0,
    ensures
        r == spec_random(seed, skip, max),
        r < max,
{
    let s: u32 = if skip == 0 {
        1
    } else {
        skip
    };
    let new_seed = seed / s;
    new_seed % max
}

/// The x component of a spawn placement: a draw in `[0, max)` at index
/// `index`.
pub fn get_random_x(seed: u32, max: u32, index: u32) -> (r: u32)
    requires
        max > 0,
    ensures
        r == spec_random(seed, index, max),
        r < max,
{
    get_random(seed, index, max)
}

/// The y component of a spawn placement: a draw in `[0, max)` at index
/// `100 + index`, independent of the x draw at the same index.
pub fn get_random_y(seed: u32, max: u32, index: u32) -> (r: u32)
    requires
        max > 0,
        index <= u32::MAX - 100,
    ensures
        r == spec_random(seed, (100 + index) as u32, max),
        r < max,
{
    get_random(seed, 100 + index, max)
}

/// Manhattan distance between two coordinates, as an unbounded integer.
pub open spec fn spec_distance(c1: Coord, c2: Coord) -> int {
    let dx: int = if c1.x >= c2.x {
        c1.x - c2.x
    } else {
        c2.x - c1.x
    };
    let dy: int = if c1.y >= c2.y {
        c1.y - c2.y
    } else {
        c2.y - c1.y
    };
    dx + dy
}

/// Manhattan distance between two coordinates.
pub fn get_distance(coord1: Coord, coord2: Coord) -> (r: u32)
    requires
        spec_distance(coord1, coord2) <= u32::MAX,
    ensures
        r == spec_distance(coord1, coord2),
{
    let dx = if coord1.x >= coord2.x {
        coord1.x - coord2.x
    } else {
        coord2.x - coord1.x
    };
    let dy = if coord1.y >= coord2.y {
        coord1.y - coord2.y
    } else {
        coord2.y - coord1.y
    };
    dx + dy
}

} // verus!
