//! The region pseudo-random generator: a per-region linear-congruential
//! stream seeded from the world seed, the region coordinates and a per-kind
//! salt.  Every operation wraps on 64-bit overflow; the draw order of a
//! stream is part of the placement contract.

use vstd::prelude::*;

verus! {

/// Multiplier mixed with the region x coordinate when deriving a region seed.
pub const REGION_X_MUL: i64 = 341873128712;

/// Multiplier mixed with the region z coordinate when deriving a region seed.
pub const REGION_Z_MUL: i64 = 132897987541;

/// Multiplier of the linear-congruential step.
pub const LCG_MUL: i64 = 6364136223846793005;

/// Increment of the linear-congruential step.
pub const LCG_ADD: i64 = 1442695040888963407;

/// The seed of the per-region stream: the world seed plus the two scaled
/// region coordinates plus the salt, all wrapping on 64-bit overflow.
pub open spec fn structure_seed_spec(world_seed: i64, region_x: i32, region_z: i32, salt: i64) -> i64 {
    world_seed
        .wrapping_add((region_x as i64).wrapping_mul(REGION_X_MUL))
        .wrapping_add((region_z as i64).wrapping_mul(REGION_Z_MUL))
        .wrapping_add(salt)
}

/// One linear-congruential step of the stream state, wrapping on overflow.
pub open spec fn lcg_step_spec(state: i64) -> i64 {
    state.wrapping_mul(LCG_MUL).wrapping_add(LCG_ADD)
}

/// The bounded draw taken from a stream state: bits 17 and up of the state,
/// truncated to 32 bits, made non-negative, and reduced modulo the bound.
pub open spec fn draw_spec(state: i64, bound: i32) -> i32
    recommends
        bound >= 1,
{
    let bits = (state >> 17) as i32;
    let magnitude = if bits < 0 {
        -(bits as int)
    } else {
        bits as int
    };
    (magnitude % (bound as int)) as i32
}

/// A draw lies in `[0, bound)`.
pub proof fn lemma_draw_in_bound(state: i64, bound: i32)
    requires
        bound >= 1,
    ensures
        0 <= draw_spec(state, bound) < bound,
{
    let bits = (state >> 17) as i32;
    let magnitude = if bits < 0 {
        -(bits as int)
    } else {
        bits as int
    };
    assert(0 <= magnitude % (bound as int) < bound);
}

/// Derives the seed of the per-region stream for one region and one salt.
pub fn get_structure_seed(world_seed: i64, region_x: i32, region_z: i32, salt: i64) -> (seed: i64)
    ensures
        seed == structure_seed_spec(world_seed, region_x, region_z, salt),
{
    let a = region_x as i64;
    let b = region_z as i64;
    world_seed
        .wrapping_add(a.wrapping_mul(REGION_X_MUL))
        .wrapping_add(b.wrapping_mul(REGION_Z_MUL))
        .wrapping_add(salt)
}

/// Advances the stream by one linear-congruential step and returns a draw in
/// `[0, bound)` taken from the new state.
pub fn next_int(seed: &mut i64, bound: i32) -> (r: i32)
    requires
        bound >= 1,
    ensures
        *final(seed) == lcg_step_spec(*old(seed)),
        r == draw_spec(*final(seed), bound),
        0 <= r < bound,
{
    *seed = (*seed).wrapping_mul(LCG_MUL).wrapping_add(LCG_ADD);
    let shifted: i64 = *seed >> 17u32;
    let bits: i32 = #[verifier::truncate] (shifted as i32);
    let magnitude: i64 = if bits < 0 {
        -(bits as i64)
    } else {
        bits as i64
    };
    let r_wide: u64 = (magnitude as u64) % (bound as u64);
    proof {
        lemma_draw_in_bound(*seed, bound);
    }
    r_wide as i32
}

} // verus!
